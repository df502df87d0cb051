//! Regular-expression matches as plain values.
//!
//! The matching itself is the `regex` crate's work. What this module states
//! of it is limited to what that crate documents of every pattern: matches
//! come in order, do not overlap, lie inside the searched text, and carry
//! their whole span as group 0.
use vstd::prelude::*;

verus! {

/// One match of a pattern: for each capture group of the pattern, in the
/// order of the opening parentheses and with the whole match as group 0,
/// the text that the group matched, or `None` if it took no part.
pub struct Capture {
    pub groups: Vec<Option<String>>,
}

impl View for Capture {
    type V = Seq<Option<Seq<char>>>;

    open spec fn view(&self) -> Seq<Option<Seq<char>>> {
        Seq::new(
            self.groups@.len(),
            |j: int|
                match self.groups@[j] {
                    Some(s) => Some(s@),
                    None => None,
                },
        )
    }
}

/// The views of a list of captures.
pub open spec fn capture_views(caps: Seq<Capture>) -> Seq<Seq<Option<Seq<char>>>> {
    Seq::new(caps.len(), |k: int| caps[k]@)
}

/// Whether `pattern` is a regular expression that the engine accepts under
/// its default limits, with multi-line mode as given.
pub uninterp spec fn regex_compiles(pattern: Seq<char>, multi_line: bool) -> bool;

/// The successive matches of `pattern` in `text`, leftmost first. Each match
/// lists, per capture group, the span `(start, end)` of the group in `text`,
/// counted in characters, or `None` for a group that took no part.
pub uninterp spec fn regex_captures(pattern: Seq<char>, multi_line: bool, text: Seq<char>) -> Seq<
    Seq<Option<(int, int)>>,
>;

/// The texts that the groups of one match cover.
pub open spec fn group_texts(text: Seq<char>, spans: Seq<Option<(int, int)>>) -> Seq<
    Option<Seq<char>>,
> {
    Seq::new(
        spans.len(),
        |j: int|
            match spans[j] {
                Some(span) => Some(text.subrange(span.0, span.1)),
                None => None,
            },
    )
}

/// The group texts of every match of a list.
pub open spec fn all_group_texts(text: Seq<char>, matches: Seq<Seq<Option<(int, int)>>>) -> Seq<
    Seq<Option<Seq<char>>>,
> {
    Seq::new(matches.len(), |k: int| group_texts(text, matches[k]))
}

/// Start of the whole match.
pub open spec fn match_start(spans: Seq<Option<(int, int)>>) -> int {
    spans[0].unwrap().0
}

/// End of the whole match.
pub open spec fn match_end(spans: Seq<Option<(int, int)>>) -> int {
    spans[0].unwrap().1
}

/// What holds of the matches of any pattern in `text`: every match has its
/// whole span as group 0, every span lies inside the text, and the matches
/// follow one another without overlap.
pub open spec fn captures_fit(text: Seq<char>, matches: Seq<Seq<Option<(int, int)>>>) -> bool {
    &&& forall|k: int|
        0 <= k < matches.len() ==> (#[trigger] matches[k]).len() >= 1 && matches[k][0] is Some
    &&& forall|k: int, j: int|
        0 <= k < matches.len() && 0 <= j < matches[k].len() && (#[trigger] matches[k][j]) is Some
            ==> 0 <= matches[k][j].unwrap().0 <= matches[k][j].unwrap().1 <= text.len()
    &&& forall|k: int|
        0 <= k < matches.len() - 1 ==> match_end(#[trigger] matches[k]) <= match_start(
            matches[k + 1],
        )
}

/// Compiles `pattern` with `regex::RegexBuilder` (`new`, `multi_line`,
/// `build`) and walks `regex::Regex::captures_iter` over `text`, handing out
/// each match as the texts of its groups.
///
/// Claimed: the result is `None` exactly when the pattern does not compile;
/// otherwise it lists the engine's matches of the pattern in the text, in
/// the order found, and those matches fit the text as `captures_fit` says.
#[verifier::external_body]
pub(crate) fn find_captures(pattern: &str, multi_line: bool, text: &str) -> (res: Option<
    Vec<Capture>,
>)
    ensures
        res is Some <==> regex_compiles(pattern@, multi_line),
        res is Some ==> captures_fit(text@, regex_captures(pattern@, multi_line, text@)),
        res is Some ==> capture_views(res->0@) == all_group_texts(
            text@,
            regex_captures(pattern@, multi_line, text@),
        ),
{
    let re = regex::RegexBuilder::new(pattern).multi_line(multi_line).build().ok()?;
    Some(
        re.captures_iter(text).map(
            |c| Capture { groups: c.iter().map(|g| g.map(|m| m.as_str().to_string())).collect() },
        ).collect(),
    )
}

} // verus!
