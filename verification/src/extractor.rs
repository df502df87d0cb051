//! The quote extractor: turns normalized text into the ordered list of
//! quotes, by the single-speaker strategy or, for one reserved character,
//! by the multi-speaker continuation strategy.
use crate::capture::{
    all_group_texts, capture_views, find_captures, regex_captures, regex_compiles, Capture,
};
use crate::normalizer::{catalog_compiles, normalize, normalized};
use crate::rules::group;
use crate::text::{
    after_first_line, append_chars, contains, contains_seq, first_line, from_chars, leading_count,
    leading_run, line_at, replace, replaced, same_chars, string_views, to_chars, trim, trimmed,
};
use vstd::prelude::*;
use vstd::string::StringExecFns;

verus! {

/// The pattern of a quote: two apostrophes, a double quote, the captured
/// text, a double quote, two apostrophes.
pub open spec fn quote_pattern_text() -> Seq<char> {
    r#"''"(.*)"''"#@
}

/// The pattern of a line of dialogue: one of the three speakers, a colon,
/// and the utterance between pairs of apostrophes, with or without double
/// quotes around it.
pub open spec fn speaker_pattern_text() -> Seq<char> {
    r#"(Wolf|Lamb|Kindred): ''(?:")?([^"]+)?(?:")?''"#@
}

/// The character whose page is read by the continuation strategy.
pub open spec fn reserved_name_text() -> Seq<char> {
    "Kindred"@
}

/// `t` with each triple apostrophe turned into the two-character bold
/// marker.
pub open spec fn bold_marked(t: Seq<char>) -> Seq<char> {
    replaced(t, "'''"@, "**"@)
}

/// Whether a captured span is kept as a quote: it names no audio file and
/// is not the stray `GG!`.
pub open spec fn is_kept(t: Seq<char>) -> bool {
    !contains_seq(t, "ogg"@) && t != "GG!"@
}

/// The quote that one match gives under the single-speaker strategy, if it
/// gives one.
pub open spec fn quote_of(groups: Seq<Option<Seq<char>>>) -> Option<Seq<char>> {
    if groups.len() > 1 && groups[1] is Some && is_kept(groups[1]->0) {
        Some(bold_marked(groups[1]->0))
    } else {
        None
    }
}

/// The quotes that a list of matches gives, in the order of the matches.
pub open spec fn selected(caps: Seq<Seq<Option<Seq<char>>>>) -> Seq<Seq<char>>
    decreases caps.len(),
{
    if caps.len() == 0 {
        seq![]
    } else {
        match quote_of(caps.last()) {
            Some(q) => selected(caps.drop_last()).push(q),
            None => selected(caps.drop_last()),
        }
    }
}

/// The quotes of a normalized text under the single-speaker strategy.
pub open spec fn single_speaker_quotes(text: Seq<char>) -> Seq<Seq<char>> {
    selected(all_group_texts(text, regex_captures(quote_pattern_text(), true, text)))
}

/// The pattern of a quote.
pub fn quote_pattern() -> (p: &'static str)
    ensures
        p@ == quote_pattern_text(),
{
    r#"''"(.*)"''"#
}

/// The pattern of a line of dialogue.
pub fn speaker_pattern() -> (p: &'static str)
    ensures
        p@ == speaker_pattern_text(),
{
    r#"(Wolf|Lamb|Kindred): ''(?:")?([^"]+)?(?:")?''"#
}

/// `t` with each triple apostrophe turned into the two-character bold
/// marker.
pub fn mark_bold(t: &Vec<char>) -> (out: Vec<char>)
    ensures
        out@ == bold_marked(t@),
{
    let from = to_chars("'''");
    let to = to_chars("**");
    replace(t, &from, &to)
}

/// The quote that one match gives under the single-speaker strategy, if it
/// gives one.
pub fn quote_from(cap: &Capture) -> (q: Option<String>)
    ensures
        q is Some <==> quote_of(cap@) is Some,
        q is Some ==> q->0@ == quote_of(cap@)->0,
{
    match group(cap, 1) {
        Some(s) => {
            let t = to_chars(s.as_str());
            let audio = to_chars("ogg");
            let stray = to_chars("GG!");
            if contains(&t, &audio) || same_chars(&t, &stray) {
                None
            } else {
                let marked = mark_bold(&t);
                Some(from_chars(&marked))
            }
        },
        None => None,
    }
}

/// The quotes that a list of matches gives, in the order of the matches.
pub fn select_quotes(caps: &Vec<Capture>) -> (quotes: Vec<String>)
    ensures
        string_views(quotes@) == selected(capture_views(caps@)),
{
    let mut quotes: Vec<String> = Vec::new();
    let mut i: usize = 0;
    let ghost all = capture_views(caps@);
    assert(string_views(quotes@) =~= selected(all.take(0)));
    while i < caps.len()
        invariant
            i <= caps.len(),
            all == capture_views(caps@),
            string_views(quotes@) == selected(all.take(i as int)),
        decreases caps.len() - i,
    {
        let ghost before = quotes@;
        assert(all.take(i + 1).drop_last() =~= all.take(i as int));
        assert(all.take(i + 1).last() == caps@[i as int]@);
        match quote_from(&caps[i]) {
            Some(q) => {
                quotes.push(q);
                assert(string_views(quotes@) =~= string_views(before).push(q@));
            },
            None => {},
        }
        i += 1;
    }
    assert(all.take(caps.len() as int) =~= all);
    quotes
}

/// The quotes of a normalized text under the single-speaker strategy. The
/// result is `None` exactly when the engine rejects the quote pattern.
pub fn extract_quotes(text: &str) -> (res: Option<Vec<String>>)
    ensures
        res is Some <==> regex_compiles(quote_pattern_text(), true),
        res is Some ==> string_views(res->0@) == single_speaker_quotes(text@),
{
    match find_captures(quote_pattern(), true, text) {
        Some(caps) => Some(select_quotes(&caps)),
        None => None,
    }
}

/// Quotes of earlier matches stand before those of later matches: the
/// quotes of two lists of matches laid end to end are the quotes of the
/// first followed by the quotes of the second.
pub proof fn lemma_selected_in_order(
    a: Seq<Seq<Option<Seq<char>>>>,
    b: Seq<Seq<Option<Seq<char>>>>,
)
    ensures
        selected(a + b) == selected(a) + selected(b),
    decreases b.len(),
{
    if b.len() == 0 {
        assert(a + b =~= a);
        assert(selected(a) + selected(b) =~= selected(a));
    } else {
        assert((a + b).drop_last() =~= a + b.drop_last());
        assert((a + b).last() == b.last());
        lemma_selected_in_order(a, b.drop_last());
        match quote_of(b.last()) {
            Some(q) => {
                assert((selected(a) + selected(b.drop_last())).push(q) =~= selected(a) + selected(
                    b.drop_last(),
                ).push(q));
            },
            None => {},
        }
    }
}

/// A match whose captured span holds `ogg`, or is exactly `GG!`, gives no
/// quote; every other match that captured a span gives that span with its
/// bold markers converted.
pub proof fn lemma_filtering(groups: Seq<Option<Seq<char>>>)
    requires
        groups.len() > 1,
        groups[1] is Some,
    ensures
        contains_seq(groups[1]->0, "ogg"@) ==> quote_of(groups) is None,
        groups[1]->0 == "GG!"@ ==> quote_of(groups) is None,
        !contains_seq(groups[1]->0, "ogg"@) && groups[1]->0 != "GG!"@ ==> quote_of(groups) == Some(
            replaced(groups[1]->0, "'''"@, "**"@),
        ),
{
}

/// The state of the continuation scan as a mathematical value: the depth
/// of the last line that gave a match, and the entries gathered so far.
pub struct ScanState {
    pub last_depth: nat,
    pub entries: Seq<Seq<char>>,
}

/// The state of the continuation scan: the depth of the last line that gave
/// a match, and the entries gathered so far.
pub struct Continuation {
    pub last_depth: usize,
    pub entries: Vec<String>,
}

impl View for Continuation {
    type V = ScanState;

    open spec fn view(&self) -> ScanState {
        ScanState { last_depth: self.last_depth as nat, entries: string_views(self.entries@) }
    }
}

/// The state before the first line: no entry, and a last depth of 1.
pub open spec fn initial_state() -> ScanState {
    ScanState { last_depth: 1, entries: seq![] }
}

/// The formatted line that one match of the speaker pattern gives: speaker,
/// colon, space, utterance, with bold markers converted. A match without an
/// utterance gives none.
pub open spec fn dialogue_line(groups: Seq<Option<Seq<char>>>) -> Option<Seq<char>> {
    if groups.len() > 2 && groups[1] is Some && groups[2] is Some {
        Some(bold_marked(groups[1]->0 + ": "@ + groups[2]->0))
    } else {
        None
    }
}

/// Whether a line of depth `depth` continues the last entry of `state`.
pub open spec fn continues(state: ScanState, depth: nat) -> bool {
    depth == state.last_depth + 1 && state.entries.len() > 0
}

/// The state after a formatted line of depth `depth`. A line one level
/// deeper than the last matched line is joined to the last entry by a line
/// feed; any other line, and any line while there is no entry yet, opens a
/// new entry. The depth of the line becomes the last depth.
pub open spec fn step(state: ScanState, depth: nat, line: Seq<char>) -> ScanState {
    if continues(state, depth) {
        ScanState {
            last_depth: depth,
            entries: state.entries.drop_last().push(state.entries.last() + "\n"@ + line),
        }
    } else {
        ScanState { last_depth: depth, entries: state.entries.push(line) }
    }
}

/// The state after one match on a line of depth `depth`. A match that gives
/// no formatted line leaves the state as it is.
pub open spec fn feed(state: ScanState, depth: nat, groups: Seq<Option<Seq<char>>>) -> ScanState {
    match dialogue_line(groups) {
        Some(line) => step(state, depth, line),
        None => state,
    }
}

/// The state after the matches of one line, taken in order.
pub open spec fn feed_all(state: ScanState, depth: nat, caps: Seq<Seq<Option<Seq<char>>>>) -> ScanState
    decreases caps.len(),
{
    if caps.len() == 0 {
        state
    } else {
        feed(feed_all(state, depth, caps.drop_last()), depth, caps.last())
    }
}

/// The state after one line of the text: the line is trimmed, its depth is
/// the number of asterisks it then begins with, and its matches of the
/// speaker pattern are fed in order.
pub open spec fn scan_line(state: ScanState, raw: Seq<char>) -> ScanState {
    let line = trimmed(raw);
    feed_all(
        state,
        leading_run(line, '*'),
        all_group_texts(line, regex_captures(speaker_pattern_text(), false, line)),
    )
}

/// The state after every line of `text`, taken from top to bottom.
pub open spec fn scan(state: ScanState, text: Seq<char>) -> ScanState
    decreases text.len(),
{
    if text.len() == 0 {
        state
    } else {
        scan(scan_line(state, first_line(text)), after_first_line(text))
    }
}

/// The quotes of a normalized text under the continuation strategy.
pub open spec fn continuation_quotes(text: Seq<char>) -> Seq<Seq<char>> {
    scan(initial_state(), text).entries
}

/// The formatted line that one match of the speaker pattern gives, if it
/// gives one.
pub fn dialogue_from(cap: &Capture) -> (line: Option<String>)
    ensures
        line is Some <==> dialogue_line(cap@) is Some,
        line is Some ==> line->0@ == dialogue_line(cap@)->0,
{
    match (group(cap, 1), group(cap, 2)) {
        (Some(speaker), Some(utterance)) => {
            let mut raw = to_chars(speaker.as_str());
            let colon = to_chars(": ");
            let said = to_chars(utterance.as_str());
            append_chars(&mut raw, &colon);
            append_chars(&mut raw, &said);
            let marked = mark_bold(&raw);
            Some(from_chars(&marked))
        },
        _ => None,
    }
}

impl Continuation {
    /// The state before the first line.
    pub fn new() -> (state: Continuation)
        ensures
            state@ == initial_state(),
    {
        let state = Continuation { last_depth: 1, entries: Vec::new() };
        assert(state@.entries =~= initial_state().entries);
        state
    }

    /// Takes in a formatted line of depth `depth`.
    pub fn step(&mut self, depth: usize, line: String)
        ensures
            final(self)@ == step(old(self)@, depth as nat, line@),
    {
        let ghost before = self.entries@;
        if self.last_depth < usize::MAX && depth == self.last_depth + 1 && self.entries.len() > 0 {
            let last = self.entries.pop().unwrap();
            let joined = last.concat("\n").concat(line.as_str());
            self.entries.push(joined);
            assert(string_views(self.entries@) =~= string_views(before).drop_last().push(
                string_views(before).last() + "\n"@ + line@,
            ));
        } else {
            self.entries.push(line);
            assert(string_views(self.entries@) =~= string_views(before).push(line@));
        }
        self.last_depth = depth;
    }

    /// Takes in one match found on a line of depth `depth`.
    pub fn feed(&mut self, depth: usize, cap: &Capture)
        ensures
            final(self)@ == feed(old(self)@, depth as nat, cap@),
    {
        match dialogue_from(cap) {
            Some(line) => self.step(depth, line),
            None => {},
        }
    }

    /// Takes in the matches found on a line of depth `depth`, in order.
    pub fn feed_all(&mut self, depth: usize, caps: &Vec<Capture>)
        ensures
            final(self)@ == feed_all(old(self)@, depth as nat, capture_views(caps@)),
    {
        let ghost all = capture_views(caps@);
        let ghost start = self@;
        let mut i: usize = 0;
        while i < caps.len()
            invariant
                i <= caps.len(),
                all == capture_views(caps@),
                self@ == feed_all(start, depth as nat, all.take(i as int)),
            decreases caps.len() - i,
        {
            assert(all.take(i + 1).drop_last() =~= all.take(i as int));
            assert(all.take(i + 1).last() == caps@[i as int]@);
            self.feed(depth, &caps[i]);
            i += 1;
        }
        assert(all.take(caps.len() as int) =~= all);
    }

    /// The entries gathered so far.
    pub fn into_entries(self) -> (entries: Vec<String>)
        ensures
            string_views(entries@) == self@.entries,
    {
        self.entries
    }
}

/// The quotes of a normalized text under the continuation strategy. The
/// result is `None` exactly when the text has a line and the engine rejects
/// the speaker pattern.
pub fn extract_dialogue(text: &str) -> (res: Option<Vec<String>>)
    ensures
        res is Some <==> text@.len() == 0 || regex_compiles(speaker_pattern_text(), false),
        res is Some ==> string_views(res->0@) == continuation_quotes(text@),
{
    let chars = to_chars(text);
    let mut state = Continuation::new();
    let mut start: usize = 0;
    assert(chars@.skip(0) =~= chars@);
    while start < chars.len()
        invariant
            start <= chars.len(),
            chars@ == text@,
            start > 0 ==> regex_compiles(speaker_pattern_text(), false),
            scan(state@, chars@.skip(start as int)) == scan(initial_state(), text@),
        decreases chars.len() - start,
    {
        let (raw, next) = line_at(&chars, start);
        let cleaned = trim(&raw);
        let depth = leading_count(&cleaned, '*');
        let line = from_chars(&cleaned);
        match find_captures(speaker_pattern(), false, line.as_str()) {
            Some(caps) => {
                state.feed_all(depth, &caps);
            },
            None => {
                return None;
            },
        }
        start = next;
    }
    assert(chars@.skip(chars@.len() as int) =~= Seq::<char>::empty());
    Some(state.into_entries())
}

/// The reserved name, under which the continuation strategy is used.
pub fn is_reserved_name(name: &str) -> (b: bool)
    ensures
        b == (name@ == reserved_name_text()),
{
    let given = to_chars(name);
    let reserved = to_chars("Kindred");
    same_chars(&given, &reserved)
}

/// The quotes of a normalized text for the character `name`.
pub open spec fn quotes_of_normalized(text: Seq<char>, name: Seq<char>) -> Seq<Seq<char>> {
    if name == reserved_name_text() {
        continuation_quotes(text)
    } else {
        single_speaker_quotes(text)
    }
}

/// Whether the engine accepts the pattern that the extraction of the
/// normalized `text` for `name` needs.
pub open spec fn extraction_compiles(text: Seq<char>, name: Seq<char>) -> bool {
    if name == reserved_name_text() {
        text.len() == 0 || regex_compiles(speaker_pattern_text(), false)
    } else {
        regex_compiles(quote_pattern_text(), true)
    }
}

/// The quotes of a normalized text for the character `name`: by the
/// continuation strategy for the reserved name, by the single-speaker
/// strategy for every other.
pub fn extract(text: &str, name: &str) -> (res: Option<Vec<String>>)
    ensures
        res is Some <==> extraction_compiles(text@, name@),
        res is Some ==> string_views(res->0@) == quotes_of_normalized(text@, name@),
{
    if is_reserved_name(name) {
        extract_dialogue(text)
    } else {
        extract_quotes(text)
    }
}

/// The quotes of the raw markup `text` of the character `name`: the text is
/// normalized, then the quotes are extracted. The result is `None` exactly
/// when the engine rejects a pattern that this needs.
pub fn parse_quotes(text: String, name: &str) -> (res: Option<Vec<String>>)
    ensures
        res is Some <==> catalog_compiles() && extraction_compiles(normalized(text@), name@),
        res is Some ==> string_views(res->0@) == quotes_of_normalized(normalized(text@), name@),
{
    match normalize(text.as_str()) {
        Some(clean) => extract(clean.as_str(), name),
        None => None,
    }
}

/// Continuation grouping: from the initial state, three lines of depths 1,
/// 2 and 3 make one entry, the lines joined by line feeds in order; three
/// lines of depth 1 make three entries.
pub proof fn lemma_continuation_grouping(a: Seq<char>, b: Seq<char>, c: Seq<char>)
    ensures
        step(step(step(initial_state(), 1, a), 2, b), 3, c).entries == seq![
            a + "\n"@ + b + "\n"@ + c,
        ],
        step(step(step(initial_state(), 1, a), 1, b), 1, c).entries == seq![a, b, c],
{
    let s1 = step(initial_state(), 1, a);
    assert(s1.entries =~= seq![a]);
    let s2 = step(s1, 2, b);
    assert(s2.entries =~= seq![a + "\n"@ + b]);
    let s3 = step(s2, 3, c);
    assert(s3.entries =~= seq![a + "\n"@ + b + "\n"@ + c]);
    let t2 = step(s1, 1, b);
    assert(t2.entries =~= seq![a, b]);
    let t3 = step(t2, 1, c);
    assert(t3.entries =~= seq![a, b, c]);
}

/// Matches are fed in the order in which they were found: feeding two
/// lists of matches laid end to end is feeding the first, then the second.
pub proof fn lemma_feed_all_in_order(
    state: ScanState,
    depth: nat,
    a: Seq<Seq<Option<Seq<char>>>>,
    b: Seq<Seq<Option<Seq<char>>>>,
)
    ensures
        feed_all(state, depth, a + b) == feed_all(feed_all(state, depth, a), depth, b),
    decreases b.len(),
{
    if b.len() == 0 {
        assert(a + b =~= a);
    } else {
        assert((a + b).drop_last() =~= a + b.drop_last());
        assert((a + b).last() == b.last());
        lemma_feed_all_in_order(state, depth, a, b.drop_last());
    }
}

/// Line order is kept: a step never reorders or drops what was gathered.
/// Every earlier entry stays at its place and is at most extended at its
/// end, and the new line stands at the end of the last entry.
pub proof fn lemma_step_keeps_order(state: ScanState, depth: nat, line: Seq<char>)
    ensures
        step(state, depth, line).entries.len() >= state.entries.len(),
        step(state, depth, line).entries.len() >= 1,
        forall|i: int|
            0 <= i < state.entries.len() ==> (#[trigger] state.entries[i]).is_prefix_of(
                step(state, depth, line).entries[i],
            ),
        line.is_suffix_of(step(state, depth, line).entries.last()),
{
    let after = step(state, depth, line).entries;
    assert forall|i: int| 0 <= i < state.entries.len() implies (#[trigger] state.entries[i]).is_prefix_of(
    after[i]) by {
        let e = state.entries[i];
        assert(e.subrange(0, e.len() as int) =~= e);
        if continues(state, depth) && i == state.entries.len() - 1 {
            assert(after[i].subrange(0, e.len() as int) =~= e);
        }
    }
    let last = after.last();
    assert(last.subrange(last.len() - line.len(), last.len() as int) =~= line);
}

} // verus!
