//! The template normalizer: every rule of the catalog applied once, in
//! catalog order, each to the text that the rule before it left.
use crate::capture::{
    captures_fit, group_texts, match_end, match_start, regex_captures, regex_compiles, Capture,
};
use crate::rules::{
    is_exempt, is_multi_line, multi_line, pattern, pattern_text, replacement, rule_output,
    whole_match, RuleId,
};
use vstd::prelude::*;

verus! {

/// The text from `pos` on, with the matches from number `k` on replaced by
/// what `rule` emits for them and the text between them kept.
pub open spec fn spliced_from(
    text: Seq<char>,
    matches: Seq<Seq<Option<(int, int)>>>,
    rule: RuleId,
    k: int,
    pos: int,
) -> Seq<char>
    decreases matches.len() - k,
{
    if k < 0 || k >= matches.len() {
        text.subrange(pos, text.len() as int)
    } else {
        text.subrange(pos, match_start(matches[k])) + replacement(
            rule,
            group_texts(text, matches[k]),
        ) + spliced_from(text, matches, rule, k + 1, match_end(matches[k]))
    }
}

/// `text` with every match replaced by what `rule` emits for it.
pub open spec fn spliced(text: Seq<char>, matches: Seq<Seq<Option<(int, int)>>>, rule: RuleId) -> Seq<
    char,
> {
    spliced_from(text, matches, rule, 0, 0)
}

/// The matches of a rule's pattern in `text`.
pub open spec fn rule_matches(text: Seq<char>, rule: RuleId) -> Seq<Seq<Option<(int, int)>>> {
    regex_captures(pattern_text(rule), is_multi_line(rule), text)
}

/// `text` after one rule has been applied to it.
pub open spec fn rule_stage(text: Seq<char>, rule: RuleId) -> Seq<char> {
    spliced(text, rule_matches(text, rule), rule)
}

/// The rules in the order in which they are applied.
pub open spec fn catalog_order() -> Seq<RuleId> {
    seq![
        RuleId::SmallCaps,
        RuleId::ChampionLink,
        RuleId::PageLink,
        RuleId::ImageEmbed,
        RuleId::Ability,
        RuleId::Currency,
        RuleId::SummonerSpell,
        RuleId::ChampionIcon,
        RuleId::AbilityShort,
        RuleId::StatIcon,
        RuleId::BuffIcon,
        RuleId::Tooltip,
        RuleId::UnitIcon,
        RuleId::ChampionSkin,
        RuleId::FactionIcon,
    ]
}

/// `text` after the given rules have been applied one after another, each to
/// the result of the one before.
pub open spec fn apply_rules(text: Seq<char>, rules: Seq<RuleId>) -> Seq<char>
    decreases rules.len(),
{
    if rules.len() == 0 {
        text
    } else {
        apply_rules(rule_stage(text, rules[0]), rules.skip(1))
    }
}

/// The normalized form of `text`.
pub open spec fn normalized(text: Seq<char>) -> Seq<char> {
    apply_rules(text, catalog_order())
}

/// Whether the engine accepts the pattern of a rule.
pub open spec fn rule_compiles(rule: RuleId) -> bool {
    regex_compiles(pattern_text(rule), is_multi_line(rule))
}

/// Whether the engine accepts the pattern of every rule of the catalog.
pub open spec fn catalog_compiles() -> bool {
    forall|i: int| 0 <= i < catalog_order().len() ==> rule_compiles(#[trigger] catalog_order()[i])
}

/// Compiles `pattern` with `regex::RegexBuilder` (`new`, `multi_line`,
/// `build`) and calls `regex::Regex::replace_all` on `text`, with a replacer
/// that hands each match, as the texts of its groups, to `rule_output`.
///
/// Claimed: the result is `None` exactly when the pattern does not compile.
/// Otherwise it is the text in which each match of the pattern, taken in
/// order, has given way to what the replacer returned for it, while the
/// text before, between and after the matches is kept; and the matches fit
/// the text as `captures_fit` says.
#[verifier::external_body]
pub(crate) fn replace_matches(pattern: &str, multi_line: bool, text: &str, rule: RuleId) -> (res:
    Option<String>)
    ensures
        res is Some <==> regex_compiles(pattern@, multi_line),
        res is Some ==> captures_fit(text@, regex_captures(pattern@, multi_line, text@)),
        res is Some ==> res->0@ == spliced(
            text@,
            regex_captures(pattern@, multi_line, text@),
            rule,
        ),
{
    let re = regex::RegexBuilder::new(pattern).multi_line(multi_line).build().ok()?;
    let out = re.replace_all(
        text,
        |c: &regex::Captures| {
            let groups = c.iter().map(|g| g.map(|m| m.as_str().to_string())).collect();
            rule_output(rule, &Capture { groups })
        },
    );
    Some(out.into_owned())
}

/// Applies one rule to `text`. The result is `None` exactly when the engine
/// rejects the rule's pattern.
pub fn apply_rule(text: &str, rule: RuleId) -> (res: Option<String>)
    ensures
        res is Some <==> rule_compiles(rule),
        res is Some ==> res->0@ == rule_stage(text@, rule),
        res is Some ==> captures_fit(text@, rule_matches(text@, rule)),
{
    replace_matches(pattern(rule), multi_line(rule), text, rule)
}

/// The rules in the order in which they are applied.
pub fn catalog() -> (rules: Vec<RuleId>)
    ensures
        rules@ == catalog_order(),
{
    let rules = vec![
        RuleId::SmallCaps,
        RuleId::ChampionLink,
        RuleId::PageLink,
        RuleId::ImageEmbed,
        RuleId::Ability,
        RuleId::Currency,
        RuleId::SummonerSpell,
        RuleId::ChampionIcon,
        RuleId::AbilityShort,
        RuleId::StatIcon,
        RuleId::BuffIcon,
        RuleId::Tooltip,
        RuleId::UnitIcon,
        RuleId::ChampionSkin,
        RuleId::FactionIcon,
    ];
    assert(rules@ =~= catalog_order());
    rules
}

/// Normalizes `text`: applies every rule of the catalog once, in order.
/// The result is `None` exactly when the engine rejects a pattern of the
/// catalog.
pub fn normalize(text: &str) -> (res: Option<String>)
    ensures
        res is Some <==> catalog_compiles(),
        res is Some ==> res->0@ == normalized(text@),
{
    let rules = catalog();
    let mut current: String = text.to_owned();
    let mut i: usize = 0;
    assert(rules@.skip(0) =~= rules@);
    while i < rules.len()
        invariant
            i <= rules.len(),
            rules@ == catalog_order(),
            forall|k: int| 0 <= k < i ==> rule_compiles(#[trigger] catalog_order()[k]),
            apply_rules(current@, rules@.skip(i as int)) == normalized(text@),
        decreases rules.len() - i,
    {
        let rule = rules[i];
        match apply_rule(current.as_str(), rule) {
            Some(next) => {
                assert(rules@.skip(i as int)[0] == rule);
                assert(rules@.skip(i as int).skip(1) =~= rules@.skip(i + 1));
                current = next;
            },
            None => {
                assert(!rule_compiles(catalog_order()[i as int]));
                return None;
            },
        }
        i += 1;
    }
    Some(current)
}

/// Where a rule emits, for each of its matches, the very text that was
/// matched, the rule leaves the text from `pos` on as it was.
pub proof fn lemma_splice_identity(
    text: Seq<char>,
    matches: Seq<Seq<Option<(int, int)>>>,
    rule: RuleId,
    k: int,
    pos: int,
)
    requires
        captures_fit(text, matches),
        0 <= k <= matches.len(),
        0 <= pos <= text.len(),
        k < matches.len() ==> pos <= match_start(matches[k]),
        forall|j: int|
            k <= j < matches.len() ==> replacement(rule, group_texts(text, #[trigger] matches[j]))
                == whole_match(group_texts(text, matches[j])),
    ensures
        spliced_from(text, matches, rule, k, pos) == text.subrange(pos, text.len() as int),
    decreases matches.len() - k,
{
    if k < matches.len() {
        let m = matches[k];
        assert(m.len() >= 1 && m[0] is Some);
        let start = match_start(m);
        let end = match_end(m);
        assert(0 <= start <= end <= text.len());
        if k + 1 < matches.len() {
            assert(match_end(matches[k]) <= match_start(matches[k + 1]));
        }
        lemma_splice_identity(text, matches, rule, k + 1, end);
        assert(whole_match(group_texts(text, m)) == text.subrange(start, end));
        assert(text.subrange(pos, start) + text.subrange(start, end) + text.subrange(
            end,
            text.len() as int,
        ) =~= text.subrange(pos, text.len() as int));
    }
}

/// A rule whose pattern has exactly one match in `text` gives the text
/// before the match, what the rule emits for the match, and the text after
/// the match.
pub proof fn lemma_single_match(text: Seq<char>, rule: RuleId)
    requires
        rule_matches(text, rule).len() == 1,
    ensures
        rule_stage(text, rule) == text.subrange(0, match_start(rule_matches(text, rule)[0]))
            + replacement(rule, group_texts(text, rule_matches(text, rule)[0])) + text.subrange(
            match_end(rule_matches(text, rule)[0]),
            text.len() as int,
        ),
{
    let matches = rule_matches(text, rule);
    assert(spliced_from(text, matches, rule, 1, match_end(matches[0])) == text.subrange(
        match_end(matches[0]),
        text.len() as int,
    ));
}

/// A rule whose pattern has no match in `text` leaves `text` as it is.
pub proof fn lemma_no_match_unchanged(text: Seq<char>, rule: RuleId)
    requires
        rule_matches(text, rule).len() == 0,
    ensures
        rule_stage(text, rule) == text,
{
    assert(text.subrange(0, text.len() as int) =~= text);
}

/// File-link exclusion: where every link that the link rule finds in `text`
/// targets a page that begins with `File:`, the rule leaves `text` as it is.
pub proof fn lemma_file_links_untouched(text: Seq<char>)
    requires
        captures_fit(text, rule_matches(text, RuleId::PageLink)),
        forall|j: int|
            0 <= j < rule_matches(text, RuleId::PageLink).len() ==> is_exempt(
                RuleId::PageLink,
                group_texts(text, #[trigger] rule_matches(text, RuleId::PageLink)[j]),
            ),
    ensures
        rule_stage(text, RuleId::PageLink) == text,
{
    let matches = rule_matches(text, RuleId::PageLink);
    if matches.len() > 0 {
        assert(matches[0].len() >= 1 && matches[0][0] is Some);
    }
    lemma_splice_identity(text, matches, RuleId::PageLink, 0, 0);
    assert(text.subrange(0, text.len() as int) =~= text);
}

/// A text in which no rule of the list finds a match passes through those
/// rules unchanged.
pub proof fn lemma_rules_settled(text: Seq<char>, rules: Seq<RuleId>)
    requires
        forall|i: int| 0 <= i < rules.len() ==> rule_matches(text, #[trigger] rules[i]).len() == 0,
    ensures
        apply_rules(text, rules) == text,
    decreases rules.len(),
{
    if rules.len() > 0 {
        lemma_no_match_unchanged(text, rules[0]);
        assert forall|i: int| 0 <= i < rules.skip(1).len() implies rule_matches(
            text,
            #[trigger] rules.skip(1)[i],
        ).len() == 0 by {
            assert(rules.skip(1)[i] == rules[i + 1]);
        }
        lemma_rules_settled(text, rules.skip(1));
    }
}

/// Normalizing again changes nothing, provided that the normalized text
/// holds no template that a rule of the catalog still matches.
pub proof fn lemma_normalize_idempotent(text: Seq<char>)
    requires
        forall|i: int|
            0 <= i < catalog_order().len() ==> rule_matches(
                normalized(text),
                #[trigger] catalog_order()[i],
            ).len() == 0,
    ensures
        normalized(normalized(text)) == normalized(text),
{
    lemma_rules_settled(normalized(text), catalog_order());
}

} // verus!
