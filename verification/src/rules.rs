//! The catalog of template rules: for each rule its pattern, the order in
//! which its capture slots are tried, and what is emitted for a match.
use crate::capture::Capture;
use crate::text::{starts_with, to_chars, uppercase, uppercase_of};
use vstd::prelude::*;

verus! {

/// The template families that the normalizer expands.
#[derive(Clone, Copy, Debug, PartialEq, Eq, Structural)]
pub enum RuleId {
    /// `{{sbc|text}}`: small capitals.
    SmallCaps,
    /// `{{ci|champion|custom name}}`: reference to a champion.
    ChampionLink,
    /// `[[page|link text]]`: link to a page.
    PageLink,
    /// `[[File:...]]`: embedded image.
    ImageEmbed,
    /// `{{ai|ability|champion|display name}}`: reference to an ability.
    Ability,
    /// `{{RP...}}`: the premium currency.
    Currency,
    /// `{{si|spell}}`: reference to a summoner spell.
    SummonerSpell,
    /// `{{cci|file|link|display name}}` and its spelling variants.
    ChampionIcon,
    /// `{{as|text}}`: short ability reference.
    AbilityShort,
    /// `{{sti|attribute|display name}}`: stat icon.
    StatIcon,
    /// `{{bi|buff|display name}}`: buff icon.
    BuffIcon,
    /// `{{tt|text|hover}}`: tooltip.
    Tooltip,
    /// `{{ui|unit|display name}}`: unit icon.
    UnitIcon,
    /// `{{csl|champion|skin|display name}}`: reference to a skin.
    ChampionSkin,
    /// `{{fi|faction|display name}}`: faction icon.
    FactionIcon,
}

/// What a rule emits in place of a match.
#[derive(Clone, Copy, Debug, PartialEq, Eq, Structural)]
pub enum OutputPolicy {
    /// The text of the chosen slot.
    Slot,
    /// The text of the chosen slot, in upper case.
    SlotUppercase,
    /// A fixed text, whatever was captured.
    Literal,
    /// A single space: the match is deleted.
    Delete,
}

/// The regular expression of a rule.
pub open spec fn pattern_text(rule: RuleId) -> Seq<char> {
    match rule {
        RuleId::SmallCaps => r"\{\{sbc\|([^}]+)\}\}"@,
        RuleId::ChampionLink => r"\{\{ci\|(?P<champion>[^}|]+)(?:\|(?P<custom_name>[^}]+))?\}\}"@,
        RuleId::PageLink => r"\[\[(?P<page>[^]|]+)(?:\|(?P<link_text>[^]]+))?]]"@,
        RuleId::ImageEmbed => r" ?\[\[File:[^\[]+\]\] ?"@,
        RuleId::Ability => r"\{\{ai\|(?P<ability>[^}|]+)(?:\|(?P<champion>[^}|]+))?(?:\|(?P<display_name>[^}]+))?\}\}"@,
        RuleId::Currency => r"\{\{RP([^}]*)\}\}"@,
        RuleId::SummonerSpell => r"\{\{si\|([^}]+)\}\}"@,
        RuleId::ChampionIcon => r"\{\{[cC]cib?\|(?P<file>[^}|]+)\|(?P<link>[^}|]+)(?:\|(?P<display_name>[^}|]+))?\}\}"@,
        RuleId::AbilityShort => r"\{\{[Aa]s\|([^}|]+)\}\}"@,
        RuleId::StatIcon => r"\{\{sti\|(?P<attribute>[^}|]+)(?:\|(?P<display_name>[^}|]+))?\}\}"@,
        RuleId::BuffIcon => r"\{\{bi\|(?P<buff>[^}|]+)(?:\|(?P<display_name>[^}|]+))?\}\}"@,
        RuleId::Tooltip => r"\{\{tt\|(?P<text>[^}|]+)\|(?P<hover>[^}|]+)\}\}"@,
        RuleId::UnitIcon => r"\{\{ui\|(?P<unit>[^}|]+)(?:\|(?P<display_name>[^}|]+))?\}\}"@,
        RuleId::ChampionSkin => r"\{\{csl\|(?P<champ>[^}|]+)(?:\|(?P<skin>[^}|]+))?(?:\|(?P<display_name>[^}|]+))?\}\}"@,
        RuleId::FactionIcon => r"\{\{fi\|(?P<faction>[^}|]+)(?:\|(?P<display_name>[^}|]+))?\}\}"@,
    }
}

/// Whether `^` and `$` of the rule's pattern match at line boundaries.
pub open spec fn is_multi_line(rule: RuleId) -> bool {
    rule == RuleId::SmallCaps || rule == RuleId::ChampionLink
}

/// The capture groups of a rule in the order in which they are tried: the
/// first that took part in the match gives the text.
pub open spec fn fallback_slots(rule: RuleId) -> Seq<int> {
    match rule {
        RuleId::SmallCaps => seq![1],
        RuleId::ChampionLink => seq![2, 1],
        RuleId::PageLink => seq![2, 1],
        RuleId::ImageEmbed => seq![],
        RuleId::Ability => seq![3, 1],
        RuleId::Currency => seq![],
        RuleId::SummonerSpell => seq![1],
        RuleId::ChampionIcon => seq![3, 2],
        RuleId::AbilityShort => seq![1],
        RuleId::StatIcon => seq![2, 1],
        RuleId::BuffIcon => seq![2, 1],
        RuleId::Tooltip => seq![1],
        RuleId::UnitIcon => seq![2, 1],
        RuleId::ChampionSkin => seq![3, 2, 1],
        RuleId::FactionIcon => seq![2, 1],
    }
}

/// The output policy of a rule.
pub open spec fn policy_of(rule: RuleId) -> OutputPolicy {
    match rule {
        RuleId::SmallCaps => OutputPolicy::SlotUppercase,
        RuleId::ImageEmbed => OutputPolicy::Delete,
        RuleId::Currency => OutputPolicy::Literal,
        _ => OutputPolicy::Slot,
    }
}

/// The text that a rule with the policy `Literal` emits.
pub open spec fn literal_text(rule: RuleId) -> Seq<char> {
    "RP"@
}

/// The text of the first slot of `slots` that took part in the match.
pub open spec fn first_present(groups: Seq<Option<Seq<char>>>, slots: Seq<int>) -> Option<
    Seq<char>,
>
    decreases slots.len(),
{
    if slots.len() == 0 {
        None
    } else if 0 <= slots[0] < groups.len() && groups[slots[0]] is Some {
        groups[slots[0]]
    } else {
        first_present(groups, slots.skip(1))
    }
}

/// The text of the whole match; empty where the capture lacks it.
pub open spec fn whole_match(groups: Seq<Option<Seq<char>>>) -> Seq<char> {
    if groups.len() > 0 && groups[0] is Some {
        groups[0]->0
    } else {
        Seq::empty()
    }
}

/// A link whose target page begins with `File:` points at a media file and
/// is no display link: such a match is exempt from its rule.
pub open spec fn is_exempt(rule: RuleId, groups: Seq<Option<Seq<char>>>) -> bool {
    rule == RuleId::PageLink && groups.len() > 1 && groups[1] is Some && "File:"@.is_prefix_of(
        groups[1]->0,
    )
}

/// What `rule` emits for a match with the given group texts.
///
/// An exempt match is emitted as it stands. Under the slot policies the first
/// slot in fallback order that took part gives the text; a match in which
/// none took part is emitted as it stands.
pub open spec fn replacement(rule: RuleId, groups: Seq<Option<Seq<char>>>) -> Seq<char> {
    if is_exempt(rule, groups) {
        whole_match(groups)
    } else {
        match policy_of(rule) {
            OutputPolicy::Delete => " "@,
            OutputPolicy::Literal => literal_text(rule),
            OutputPolicy::Slot => match first_present(groups, fallback_slots(rule)) {
                Some(t) => t,
                None => whole_match(groups),
            },
            OutputPolicy::SlotUppercase => match first_present(groups, fallback_slots(rule)) {
                Some(t) => uppercase_of(t),
                None => whole_match(groups),
            },
        }
    }
}

/// The regular expression of a rule.
pub fn pattern(rule: RuleId) -> (p: &'static str)
    ensures
        p@ == pattern_text(rule),
{
    match rule {
        RuleId::SmallCaps => r"\{\{sbc\|([^}]+)\}\}",
        RuleId::ChampionLink => r"\{\{ci\|(?P<champion>[^}|]+)(?:\|(?P<custom_name>[^}]+))?\}\}",
        RuleId::PageLink => r"\[\[(?P<page>[^]|]+)(?:\|(?P<link_text>[^]]+))?]]",
        RuleId::ImageEmbed => r" ?\[\[File:[^\[]+\]\] ?",
        RuleId::Ability => r"\{\{ai\|(?P<ability>[^}|]+)(?:\|(?P<champion>[^}|]+))?(?:\|(?P<display_name>[^}]+))?\}\}",
        RuleId::Currency => r"\{\{RP([^}]*)\}\}",
        RuleId::SummonerSpell => r"\{\{si\|([^}]+)\}\}",
        RuleId::ChampionIcon => r"\{\{[cC]cib?\|(?P<file>[^}|]+)\|(?P<link>[^}|]+)(?:\|(?P<display_name>[^}|]+))?\}\}",
        RuleId::AbilityShort => r"\{\{[Aa]s\|([^}|]+)\}\}",
        RuleId::StatIcon => r"\{\{sti\|(?P<attribute>[^}|]+)(?:\|(?P<display_name>[^}|]+))?\}\}",
        RuleId::BuffIcon => r"\{\{bi\|(?P<buff>[^}|]+)(?:\|(?P<display_name>[^}|]+))?\}\}",
        RuleId::Tooltip => r"\{\{tt\|(?P<text>[^}|]+)\|(?P<hover>[^}|]+)\}\}",
        RuleId::UnitIcon => r"\{\{ui\|(?P<unit>[^}|]+)(?:\|(?P<display_name>[^}|]+))?\}\}",
        RuleId::ChampionSkin => r"\{\{csl\|(?P<champ>[^}|]+)(?:\|(?P<skin>[^}|]+))?(?:\|(?P<display_name>[^}|]+))?\}\}",
        RuleId::FactionIcon => r"\{\{fi\|(?P<faction>[^}|]+)(?:\|(?P<display_name>[^}|]+))?\}\}",
    }
}

/// Whether the rule's pattern is compiled in multi-line mode.
pub fn multi_line(rule: RuleId) -> (b: bool)
    ensures
        b == is_multi_line(rule),
{
    match rule {
        RuleId::SmallCaps => true,
        RuleId::ChampionLink => true,
        _ => false,
    }
}

/// The capture groups of a rule in the order in which they are tried.
pub fn fallback(rule: RuleId) -> (slots: Vec<usize>)
    ensures
        slots@.len() == fallback_slots(rule).len(),
        forall|i: int| 0 <= i < slots@.len() ==> slots@[i] as int == fallback_slots(rule)[i],
{
    match rule {
        RuleId::SmallCaps => vec![1],
        RuleId::ChampionLink => vec![2, 1],
        RuleId::PageLink => vec![2, 1],
        RuleId::ImageEmbed => Vec::new(),
        RuleId::Ability => vec![3, 1],
        RuleId::Currency => Vec::new(),
        RuleId::SummonerSpell => vec![1],
        RuleId::ChampionIcon => vec![3, 2],
        RuleId::AbilityShort => vec![1],
        RuleId::StatIcon => vec![2, 1],
        RuleId::BuffIcon => vec![2, 1],
        RuleId::Tooltip => vec![1],
        RuleId::UnitIcon => vec![2, 1],
        RuleId::ChampionSkin => vec![3, 2, 1],
        RuleId::FactionIcon => vec![2, 1],
    }
}

/// The output policy of a rule.
pub fn policy(rule: RuleId) -> (p: OutputPolicy)
    ensures
        p == policy_of(rule),
{
    match rule {
        RuleId::SmallCaps => OutputPolicy::SlotUppercase,
        RuleId::ImageEmbed => OutputPolicy::Delete,
        RuleId::Currency => OutputPolicy::Literal,
        _ => OutputPolicy::Slot,
    }
}

/// The text of group `j` of a capture, if the capture has it.
pub fn group<'a>(cap: &'a Capture, j: usize) -> (g: Option<&'a String>)
    ensures
        g is Some <==> j < cap@.len() && cap@[j as int] is Some,
        g is Some ==> g->0@ == cap@[j as int]->0,
{
    if j < cap.groups.len() {
        match &cap.groups[j] {
            Some(s) => Some(s),
            None => None,
        }
    } else {
        None
    }
}

/// The text of the first slot, in the rule's fallback order, that took part
/// in the match.
pub fn chosen_slot<'a>(rule: RuleId, cap: &'a Capture) -> (g: Option<&'a String>)
    ensures
        g is Some <==> first_present(cap@, fallback_slots(rule)) is Some,
        g is Some ==> g->0@ == first_present(cap@, fallback_slots(rule))->0,
{
    let slots = fallback(rule);
    let ghost all = fallback_slots(rule);
    let mut i: usize = 0;
    assert(all.skip(0) =~= all);
    while i < slots.len()
        invariant
            i <= slots.len(),
            all == fallback_slots(rule),
            slots@.len() == all.len(),
            forall|k: int| 0 <= k < slots@.len() ==> slots@[k] as int == all[k],
            first_present(cap@, all) == first_present(cap@, all.skip(i as int)),
        decreases slots.len() - i,
    {
        let g = group(cap, slots[i]);
        assert(all.skip(i as int)[0] == slots@[i as int] as int);
        if g.is_some() {
            return g;
        }
        assert(all.skip(i as int).skip(1) =~= all.skip(i + 1));
        i += 1;
    }
    None
}

/// What `rule` emits for one match.
pub fn rule_output(rule: RuleId, cap: &Capture) -> (out: String)
    ensures
        out@ == replacement(rule, cap@),
{
    let whole = match group(cap, 0) {
        Some(s) => s.clone(),
        None => String::new(),
    };
    if rule == RuleId::PageLink {
        if let Some(page) = group(cap, 1) {
            let prefix = to_chars("File:");
            let target = to_chars(page.as_str());
            if starts_with(&target, &prefix) {
                return whole;
            }
        }
    }
    match policy(rule) {
        OutputPolicy::Delete => " ".to_string(),
        OutputPolicy::Literal => "RP".to_string(),
        OutputPolicy::Slot => match chosen_slot(rule, cap) {
            Some(s) => s.clone(),
            None => whole,
        },
        OutputPolicy::SlotUppercase => match chosen_slot(rule, cap) {
            Some(s) => uppercase(s.as_str()),
            None => whole,
        },
    }
}

/// Fallback order: under a slot policy, the slot that stands at place `i` of
/// the rule's fallback order gives the text whenever it took part in the
/// match and no slot before it did. With `i == 0` this says that a display
/// name, where present, is what is emitted; with `i > 0`, what is emitted
/// in its absence.
pub proof fn lemma_fallback_order(rule: RuleId, groups: Seq<Option<Seq<char>>>, i: int)
    requires
        policy_of(rule) == OutputPolicy::Slot,
        !is_exempt(rule, groups),
        0 <= i < fallback_slots(rule).len(),
        fallback_slots(rule)[i] < groups.len(),
        groups[fallback_slots(rule)[i]] is Some,
        forall|k: int|
            0 <= k < i ==> !(fallback_slots(rule)[k] < groups.len()
                && groups[fallback_slots(rule)[k]] is Some),
    ensures
        replacement(rule, groups) == groups[fallback_slots(rule)[i]]->0,
{
    lemma_first_present(groups, fallback_slots(rule), i);
}

/// The first slot that took part, with none before it, is the one chosen.
pub proof fn lemma_first_present(groups: Seq<Option<Seq<char>>>, slots: Seq<int>, i: int)
    requires
        0 <= i < slots.len(),
        forall|k: int| 0 <= k < slots.len() ==> slots[k] >= 0,
        slots[i] < groups.len(),
        groups[slots[i]] is Some,
        forall|k: int| 0 <= k < i ==> !(slots[k] < groups.len() && groups[slots[k]] is Some),
    ensures
        first_present(groups, slots) == groups[slots[i]],
    decreases i,
{
    if i > 0 {
        let rest = slots.skip(1);
        assert(rest[i - 1] == slots[i]);
        assert forall|k: int| 0 <= k < i - 1 implies !(rest[k] < groups.len()
            && groups[rest[k]] is Some) by {
            assert(rest[k] == slots[k + 1]);
        }
        lemma_first_present(groups, rest, i - 1);
    }
}

/// Small capitals: the captured text is emitted in upper case.
pub proof fn lemma_small_caps_uppercase(groups: Seq<Option<Seq<char>>>)
    requires
        groups.len() > 1,
        groups[1] is Some,
    ensures
        replacement(RuleId::SmallCaps, groups) == uppercase_of(groups[1]->0),
{
    lemma_first_present(groups, fallback_slots(RuleId::SmallCaps), 0);
}

/// A link whose target begins with `File:` is emitted exactly as it was
/// matched, whether or not it has a link text.
pub proof fn lemma_file_link_kept(groups: Seq<Option<Seq<char>>>)
    requires
        groups.len() > 1,
        groups[0] is Some,
        groups[1] is Some,
        "File:"@.is_prefix_of(groups[1]->0),
    ensures
        replacement(RuleId::PageLink, groups) == groups[0]->0,
{
}

/// An embedded image gives way to exactly one space, whatever it captured.
pub proof fn lemma_image_deleted(groups: Seq<Option<Seq<char>>>)
    ensures
        replacement(RuleId::ImageEmbed, groups) == seq![' '],
{
    reveal_strlit(" ");
    assert(" "@ =~= seq![' ']);
}

/// The currency template gives way to the letters `RP`, whatever its
/// parameters.
pub proof fn lemma_currency_literal(groups: Seq<Option<Seq<char>>>)
    ensures
        replacement(RuleId::Currency, groups) == seq!['R', 'P'],
{
    reveal_strlit("RP");
    assert("RP"@ =~= seq!['R', 'P']);
}

} // verus!
