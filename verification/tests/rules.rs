use lol_quotes::capture::Capture;
use lol_quotes::rules::{
    chosen_slot, fallback, group, multi_line, pattern, policy, rule_output, OutputPolicy, RuleId,
};

fn capture(groups: Vec<Option<&str>>) -> Capture {
    Capture { groups: groups.into_iter().map(|g| g.map(String::from)).collect() }
}

#[test]
fn display_name_wins_when_present() {
    let cap = capture(vec![Some("{{sti|armor|plating}}"), Some("armor"), Some("plating")]);
    assert_eq!(rule_output(RuleId::StatIcon, &cap), "plating");
}

#[test]
fn primary_slot_is_the_fallback() {
    let cap = capture(vec![Some("{{sti|armor}}"), Some("armor"), None]);
    assert_eq!(rule_output(RuleId::StatIcon, &cap), "armor");
}

#[test]
fn skin_fallback_has_three_levels() {
    let all = capture(vec![Some("m"), Some("champ"), Some("skin"), Some("shown")]);
    let two = capture(vec![Some("m"), Some("champ"), Some("skin"), None]);
    let one = capture(vec![Some("m"), Some("champ"), None, None]);
    assert_eq!(rule_output(RuleId::ChampionSkin, &all), "shown");
    assert_eq!(rule_output(RuleId::ChampionSkin, &two), "skin");
    assert_eq!(rule_output(RuleId::ChampionSkin, &one), "champ");
}

#[test]
fn ability_skips_the_champion_slot() {
    let cap = capture(vec![Some("m"), Some("Q"), Some("Ahri"), None]);
    assert_eq!(rule_output(RuleId::Ability, &cap), "Q");
}

#[test]
fn champion_icon_never_emits_the_file() {
    let cap = capture(vec![Some("m"), Some("file.png"), Some("link"), None]);
    assert_eq!(rule_output(RuleId::ChampionIcon, &cap), "link");
}

#[test]
fn file_link_is_emitted_as_matched() {
    let cap = capture(vec![Some("[[File:a.png|thumb]]"), Some("File:a.png"), Some("thumb")]);
    assert_eq!(rule_output(RuleId::PageLink, &cap), "[[File:a.png|thumb]]");
    let bare = capture(vec![Some("[[File:a.png]]"), Some("File:a.png"), None]);
    assert_eq!(rule_output(RuleId::PageLink, &bare), "[[File:a.png]]");
}

#[test]
fn file_prefix_is_case_sensitive_and_anchored() {
    let lower = capture(vec![Some("[[file:a.png|x]]"), Some("file:a.png"), Some("x")]);
    assert_eq!(rule_output(RuleId::PageLink, &lower), "x");
    let inner = capture(vec![Some("[[A File:a|x]]"), Some("A File:a"), Some("x")]);
    assert_eq!(rule_output(RuleId::PageLink, &inner), "x");
    let short = capture(vec![Some("[[File]]"), Some("File"), None]);
    assert_eq!(rule_output(RuleId::PageLink, &short), "File");
}

#[test]
fn image_and_currency_ignore_what_was_captured() {
    let cap = capture(vec![Some(" [[File:a.png]] ")]);
    assert_eq!(rule_output(RuleId::ImageEmbed, &cap), " ");
    let cap = capture(vec![Some("{{RP|975}}"), Some("|975")]);
    assert_eq!(rule_output(RuleId::Currency, &cap), "RP");
}

#[test]
fn small_caps_uppercase_the_slot() {
    let cap = capture(vec![Some("{{sbc|hello}}"), Some("hello")]);
    assert_eq!(rule_output(RuleId::SmallCaps, &cap), "HELLO");
}

#[test]
fn a_match_without_any_slot_is_emitted_as_matched() {
    let cap = capture(vec![Some("{{fi|}}"), None, None]);
    assert_eq!(rule_output(RuleId::FactionIcon, &cap), "{{fi|}}");
    let empty = capture(vec![]);
    assert_eq!(rule_output(RuleId::FactionIcon, &empty), "");
    let caps = capture(vec![Some("{{sbc|}}")]);
    assert_eq!(rule_output(RuleId::SmallCaps, &caps), "{{sbc|}}");
}

#[test]
fn group_reads_only_what_took_part() {
    let cap = capture(vec![Some("m"), None, Some("x")]);
    assert_eq!(group(&cap, 0).map(|s| s.as_str()), Some("m"));
    assert_eq!(group(&cap, 1), None);
    assert_eq!(group(&cap, 2).map(|s| s.as_str()), Some("x"));
    assert_eq!(group(&cap, 3), None);
}

#[test]
fn chosen_slot_follows_the_fallback_order() {
    let cap = capture(vec![Some("m"), Some("a"), Some("b")]);
    assert_eq!(chosen_slot(RuleId::UnitIcon, &cap).map(|s| s.as_str()), Some("b"));
    assert_eq!(chosen_slot(RuleId::Tooltip, &cap).map(|s| s.as_str()), Some("a"));
    assert_eq!(chosen_slot(RuleId::Currency, &cap), None);
}

#[test]
fn tables_agree_with_the_catalog() {
    assert_eq!(fallback(RuleId::ChampionSkin), vec![3, 2, 1]);
    assert_eq!(fallback(RuleId::Ability), vec![3, 1]);
    assert_eq!(fallback(RuleId::ChampionIcon), vec![3, 2]);
    assert_eq!(fallback(RuleId::ImageEmbed), Vec::<usize>::new());
    assert_eq!(policy(RuleId::SmallCaps), OutputPolicy::SlotUppercase);
    assert_eq!(policy(RuleId::ImageEmbed), OutputPolicy::Delete);
    assert_eq!(policy(RuleId::Currency), OutputPolicy::Literal);
    assert_eq!(policy(RuleId::Tooltip), OutputPolicy::Slot);
    assert!(multi_line(RuleId::SmallCaps));
    assert!(multi_line(RuleId::ChampionLink));
    assert!(!multi_line(RuleId::PageLink));
    assert_eq!(pattern(RuleId::Currency), r"\{\{RP([^}]*)\}\}");
}
