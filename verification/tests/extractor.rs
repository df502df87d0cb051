use lol_quotes::capture::Capture;
use lol_quotes::extractor::{
    dialogue_from, extract, extract_dialogue, extract_quotes, is_reserved_name, mark_bold,
    parse_quotes, quote_from, quote_pattern, select_quotes, speaker_pattern, Continuation,
};
use lol_quotes::text::same_chars;

fn capture(groups: Vec<Option<&str>>) -> Capture {
    Capture { groups: groups.into_iter().map(|g| g.map(String::from)).collect() }
}

fn chars(s: &str) -> Vec<char> {
    s.chars().collect()
}

fn spoken(speaker: &str, utterance: &str) -> Capture {
    capture(vec![Some("line"), Some(speaker), Some(utterance)])
}

#[test]
fn quotes_come_in_text_order() {
    let text = "== Attack ==\n* ''\"First!\"''\n* ''\"Second.\"''\nnoise\n* ''\"Third?\"''\n";
    assert_eq!(
        extract_quotes(text),
        Some(vec![String::from("First!"), String::from("Second."), String::from("Third?")])
    );
}

#[test]
fn audio_files_and_stray_text_are_dropped() {
    let text = "''\"Hello there\"''\n''\"Ahri.attack1.ogg\"''\n''\"GG!\"''\n''\"GG! indeed\"''";
    assert_eq!(
        extract_quotes(text),
        Some(vec![String::from("Hello there"), String::from("GG! indeed")])
    );
}

#[test]
fn bold_markers_are_converted() {
    let text = "''\"A '''bold''' move\"''";
    assert_eq!(extract_quotes(text), Some(vec![String::from("A **bold** move")]));
}

#[test]
fn text_without_quotes_gives_an_empty_list() {
    assert_eq!(extract_quotes(""), Some(vec![]));
    assert_eq!(extract_quotes("''no double quotes''"), Some(vec![]));
    assert_eq!(extract_dialogue(""), Some(vec![]));
    assert_eq!(extract_dialogue("Wolf says nothing"), Some(vec![]));
}

#[test]
fn a_quote_does_not_span_lines() {
    assert_eq!(extract_quotes("''\"broken\nquote\"''"), Some(vec![]));
}

#[test]
fn quote_from_filters_one_match() {
    assert_eq!(quote_from(&capture(vec![Some("m"), Some("fine")])), Some(String::from("fine")));
    assert_eq!(quote_from(&capture(vec![Some("m"), Some("a.ogg")])), None);
    assert_eq!(quote_from(&capture(vec![Some("m"), Some("ogg")])), None);
    assert_eq!(quote_from(&capture(vec![Some("m"), Some("doggo")])), None);
    assert_eq!(quote_from(&capture(vec![Some("m"), Some("GG!")])), None);
    assert_eq!(quote_from(&capture(vec![Some("m"), Some("GG")])), Some(String::from("GG")));
    assert_eq!(quote_from(&capture(vec![Some("m"), Some("og g")])), Some(String::from("og g")));
    assert_eq!(quote_from(&capture(vec![Some("m"), None])), None);
    assert_eq!(quote_from(&capture(vec![Some("m")])), None);
    assert_eq!(
        quote_from(&capture(vec![Some("m"), Some("'''x'''")])),
        Some(String::from("**x**"))
    );
}

#[test]
fn select_quotes_keeps_the_order_of_the_matches() {
    let caps = vec![
        capture(vec![Some("m"), Some("one")]),
        capture(vec![Some("m"), Some("two.ogg")]),
        capture(vec![Some("m"), Some("three")]),
        capture(vec![Some("m"), Some("GG!")]),
        capture(vec![Some("m"), Some("four")]),
    ];
    assert_eq!(
        select_quotes(&caps),
        vec![String::from("one"), String::from("three"), String::from("four")]
    );
    assert_eq!(select_quotes(&Vec::new()), Vec::<String>::new());
}

#[test]
fn mark_bold_scans_from_the_left() {
    assert_eq!(mark_bold(&chars("'''a'''")), chars("**a**"));
    assert_eq!(mark_bold(&chars("''''")), chars("**'"));
    assert_eq!(mark_bold(&chars("''''''")), chars("****"));
    assert_eq!(mark_bold(&chars("''")), chars("''"));
    assert_eq!(mark_bold(&chars("")), chars(""));
}

#[test]
fn same_chars_compares_whole_texts() {
    assert!(same_chars(&chars("GG!"), &chars("GG!")));
    assert!(!same_chars(&chars("GG!"), &chars("GG")));
    assert!(!same_chars(&chars("GG"), &chars("GG!")));
    assert!(!same_chars(&chars("GG?"), &chars("GG!")));
    assert!(same_chars(&chars(""), &chars("")));
}

#[test]
fn depths_one_two_three_make_one_entry() {
    let mut state = Continuation::new();
    state.feed(1, &spoken("Wolf", "first"));
    state.feed(2, &spoken("Lamb", "second"));
    state.feed(3, &spoken("Wolf", "third"));
    assert_eq!(
        state.into_entries(),
        vec![String::from("Wolf: first\nLamb: second\nWolf: third")]
    );
}

#[test]
fn depths_one_one_one_make_three_entries() {
    let mut state = Continuation::new();
    state.feed(1, &spoken("Wolf", "first"));
    state.feed(1, &spoken("Lamb", "second"));
    state.feed(1, &spoken("Wolf", "third"));
    assert_eq!(
        state.into_entries(),
        vec![
            String::from("Wolf: first"),
            String::from("Lamb: second"),
            String::from("Wolf: third")
        ]
    );
}

#[test]
fn first_matching_line_at_depth_zero_opens_an_entry() {
    let mut state = Continuation::new();
    assert_eq!(state.last_depth, 1);
    state.feed(0, &spoken("Wolf", "'''howl at the moon'''"));
    assert_eq!(state.last_depth, 0);
    assert_eq!(state.into_entries(), vec![String::from("Wolf: **howl at the moon**")]);
}

#[test]
fn a_deeper_first_line_opens_an_entry_too() {
    let mut state = Continuation::new();
    state.feed(2, &spoken("Lamb", "alone"));
    assert_eq!(state.last_depth, 2);
    assert_eq!(state.into_entries(), vec![String::from("Lamb: alone")]);
}

#[test]
fn a_match_without_utterance_changes_nothing() {
    let mut state = Continuation::new();
    state.feed(1, &spoken("Wolf", "first"));
    state.feed(5, &capture(vec![Some("Wolf: ''''"), Some("Wolf"), None]));
    assert_eq!(state.last_depth, 1);
    state.feed(2, &spoken("Lamb", "second"));
    assert_eq!(state.into_entries(), vec![String::from("Wolf: first\nLamb: second")]);
}

#[test]
fn step_joins_only_one_level_deeper() {
    let mut state = Continuation::new();
    state.step(1, String::from("a"));
    state.step(3, String::from("b"));
    state.step(4, String::from("c"));
    state.step(4, String::from("d"));
    state.step(2, String::from("e"));
    assert_eq!(
        state.into_entries(),
        vec![String::from("a"), String::from("b\nc"), String::from("d"), String::from("e")]
    );
}

#[test]
fn feed_all_uses_one_depth_for_the_whole_line() {
    let mut state = Continuation::new();
    state.feed_all(2, &vec![spoken("Wolf", "a"), spoken("Lamb", "b")]);
    assert_eq!(state.into_entries(), vec![String::from("Wolf: a"), String::from("Lamb: b")]);
}

#[test]
fn dialogue_from_formats_speaker_and_utterance() {
    assert_eq!(dialogue_from(&spoken("Kindred", "we hunt")), Some(String::from("Kindred: we hunt")));
    assert_eq!(dialogue_from(&spoken("Lamb", "'''now'''")), Some(String::from("Lamb: **now**")));
    assert_eq!(dialogue_from(&capture(vec![Some("m"), Some("Lamb")])), None);
    assert_eq!(dialogue_from(&capture(vec![Some("m"), None, Some("x")])), None);
}

#[test]
fn dialogue_is_grouped_by_depth() {
    let text = "* Wolf: ''\"first\"''\n** Lamb: ''\"second\"''\n*** Wolf: ''\"third\"''\n";
    assert_eq!(
        extract_dialogue(text),
        Some(vec![String::from("Wolf: first\nLamb: second\nWolf: third")])
    );
    let text = "* Wolf: ''\"first\"''\n* Lamb: ''\"second\"''\n* Wolf: ''\"third\"''";
    assert_eq!(
        extract_dialogue(text),
        Some(vec![
            String::from("Wolf: first"),
            String::from("Lamb: second"),
            String::from("Wolf: third")
        ])
    );
}

#[test]
fn lines_without_a_speaker_are_skipped() {
    let text = "  * Lamb: ''\"one\"''  \r\n=== heading ===\n\n\t** Wolf: ''two''\n** Ahri: ''no''\n*** Kindred: ''\"three\"''";
    assert_eq!(
        extract_dialogue(text),
        Some(vec![String::from("Lamb: one\nWolf: two\nKindred: three")])
    );
}

#[test]
fn a_line_at_depth_zero_with_quotes() {
    assert_eq!(
        extract_dialogue("Wolf: ''\"howl at the moon\"''"),
        Some(vec![String::from("Wolf: howl at the moon")])
    );
    assert_eq!(
        extract_dialogue("Wolf: ''howl at the '''moon'''!''"),
        Some(vec![String::from("Wolf: howl at the **moon**!")])
    );
}

#[test]
fn an_utterance_cannot_begin_with_a_double_quote_after_a_third_apostrophe() {
    assert_eq!(extract_dialogue("Wolf: '''\"howl at the moon\"'''"), Some(vec![]));
}

#[test]
fn patterns_name_the_three_speakers_and_the_quote_marks() {
    assert_eq!(quote_pattern(), "''\"(.*)\"''");
    assert_eq!(speaker_pattern(), "(Wolf|Lamb|Kindred): ''(?:\")?([^\"]+)?(?:\")?''");
}

#[test]
fn strategy_is_chosen_by_exact_name() {
    assert!(is_reserved_name("Kindred"));
    assert!(!is_reserved_name("kindred"));
    assert!(!is_reserved_name("Kindred "));
    assert!(!is_reserved_name(""));
    let text = "* Wolf: ''\"first\"''\n** Lamb: ''\"second\"''";
    assert_eq!(extract(text, "Kindred"), Some(vec![String::from("Wolf: first\nLamb: second")]));
    assert_eq!(
        extract(text, "Ahri"),
        Some(vec![String::from("first"), String::from("second")])
    );
}

#[test]
fn raw_markup_is_normalized_before_extraction() {
    let text = String::from("* ''\"{{sbc|hello}} [[world|there]], {{ci|Ahri}}[[File:x.png]]!\"''");
    assert_eq!(parse_quotes(text, "Ahri"), Some(vec![String::from("HELLO there, Ahri !")]));
    let text = String::from("* Lamb: ''\"{{ai|Dance|Kindred|Dance of Arrows}}\"''\n** Wolf: ''\"{{RP|1}}\"''");
    assert_eq!(
        parse_quotes(text, "Kindred"),
        Some(vec![String::from("Lamb: Dance of Arrows\nWolf: RP")])
    );
    assert_eq!(parse_quotes(String::new(), "Kindred"), Some(vec![]));
    assert_eq!(parse_quotes(String::new(), "Ahri"), Some(vec![]));
}

#[test]
fn same_input_gives_the_same_list() {
    let text = "''\"one\"''\n''\"two\"''";
    assert_eq!(
        parse_quotes(String::from(text), "Ahri"),
        parse_quotes(String::from(text), "Ahri")
    );
}
