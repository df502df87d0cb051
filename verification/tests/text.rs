use lol_quotes::ddragon::{icon_url, wiki_url, ChampionExport, QuoteExport};
use lol_quotes::text::{
    append_chars, contains, from_chars, leading_count, line_at, matches_at, replace, slice_chars,
    starts_with, to_chars, trim,
};

fn chars(s: &str) -> Vec<char> {
    s.chars().collect()
}

#[test]
fn chars_round_trip() {
    assert_eq!(to_chars("aé\n"), vec!['a', 'é', '\n']);
    assert_eq!(from_chars(&vec!['a', 'é', '\n']), "aé\n");
    assert_eq!(to_chars(""), Vec::<char>::new());
}

#[test]
fn matches_at_checks_bounds() {
    assert!(matches_at(&chars("abcabc"), &chars("bc"), 1));
    assert!(matches_at(&chars("abcabc"), &chars("bc"), 4));
    assert!(!matches_at(&chars("abcabc"), &chars("bc"), 5));
    assert!(!matches_at(&chars("abcabc"), &chars("bc"), 0));
    assert!(!matches_at(&chars("ab"), &chars("abc"), 0));
    assert!(matches_at(&chars("ab"), &chars(""), 2));
    assert!(!matches_at(&chars("ab"), &chars(""), 3));
}

#[test]
fn starts_with_and_contains() {
    assert!(starts_with(&chars("File:x"), &chars("File:")));
    assert!(!starts_with(&chars("file:x"), &chars("File:")));
    assert!(!starts_with(&chars("Fil"), &chars("File:")));
    assert!(contains(&chars("sound.ogg"), &chars("ogg")));
    assert!(contains(&chars("ogg"), &chars("ogg")));
    assert!(!contains(&chars("og"), &chars("ogg")));
    assert!(!contains(&chars("o g g"), &chars("ogg")));
    assert!(contains(&chars(""), &chars("")));
}

#[test]
fn replace_resumes_after_each_occurrence() {
    assert_eq!(replace(&chars("aaaa"), &chars("aa"), &chars("b")), chars("bb"));
    assert_eq!(replace(&chars("aaa"), &chars("aa"), &chars("b")), chars("ba"));
    assert_eq!(replace(&chars("a b c"), &chars(" "), &chars("_")), chars("a_b_c"));
    assert_eq!(replace(&chars("abc"), &chars(""), &chars("x")), chars("abc"));
    assert_eq!(replace(&chars("abc"), &chars("abcd"), &chars("x")), chars("abc"));
}

#[test]
fn trim_removes_whitespace_at_both_ends() {
    assert_eq!(trim(&chars("  \t a b \r\n")), chars("a b"));
    assert_eq!(trim(&chars("a")), chars("a"));
    assert_eq!(trim(&chars(" \u{a0}\u{3000} ")), chars(""));
    assert_eq!(trim(&chars("")), chars(""));
}

#[test]
fn leading_count_counts_the_first_run_only() {
    assert_eq!(leading_count(&chars("*** a *"), '*'), 3);
    assert_eq!(leading_count(&chars(" ***"), '*'), 0);
    assert_eq!(leading_count(&chars("**"), '*'), 2);
    assert_eq!(leading_count(&chars(""), '*'), 0);
}

#[test]
fn line_at_walks_the_lines() {
    let text = chars("one\r\ntwo\n\nfour\r");
    assert_eq!(line_at(&text, 0), (chars("one"), 5));
    assert_eq!(line_at(&text, 5), (chars("two"), 9));
    assert_eq!(line_at(&text, 9), (chars(""), 10));
    assert_eq!(line_at(&text, 10), (chars("four\r"), 15));
    let ended = chars("a\n");
    assert_eq!(line_at(&ended, 0), (chars("a"), 2));
}

#[test]
fn slices_and_appends() {
    assert_eq!(slice_chars(&chars("abcdef"), 1, 4), chars("bcd"));
    assert_eq!(slice_chars(&chars("abcdef"), 3, 3), chars(""));
    let mut out = chars("ab");
    append_chars(&mut out, &chars("cd"));
    assert_eq!(out, chars("abcd"));
}

#[test]
fn page_name_avoids_ampersands() {
    let nunu = ChampionExport {
        name: String::from("Nunu & Willump"),
        id: String::from("Nunu"),
        icon: String::from("Nunu.png"),
    };
    assert_eq!(nunu.page_name(), "Nunu");
    let ahri = ChampionExport {
        name: String::from("Ahri"),
        id: String::from("AhriId"),
        icon: String::from("Ahri.png"),
    };
    assert_eq!(ahri.page_name(), "Ahri");
}

#[test]
fn wiki_url_replaces_spaces() {
    assert_eq!(
        wiki_url("Miss Fortune"),
        "https://leagueoflegends.fandom.com/wiki/Miss_Fortune/LoL/Audio?action=raw"
    );
    assert_eq!(
        wiki_url("Ahri"),
        "https://leagueoflegends.fandom.com/wiki/Ahri/LoL/Audio?action=raw"
    );
}

#[test]
fn icon_url_names_version_and_file() {
    assert_eq!(
        icon_url("12.1.1", "Ahri.png"),
        "https://ddragon.leagueoflegends.com/cdn/12.1.1/img/champion/Ahri.png"
    );
}

#[test]
fn quote_export_holds_quotes_and_icon() {
    let export = QuoteExport { quotes: vec![String::from("q")], icon: String::from("i") };
    assert_eq!(export.quotes.len(), 1);
    assert_eq!(export.icon, "i");
}
