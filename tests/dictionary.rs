use umod::adapter::{flatten_tokens, TokenContent, TokenizeItem};
use umod::dictionary::{UmodGrammar, UmodSense, YomitanTag};
use umod::extract::{extract_priority_and_tags, is_shown_tag, merge_senses, normalize_pos, same_text};
use umod::mediator::{AppMediator, OCROverlayState, WindowPresenter};

fn sense(number: usize, glosses: &[&str]) -> UmodSense {
    UmodSense { number, glosses: glosses.iter().map(|g| g.to_string()).collect() }
}

fn tag(name: &str) -> YomitanTag {
    YomitanTag { name: name.to_string() }
}

#[test]
fn grammar_merge_keeps_first_transitivity() {
    let mut g = UmodGrammar::default();
    assert_eq!(g.transitivity, None);
    assert!(!g.kana_only);
    g.merge(UmodGrammar { transitivity: Some("transitive".to_string()), kana_only: false });
    assert_eq!(g.transitivity.as_deref(), Some("transitive"));
    g.merge(UmodGrammar { transitivity: Some("intransitive".to_string()), kana_only: true });
    assert_eq!(g.transitivity.as_deref(), Some("transitive"));
    assert!(g.kana_only);
    g.merge(UmodGrammar::default());
    assert!(g.kana_only);
}

#[test]
fn merge_senses_groups_sorts_and_dedups() {
    let a = vec![sense(3, &["z"]), sense(1, &["x", "y", "x"])];
    let b = vec![sense(1, &["y", "w"]), sense(2, &["q"])];
    let merged = merge_senses(a, b);
    assert_eq!(merged, vec![sense(1, &["x", "y", "w"]), sense(2, &["q"]), sense(3, &["z"])]);
}

#[test]
fn merge_senses_of_empty_lists() {
    assert!(merge_senses(Vec::new(), Vec::new()).is_empty());
    let only_b = merge_senses(Vec::new(), vec![sense(4, &["a", "a"])]);
    assert_eq!(only_b, vec![sense(4, &["a"])]);
}

#[test]
fn priority_and_tags_are_extracted() {
    let tags = vec![tag("\u{2605}"), tag(" \u{2605} "), tag("priority-high"), tag("common")];
    let (priority, shown) = extract_priority_and_tags(&tags);
    assert!(priority);
    assert_eq!(shown, vec!["\u{2605}".to_string(), " \u{2605} ".to_string(), "priority-high".to_string()]);
}

#[test]
fn no_priority_without_mention() {
    let tags = vec![tag("\u{2605}"), tag("news")];
    let (priority, shown) = extract_priority_and_tags(&tags);
    assert!(!priority);
    assert_eq!(shown, vec!["\u{2605}".to_string()]);
    let (p, s) = extract_priority_and_tags(&[]);
    assert!(!p);
    assert!(s.is_empty());
}

#[test]
fn shown_tag_test_uses_trimmed_name() {
    assert!(is_shown_tag(" \u{2605}", "\u{2605}"));
    assert!(!is_shown_tag(" \u{2605}", " \u{2605}"));
    assert!(is_shown_tag("top-priority", "top-priority"));
}

#[test]
fn pos_codes_are_normalized() {
    assert_eq!(normalize_pos("n"), Some("noun"));
    assert_eq!(normalize_pos("pn"), Some("noun"));
    assert_eq!(normalize_pos("v1"), Some("ichidan"));
    assert_eq!(normalize_pos("adj-na"), Some("na-adjective"));
    assert_eq!(normalize_pos("adj-no"), Some("na-adjective"));
    assert_eq!(normalize_pos("ctr"), Some("counter"));
    assert_eq!(normalize_pos("vt"), None);
    assert_eq!(normalize_pos(""), None);
}

#[test]
fn texts_compare_by_characters() {
    assert!(same_text("abc", "abc"));
    assert!(!same_text("abc", "abd"));
    assert!(!same_text("ab", "abc"));
    assert!(same_text("", ""));
}

#[test]
fn tokens_are_flattened_from_first_parse() {
    let piece = |t: &str| TokenContent { text: t.to_string(), reading: String::new() };
    let item = TokenizeItem {
        id: "scan".to_string(),
        source: "scanning-parser".to_string(),
        dictionary: None,
        content: vec![vec![piece("分"), piece("かる")], vec![piece("よ")]],
    };
    let other = TokenizeItem {
        id: "other".to_string(),
        source: "mecab".to_string(),
        dictionary: None,
        content: vec![vec![piece("x")]],
    };
    let flat = flatten_tokens(&vec![item, other]);
    let terms: Vec<&str> = flat.tokens.iter().map(|t| t.term.as_str()).collect();
    assert_eq!(terms, vec!["分かる", "よ"]);
    assert!(flatten_tokens(&Vec::new()).tokens.is_empty());
}

#[test]
fn coordinators_construct() {
    let m = AppMediator::new();
    m.open_dictionary_ui();
    assert_eq!(m, AppMediator {});
    assert_eq!(WindowPresenter::new(), WindowPresenter {});
    assert_eq!(OCROverlayState::default().text, "");
}
