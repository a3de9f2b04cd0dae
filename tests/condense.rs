use umod::condense::condense_term_entries;
use umod::dictionary::{UmodSense, YomitanFrequency, YomitanHeadword, YomitanTag};
use umod::json::{JsonDoc, JsonKind, JsonMember, JsonNode};
use umod::yomitan::{
    extract_grammar_from_entry, extract_pos_from_entry, extract_senses_from_entry,
    extract_variants_from_entry, YomitanDefinition, YomitanDictionaryEntry, YomitanEntry,
    YomitanTermEntriesResponse,
};

enum J {
    S(&'static str),
    N(&'static str),
    A(Vec<J>),
    O(Vec<(&'static str, J)>),
}

fn lay(j: &J, nodes: &mut Vec<JsonNode>) -> usize {
    let (kind, text) = match j {
        J::S(s) => (JsonKind::Str, s.to_string()),
        J::N(n) => (JsonKind::Number, n.to_string()),
        J::A(_) => (JsonKind::Array, String::new()),
        J::O(_) => (JsonKind::Object, String::new()),
    };
    let idx = nodes.len();
    nodes.push(JsonNode { kind, text, members: Vec::new(), end: idx + 1 });
    match j {
        J::O(ms) => {
            let mut members = Vec::new();
            for (k, v) in ms {
                let value = lay(v, nodes);
                members.push(JsonMember { key: k.to_string(), value });
            }
            nodes[idx].members = members;
        }
        J::A(items) => {
            for v in items {
                lay(v, nodes);
            }
        }
        _ => {}
    }
    nodes[idx].end = nodes.len();
    idx
}

fn doc(j: J) -> JsonDoc {
    let mut nodes = Vec::new();
    lay(&j, &mut nodes);
    JsonDoc { nodes }
}

fn span(code: &'static str) -> J {
    J::O(vec![("data", J::O(vec![("code", J::S(code))])), ("tag", J::S("span"))])
}

fn li(text: &'static str) -> J {
    J::O(vec![("content", J::S(text)), ("tag", J::S("li"))])
}

fn section(kind: &'static str, items: Vec<J>) -> J {
    J::O(vec![
        ("content", J::A(items)),
        ("data", J::O(vec![("content", J::S(kind))])),
        ("tag", J::S("ul")),
    ])
}

fn sense(number: &'static str, items: Vec<J>) -> J {
    J::O(vec![
        ("content", section("glossary", items)),
        ("data", J::O(vec![("sense-number", J::S(number))])),
        ("tag", J::S("div")),
    ])
}

fn structured(content: J) -> YomitanEntry {
    YomitanEntry::Structured { entry_type: "structured-content".to_string(), content: doc(content) }
}

fn sample_entry() -> YomitanEntry {
    structured(J::O(vec![
        (
            "content",
            J::A(vec![
                span("v5"),
                span("vt"),
                span("n"),
                span("uk"),
                sense("2", vec![li("to understand"), li("to understand"), li("to know")]),
                sense("1", vec![li("to be clear")]),
                section("forms", vec![li("分る"), li("解る")]),
            ]),
        ),
        ("tag", J::S("div")),
    ]))
}

fn senses_of(v: &[UmodSense]) -> Vec<(usize, Vec<&str>)> {
    v.iter().map(|s| (s.number, s.glosses.iter().map(|g| g.as_str()).collect())).collect()
}

#[test]
fn json_members_are_looked_up_by_key() {
    let d = doc(J::O(vec![
        ("data", J::O(vec![("code", J::S("vi")), ("n", J::N("3"))])),
        ("tag", J::S("span")),
    ]));
    assert_eq!(d.member(0, "tag"), Some(4));
    assert_eq!(d.str_member(0, "tag"), Some("span"));
    assert_eq!(d.data_str(0, "code"), Some("vi"));
    assert_eq!(d.data_str(0, "n"), None);
    assert_eq!(d.member(0, "missing"), None);
    assert_eq!(d.member(2, "tag"), None);
    assert_eq!(d.subtree_end(0), 5);
    assert_eq!(d.subtree_end(1), 4);
}

#[test]
fn parts_of_speech_are_sorted_and_grammar_codes_skipped() {
    assert_eq!(extract_pos_from_entry(&sample_entry()), vec!["godan", "noun"]);
    assert!(extract_pos_from_entry(&YomitanEntry::PlainText("x".to_string())).is_empty());
}

#[test]
fn grammar_flags_are_read() {
    let g = extract_grammar_from_entry(&sample_entry());
    assert_eq!(g.transitivity.as_deref(), Some("transitive"));
    assert!(g.kana_only);
    let last = structured(J::A(vec![span("vt"), span("vi")]));
    assert_eq!(extract_grammar_from_entry(&last).transitivity.as_deref(), Some("intransitive"));
    let plain = extract_grammar_from_entry(&YomitanEntry::PlainText("x".to_string()));
    assert_eq!(plain.transitivity, None);
    assert!(!plain.kana_only);
}

#[test]
fn variants_are_listed() {
    assert_eq!(extract_variants_from_entry(&sample_entry()), vec!["分る", "解る"]);
}

#[test]
fn numbered_senses_are_grouped_in_order() {
    let senses = extract_senses_from_entry(&sample_entry());
    assert_eq!(
        senses_of(&senses),
        vec![(1, vec!["to be clear"]), (2, vec!["to understand", "to know"])]
    );
}

#[test]
fn sense_numbers_accept_a_plus_sign_and_skip_non_numbers() {
    let e = structured(J::A(vec![sense("+3", vec![li("a")]), sense("x", vec![li("b")])]));
    assert_eq!(senses_of(&extract_senses_from_entry(&e)), vec![(3, vec!["a"])]);
}

#[test]
fn glossary_without_numbers_is_trimmed() {
    let e = structured(section("glossary", vec![li("  hello "), li("   "), li("world")]));
    assert_eq!(senses_of(&extract_senses_from_entry(&e)), vec![(1, vec!["hello", "world"])]);
    let empty = structured(J::A(vec![span("n")]));
    assert!(extract_senses_from_entry(&empty).is_empty());
}

#[test]
fn plain_text_is_sense_one() {
    let e = YomitanEntry::PlainText("to know".to_string());
    assert_eq!(senses_of(&extract_senses_from_entry(&e)), vec![(1, vec!["to know"])]);
}

#[test]
fn term_entries_are_condensed() {
    let kept = YomitanDefinition {
        dictionary: "JMdict".to_string(),
        tags: vec![YomitanTag { name: "priority-form".to_string() }, YomitanTag { name: "news".to_string() }],
        entries: vec![sample_entry(), YomitanEntry::PlainText("to know".to_string())],
    };
    let empty_def = YomitanDefinition {
        dictionary: "Empty".to_string(),
        tags: Vec::new(),
        entries: vec![structured(J::A(vec![span("adv")]))],
    };
    let entry = YomitanDictionaryEntry {
        headwords: vec![
            YomitanHeadword { term: "分かる".to_string(), reading: Some("わかる".to_string()), word_classes: Vec::new() },
            YomitanHeadword { term: "解る".to_string(), reading: None, word_classes: vec!["v5".to_string()] },
        ],
        definitions: vec![empty_def, kept],
        frequencies: vec![YomitanFrequency { dictionary: "JPDB".to_string(), display_value: Some("120".to_string()), frequency: Some(120) }],
    };
    let dropped = YomitanDictionaryEntry {
        headwords: vec![YomitanHeadword { term: "x".to_string(), reading: None, word_classes: Vec::new() }],
        definitions: Vec::new(),
        frequencies: Vec::new(),
    };
    let raw = YomitanTermEntriesResponse { dictionary_entries: vec![dropped, entry], original_text_length: 3 };
    let out = condense_term_entries("分かる", &raw);
    assert_eq!(out.query, "分かる");
    assert_eq!(out.original_text_length, 3);
    assert_eq!(out.entries.len(), 1);
    let e = &out.entries[0];
    assert_eq!(e.headwords[0].word_classes, vec!["adverb", "godan", "noun"]);
    assert_eq!(e.headwords[0].reading.as_deref(), Some("わかる"));
    assert_eq!(e.headwords[1].word_classes, vec!["v5"]);
    assert_eq!(e.definitions.len(), 1);
    let d = &e.definitions[0];
    assert_eq!(d.dictionary, "JMdict");
    assert!(d.priority);
    assert_eq!(d.tags, vec!["priority-form"]);
    assert_eq!(d.grammar.transitivity.as_deref(), Some("transitive"));
    assert!(d.grammar.kana_only);
    assert_eq!(
        senses_of(&d.senses),
        vec![(1, vec!["to be clear", "to know"]), (2, vec!["to understand", "to know"])]
    );
    assert_eq!(d.variants, vec!["分る", "解る"]);
    assert_eq!(e.frequencies[0].frequency, Some(120));
    assert_eq!(e.frequencies[0].display_value.as_deref(), Some("120"));
}

#[test]
fn repeated_variants_next_to_each_other_are_cut() {
    let def = YomitanDefinition {
        dictionary: "D".to_string(),
        tags: Vec::new(),
        entries: vec![
            structured(J::A(vec![sense("1", vec![li("a")]), section("forms", vec![li("x")])])),
            structured(J::A(vec![section("forms", vec![li("x"), li("y"), li("x")])])),
        ],
    };
    let entry = YomitanDictionaryEntry { headwords: Vec::new(), definitions: vec![def], frequencies: Vec::new() };
    let raw = YomitanTermEntriesResponse { dictionary_entries: vec![entry], original_text_length: 1 };
    let out = condense_term_entries("q", &raw);
    assert_eq!(out.entries[0].definitions[0].variants, vec!["x", "y", "x"]);
}
