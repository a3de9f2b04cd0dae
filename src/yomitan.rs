//! Reading the structured content of the dictionary server's entries: parts
//! of speech, grammar flags, senses and variant forms.
use vstd::prelude::*;
use crate::dictionary::{UmodGrammar, UmodSense, YomitanFrequency, YomitanHeadword, YomitanTag};
use crate::extract::{
    contains_text, glosses_of, has_number, numbers_increase, normalize_pos, pos_name, same_text,
    trim_text, trimmed,
};
use crate::json::{JsonDoc, JsonNode, data_str, str_member, subtree_end};

verus! {

/// One definition entry: structured content, or plain text.
#[derive(Clone, Debug, PartialEq, Eq)]
pub enum YomitanEntry {
    Structured { entry_type: String, content: JsonDoc },
    PlainText(String),
}

/// A dictionary's definition of a term, as the server reports it.
#[derive(Clone, Debug, PartialEq, Eq)]
pub struct YomitanDefinition {
    pub dictionary: String,
    pub tags: Vec<YomitanTag>,
    pub entries: Vec<YomitanEntry>,
}

/// One dictionary entry as the server reports it.
#[derive(Clone, Debug, PartialEq, Eq)]
pub struct YomitanDictionaryEntry {
    pub headwords: Vec<YomitanHeadword>,
    pub definitions: Vec<YomitanDefinition>,
    pub frequencies: Vec<YomitanFrequency>,
}

/// The server's reply to a term lookup.
#[derive(Clone, Debug, PartialEq, Eq)]
pub struct YomitanTermEntriesResponse {
    pub dictionary_entries: Vec<YomitanDictionaryEntry>,
    pub original_text_length: usize,
}

/// One past the last node of the document's root subtree; zero when empty.
pub open spec fn root_end(d: Seq<JsonNode>) -> int {
    if d.len() == 0 {
        0
    } else {
        subtree_end(d, 0)
    }
}

/// The views of a list of strings.
pub open spec fn texts(v: Seq<String>) -> Seq<Seq<char>> {
    v.map_values(|s: String| s@)
}

/// The text of list item `j`: an object tagged `li` whose content is a string.
pub open spec fn li_item(d: Seq<JsonNode>, j: int) -> Seq<Seq<char>> {
    if str_member(d, j, "tag"@) == Some("li"@) && str_member(d, j, "content"@) is Some {
        seq![str_member(d, j, "content"@)->Some_0]
    } else {
        seq![]
    }
}

/// The texts of the list items among nodes `lo` to `hi`, in order.
pub open spec fn li_items(d: Seq<JsonNode>, lo: int, hi: int) -> Seq<Seq<char>>
    decreases hi - lo,
{
    if hi <= lo {
        seq![]
    } else {
        li_items(d, lo, hi - 1) + li_item(d, hi - 1)
    }
}

/// The list-item texts inside every object among nodes `lo` to `hi` whose
/// `data.content` is `section`, in order.
pub open spec fn section_items(d: Seq<JsonNode>, section: Seq<char>, lo: int, hi: int) -> Seq<
    Seq<char>,
>
    decreases hi - lo,
{
    if hi <= lo {
        seq![]
    } else {
        let j = hi - 1;
        section_items(d, section, lo, j) + if data_str(d, j, "content"@) == Some(section) {
            li_items(d, j, subtree_end(d, j))
        } else {
            seq![]
        }
    }
}

/// The texts of `items` trimmed, leaving out those that trim to nothing.
pub open spec fn trimmed_nonempty(items: Seq<Seq<char>>) -> Seq<Seq<char>>
    decreases items.len(),
{
    if items.len() == 0 {
        seq![]
    } else {
        let t = trimmed(items.last());
        trimmed_nonempty(items.drop_last()) + if t.len() > 0 {
            seq![t]
        } else {
            seq![]
        }
    }
}

/// Appends the texts of the list items among nodes `lo` to `hi`.
fn push_li_items(doc: &JsonDoc, lo: usize, hi: usize, out: &mut Vec<String>)
    requires
        lo <= hi <= doc.nodes@.len(),
    ensures
        texts(final(out)@) == texts(old(out)@) + li_items(doc.nodes@, lo as int, hi as int),
{
    let ghost d = doc.nodes@;
    let mut j = lo;
    assert(li_items(d, lo as int, lo as int) =~= seq![]);
    assert(texts(out@) =~= texts(old(out)@) + li_items(d, lo as int, lo as int));
    while j < hi
        invariant
            lo <= j <= hi,
            d == doc.nodes@,
            texts(out@) == texts(old(out)@) + li_items(d, lo as int, j as int),
        decreases hi - j,
    {
        let ghost before = out@;
        assert(li_items(d, lo as int, j + 1) == li_items(d, lo as int, j as int) + li_item(d, j as int));
        let mut item: Option<&str> = None;
        if let Some(tag) = doc.str_member(j, "tag") {
            if same_text(tag, "li") {
                item = doc.str_member(j, "content");
            }
        }
        assert(match item {
            Some(t) => li_item(d, j as int) == seq![t@],
            None => li_item(d, j as int) == Seq::<Seq<char>>::empty(),
        });
        if let Some(text) = item {
            out.push(text.to_owned());
            assert(texts(out@) =~= texts(before) + seq![text@]);
        } else {
            assert(texts(out@) =~= texts(before) + Seq::<Seq<char>>::empty());
        }
        assert(texts(out@) =~= texts(old(out)@) + li_items(d, lo as int, j + 1));
        j += 1;
    }
}

/// Appends the list-item texts of every `section` object among nodes `lo`
/// to `hi`.
fn push_section_items(doc: &JsonDoc, section: &str, lo: usize, hi: usize, out: &mut Vec<String>)
    requires
        lo <= hi <= doc.nodes@.len(),
    ensures
        texts(final(out)@) == texts(old(out)@) + section_items(
            doc.nodes@,
            section@,
            lo as int,
            hi as int,
        ),
{
    let ghost d = doc.nodes@;
    let mut j = lo;
    assert(texts(out@) =~= texts(old(out)@) + section_items(d, section@, lo as int, lo as int));
    while j < hi
        invariant
            lo <= j <= hi,
            hi <= d.len(),
            d == doc.nodes@,
            texts(out@) == texts(old(out)@) + section_items(d, section@, lo as int, j as int),
        decreases hi - j,
    {
        let mut hit = false;
        if let Some(c) = doc.data_str(j, "content") {
            hit = same_text(c, section);
        }
        if hit {
            let e = doc.subtree_end(j);
            push_li_items(doc, j, e, out);
        }
        assert(texts(out@) =~= texts(old(out)@) + section_items(d, section@, lo as int, j + 1));
        j += 1;
    }
}

/// The variant forms listed in an entry: the list items of its `forms`
/// sections, in order.
pub fn extract_variants_from_entry(entry: &YomitanEntry) -> (r: Vec<String>)
    ensures
        match entry {
            YomitanEntry::Structured { content, .. } => texts(r@) == section_items(
                content.nodes@,
                "forms"@,
                0,
                root_end(content.nodes@),
            ),
            YomitanEntry::PlainText(_) => r@.len() == 0,
        },
{
    let mut out: Vec<String> = Vec::new();
    if let YomitanEntry::Structured { content, .. } = entry {
        if content.nodes.len() > 0 {
            let e = content.subtree_end(0);
            push_section_items(content, "forms", 0, e, &mut out);
        }
        assert(texts(out@) =~= section_items(content.nodes@, "forms"@, 0, root_end(content.nodes@)));
    }
    out
}

/// The glosses of an entry's `glossary` sections, trimmed, leaving out the
/// empty ones.
fn extract_glossary_without_numbers(content: &JsonDoc) -> (r: Vec<String>)
    ensures
        texts(r@) == trimmed_nonempty(
            section_items(content.nodes@, "glossary"@, 0, root_end(content.nodes@)),
        ),
{
    let mut items: Vec<String> = Vec::new();
    if content.nodes.len() > 0 {
        let e = content.subtree_end(0);
        push_section_items(content, "glossary", 0, e, &mut items);
    }
    let ghost all = texts(items@);
    assert(all =~= section_items(content.nodes@, "glossary"@, 0, root_end(content.nodes@)));
    let mut glosses: Vec<String> = Vec::new();
    let mut k: usize = 0;
    while k < items.len()
        invariant
            k <= items@.len(),
            all == texts(items@),
            texts(glosses@) == trimmed_nonempty(all.subrange(0, k as int)),
        decreases items@.len() - k,
    {
        assert(all.subrange(0, k + 1).drop_last() =~= all.subrange(0, k as int));
        let t = trim_text(items[k].as_str());
        if t.unicode_len() > 0 {
            glosses.push(t.to_owned());
        }
        assert(texts(glosses@) =~= trimmed_nonempty(all.subrange(0, k + 1)));
        k += 1;
    }
    assert(all.subrange(0, all.len() as int) =~= all);
    glosses
}

/// The canonical part-of-speech names in increasing byte order; every name
/// that `pos_name` gives is among them.
pub open spec fn pos_order() -> Seq<Seq<char>> {
    seq![
        "adverb"@,
        "conjunction"@,
        "counter"@,
        "expression"@,
        "godan"@,
        "i-adjective"@,
        "ichidan"@,
        "interjection"@,
        "kuru-verb"@,
        "na-adjective"@,
        "noun"@,
        "numeric"@,
        "particle"@,
        "prefix"@,
        "prenominal-adjective"@,
        "suffix"@,
        "suru-verb"@,
    ]
}

/// The names of `order` that occur in `found`, in the order of `order`:
/// `found` sorted with repeats removed, when `order` is sorted and holds
/// every name of `found`.
pub open spec fn in_order_found(order: Seq<Seq<char>>, found: Seq<Seq<char>>) -> Seq<Seq<char>>
    decreases order.len(),
{
    if order.len() == 0 {
        seq![]
    } else {
        in_order_found(order.drop_last(), found) + if found.contains(order.last()) {
            seq![order.last()]
        } else {
            seq![]
        }
    }
}

/// Whether a code names a grammar flag rather than a part of speech.
pub open spec fn is_grammar_code(c: Seq<char>) -> bool {
    c == "vi"@ || c == "vt"@ || c == "uk"@
}

/// The part of speech named by node `j`: a `span` object whose `data.code`
/// is a part-of-speech code.
pub open spec fn pos_item(d: Seq<JsonNode>, j: int) -> Seq<Seq<char>> {
    if str_member(d, j, "tag"@) == Some("span"@) && data_str(d, j, "code"@) is Some {
        let c = data_str(d, j, "code"@)->Some_0;
        if !is_grammar_code(c) && pos_name(c) is Some {
            seq![pos_name(c)->Some_0]
        } else {
            seq![]
        }
    } else {
        seq![]
    }
}

/// The parts of speech named among nodes `lo` to `hi`, in order.
pub open spec fn pos_found(d: Seq<JsonNode>, lo: int, hi: int) -> Seq<Seq<char>>
    decreases hi - lo,
{
    if hi <= lo {
        seq![]
    } else {
        pos_found(d, lo, hi - 1) + pos_item(d, hi - 1)
    }
}

/// The grammar flags set among nodes `lo` to `hi`: the transitivity of the
/// last `vi` or `vt` span, and whether any span is `uk`.
pub open spec fn grammar_of(d: Seq<JsonNode>, lo: int, hi: int) -> (Option<Seq<char>>, bool)
    decreases hi - lo,
{
    if hi <= lo {
        (None, false)
    } else {
        let g = grammar_of(d, lo, hi - 1);
        let j = hi - 1;
        if str_member(d, j, "tag"@) == Some("span"@) && data_str(d, j, "code"@) is Some {
            let c = data_str(d, j, "code"@)->Some_0;
            if c == "vi"@ {
                (Some("intransitive"@), g.1)
            } else if c == "vt"@ {
                (Some("transitive"@), g.1)
            } else if c == "uk"@ {
                (g.0, true)
            } else {
                g
            }
        } else {
            g
        }
    }
}

/// A grammar record as plain values.
pub open spec fn grammar_view(g: UmodGrammar) -> (Option<Seq<char>>, bool) {
    (
        match g.transitivity {
            Some(t) => Some(t@),
            None => None,
        },
        g.kana_only,
    )
}

/// The `data.code` of node `j` when it is a `span` object.
fn span_code(doc: &JsonDoc, j: usize) -> (r: Option<&str>)
    ensures
        match r {
            Some(c) => str_member(doc.nodes@, j as int, "tag"@) == Some("span"@) && data_str(
                doc.nodes@,
                j as int,
                "code"@,
            ) == Some(c@),
            None => !(str_member(doc.nodes@, j as int, "tag"@) == Some("span"@) && data_str(
                doc.nodes@,
                j as int,
                "code"@,
            ) is Some),
        },
{
    match doc.str_member(j, "tag") {
        Some(tag) => if same_text(tag, "span") {
            doc.data_str(j, "code")
        } else {
            None
        },
        None => None,
    }
}

/// The part-of-speech names of `found` in increasing byte order, each once.
pub(crate) fn sort_pos_names(found: &Vec<String>) -> (r: Vec<String>)
    ensures
        texts(r@) == in_order_found(pos_order(), texts(found@)),
{
    let mut out: Vec<String> = Vec::new();
    let order: Vec<&str> = vec![
        "adverb",
        "conjunction",
        "counter",
        "expression",
        "godan",
        "i-adjective",
        "ichidan",
        "interjection",
        "kuru-verb",
        "na-adjective",
        "noun",
        "numeric",
        "particle",
        "prefix",
        "prenominal-adjective",
        "suffix",
        "suru-verb",
    ];
    let ghost ord = order@.map_values(|s: &str| s@);
    assert(ord =~= pos_order());
    let mut k: usize = 0;
    while k < order.len()
        invariant
            k <= order@.len(),
            ord == order@.map_values(|s: &str| s@),
            texts(out@) == in_order_found(ord.subrange(0, k as int), texts(found@)),
        decreases order@.len() - k,
    {
        assert(ord.subrange(0, k + 1).drop_last() =~= ord.subrange(0, k as int));
        let name = order[k].to_owned();
        if contains_text(found, &name) {
            out.push(name);
        }
        assert(texts(out@) =~= in_order_found(ord.subrange(0, k + 1), texts(found@)));
        k += 1;
    }
    assert(ord.subrange(0, ord.len() as int) =~= ord);
    out
}

/// The canonical parts of speech an entry names, sorted, each once.
pub fn extract_pos_from_entry(entry: &YomitanEntry) -> (r: Vec<String>)
    ensures
        match entry {
            YomitanEntry::Structured { content, .. } => texts(r@) == in_order_found(
                pos_order(),
                pos_found(content.nodes@, 0, root_end(content.nodes@)),
            ),
            YomitanEntry::PlainText(_) => r@.len() == 0,
        },
{
    let mut out: Vec<String> = Vec::new();
    if let YomitanEntry::Structured { content, .. } = entry {
        let ghost d = content.nodes@;
        let hi = if content.nodes.len() > 0 {
            content.subtree_end(0)
        } else {
            0
        };
        let mut found: Vec<String> = Vec::new();
        let mut j: usize = 0;
        while j < hi
            invariant
                j <= hi,
                hi == root_end(d),
                hi <= d.len(),
                d == content.nodes@,
                texts(found@) == pos_found(d, 0, j as int),
            decreases hi - j,
        {
            let ghost before = found@;
            if let Some(code) = span_code(content, j) {
                if !(same_text(code, "vi") || same_text(code, "vt") || same_text(code, "uk")) {
                    if let Some(name) = normalize_pos(code) {
                        found.push(name.to_owned());
                    }
                }
            }
            assert(texts(found@) =~= pos_found(d, 0, j + 1));
            j += 1;
        }
        out = sort_pos_names(&found);
    }
    out
}

/// The grammar flags an entry sets.
pub fn extract_grammar_from_entry(entry: &YomitanEntry) -> (r: UmodGrammar)
    ensures
        match entry {
            YomitanEntry::Structured { content, .. } => grammar_view(r) == grammar_of(
                content.nodes@,
                0,
                root_end(content.nodes@),
            ),
            YomitanEntry::PlainText(_) => r.transitivity is None && !r.kana_only,
        },
{
    let mut g = UmodGrammar::default();
    if let YomitanEntry::Structured { content, .. } = entry {
        let ghost d = content.nodes@;
        let hi = if content.nodes.len() > 0 {
            content.subtree_end(0)
        } else {
            0
        };
        let mut j: usize = 0;
        while j < hi
            invariant
                j <= hi,
                hi == root_end(d),
                hi <= d.len(),
                d == content.nodes@,
                grammar_view(g) == grammar_of(d, 0, j as int),
            decreases hi - j,
        {
            if let Some(code) = span_code(content, j) {
                if same_text(code, "vi") {
                    g.transitivity = Some("intransitive".to_owned());
                } else if same_text(code, "vt") {
                    g.transitivity = Some("transitive".to_owned());
                } else if same_text(code, "uk") {
                    g.kana_only = true;
                }
            }
            j += 1;
        }
    }
    g
}

/// The value of a run of decimal digits.
pub open spec fn decimal_value(s: Seq<char>) -> int
    decreases s.len(),
{
    if s.len() == 0 {
        0
    } else {
        decimal_value(s.drop_last()) * 10 + ((s.last() as u32) - ('0' as u32))
    }
}

/// One or more ASCII digits.
pub open spec fn is_digits(s: Seq<char>) -> bool {
    s.len() > 0 && forall|i: int| 0 <= i < s.len() ==> ('0' as u32) <= (#[trigger] s[i] as u32) <= ('9' as u32)
}

/// What `str::parse::<usize>` gives: an optional `+`, then one or more ASCII
/// digits whose value fits in `usize`.
pub open spec fn parsed_usize(s: Seq<char>) -> Option<usize> {
    let body = if s.len() > 0 && s[0] == '+' {
        s.skip(1)
    } else {
        s
    };
    if is_digits(body) && decimal_value(body) <= usize::MAX {
        Some(decimal_value(body) as usize)
    } else {
        None
    }
}

/// Relies on `str::parse::<usize>`: an optional `+`, then one or more ASCII
/// digits whose value fits in `usize`; anything else is an error.
#[verifier::external_body]
fn parse_usize(s: &str) -> (r: Option<usize>)
    ensures
        r == parsed_usize(s@),
{
    s.parse::<usize>().ok()
}

/// A numbered gloss as plain values.
pub open spec fn pair_view(p: (usize, String)) -> (usize, Seq<char>) {
    (p.0, p.1@)
}

pub open spec fn pairs_view(v: Seq<(usize, String)>) -> Seq<(usize, Seq<char>)> {
    v.map_values(|p: (usize, String)| pair_view(p))
}

/// The glosses, numbered `num`, of the `glossary` sections among nodes `lo`
/// to `hi`.
pub open spec fn glossary_pairs(d: Seq<JsonNode>, num: usize, lo: int, hi: int) -> Seq<
    (usize, Seq<char>),
>
    decreases hi - lo,
{
    if hi <= lo {
        seq![]
    } else {
        let j = hi - 1;
        glossary_pairs(d, num, lo, j) + if data_str(d, j, "content"@) == Some("glossary"@) {
            li_items(d, j, subtree_end(d, j)).map_values(|t: Seq<char>| (num, t))
        } else {
            seq![]
        }
    }
}

/// The numbered glosses among nodes `lo` to `hi`: for each object whose
/// `data.sense-number` reads as a number, the glosses of the `glossary`
/// sections in its subtree, with that number.
pub open spec fn sense_pairs(d: Seq<JsonNode>, lo: int, hi: int) -> Seq<(usize, Seq<char>)>
    decreases hi - lo,
{
    if hi <= lo {
        seq![]
    } else {
        let j = hi - 1;
        sense_pairs(d, lo, j) + match data_str(d, j, "sense-number"@) {
            Some(s) => match parsed_usize(s) {
                Some(num) => glossary_pairs(d, num, j, subtree_end(d, j)),
                None => seq![],
            },
            None => seq![],
        }
    }
}

/// The texts of the pairs numbered `n`, in order.
pub open spec fn texts_numbered(p: Seq<(usize, Seq<char>)>, n: usize) -> Seq<Seq<char>>
    decreases p.len(),
{
    if p.len() == 0 {
        seq![]
    } else {
        texts_numbered(p.drop_last(), n) + if p.last().0 == n {
            seq![p.last().1]
        } else {
            seq![]
        }
    }
}

/// `s` with each run of equal texts cut to one.
pub open spec fn dedup_adjacent(s: Seq<Seq<char>>) -> Seq<Seq<char>>
    decreases s.len(),
{
    if s.len() == 0 {
        seq![]
    } else {
        let d = dedup_adjacent(s.drop_last());
        if d.len() > 0 && d.last() == s.last() {
            d
        } else {
            d.push(s.last())
        }
    }
}

/// Some pair of `p` is numbered `n`.
pub open spec fn pair_has_number(p: Seq<(usize, Seq<char>)>, n: usize) -> bool {
    exists|i: int| 0 <= i < p.len() && #[trigger] p[i].0 == n
}

proof fn lemma_no_texts_without_number(p: Seq<(usize, Seq<char>)>, n: usize)
    requires
        !pair_has_number(p, n),
    ensures
        texts_numbered(p, n) == Seq::<Seq<char>>::empty(),
    decreases p.len(),
{
    if p.len() > 0 {
        assert(!pair_has_number(p.drop_last(), n)) by {
            if pair_has_number(p.drop_last(), n) {
                let i = choose|i: int| 0 <= i < p.drop_last().len() && #[trigger] p.drop_last()[i].0 == n;
                assert(p[i].0 == n);
            }
        }
        lemma_no_texts_without_number(p.drop_last(), n);
        assert(p[p.len() - 1].0 != n);
        assert(texts_numbered(p, n) =~= Seq::<Seq<char>>::empty());
    }
}

/// Appends the glosses, numbered `num`, of the `glossary` sections among
/// nodes `lo` to `hi`.
fn push_glossary_pairs(
    doc: &JsonDoc,
    num: usize,
    lo: usize,
    hi: usize,
    out: &mut Vec<(usize, String)>,
)
    requires
        lo <= hi <= doc.nodes@.len(),
    ensures
        pairs_view(final(out)@) == pairs_view(old(out)@) + glossary_pairs(
            doc.nodes@,
            num,
            lo as int,
            hi as int,
        ),
{
    let ghost d = doc.nodes@;
    let mut j = lo;
    assert(pairs_view(out@) =~= pairs_view(old(out)@) + glossary_pairs(d, num, lo as int, lo as int));
    while j < hi
        invariant
            lo <= j <= hi,
            hi <= d.len(),
            d == doc.nodes@,
            pairs_view(out@) == pairs_view(old(out)@) + glossary_pairs(d, num, lo as int, j as int),
        decreases hi - j,
    {
        let ghost before = pairs_view(out@);
        let mut hit = false;
        if let Some(c) = doc.data_str(j, "content") {
            hit = same_text(c, "glossary");
        }
        if hit {
            let e = doc.subtree_end(j);
            let mut items: Vec<String> = Vec::new();
            push_li_items(doc, j, e, &mut items);
            let ghost its = texts(items@);
            assert(its =~= li_items(d, j as int, e as int));
            let mut q: usize = 0;
            while q < items.len()
                invariant
                    q <= items@.len(),
                    its == texts(items@),
                    pairs_view(out@) == before + its.subrange(0, q as int).map_values(
                        |t: Seq<char>| (num, t),
                    ),
                decreases items@.len() - q,
            {
                let ghost prev = out@;
                let t = items[q].clone();
                assert(t@ == its[q as int]);
                out.push((num, t));
                assert(pairs_view(out@) =~= pairs_view(prev).push((num, its[q as int])));
                assert(its.subrange(0, q + 1).map_values(|t: Seq<char>| (num, t)) =~= its.subrange(
                    0,
                    q as int,
                ).map_values(|t: Seq<char>| (num, t)).push((num, its[q as int])));
                assert(pairs_view(out@) =~= before + its.subrange(0, q + 1).map_values(
                    |t: Seq<char>| (num, t),
                ));
                q += 1;
            }
            assert(its.subrange(0, its.len() as int) =~= its);
        }
        assert(pairs_view(out@) =~= pairs_view(old(out)@) + glossary_pairs(d, num, lo as int, j + 1));
        j += 1;
    }
}

/// Groups numbered glosses into senses: one per number, in increasing order
/// of number, holding that number's glosses in order with each run of equal
/// glosses cut to one.
fn group_pairs(pairs: &Vec<(usize, String)>) -> (r: Vec<UmodSense>)
    ensures
        numbers_increase(r@),
        forall|n: usize| has_number(r@, n) <==> pair_has_number(pairs_view(pairs@), n),
        forall|i: int|
            0 <= i < r@.len() ==> glosses_of(#[trigger] r@[i]) == dedup_adjacent(
                texts_numbered(pairs_view(pairs@), r@[i].number),
            ),
{
    let ghost c = pairs_view(pairs@);
    let mut groups: Vec<UmodSense> = Vec::new();
    let mut k: usize = 0;
    while k < pairs.len()
        invariant
            c == pairs_view(pairs@),
            k <= c.len(),
            numbers_increase(groups@),
            forall|n: usize| has_number(groups@, n) <==> pair_has_number(c.subrange(0, k as int), n),
            forall|i: int|
                0 <= i < groups@.len() ==> glosses_of(#[trigger] groups@[i]) == dedup_adjacent(
                    texts_numbered(c.subrange(0, k as int), groups@[i].number),
                ),
        decreases c.len() - k,
    {
        let ghost prefix = c.subrange(0, k as int);
        let ghost next = c.subrange(0, k + 1);
        let ghost old_groups = groups@;
        assert(next.drop_last() =~= prefix);
        let n = pairs[k].0;
        let text = &pairs[k].1;
        assert(next.last() == (n, text@));
        let mut i: usize = 0;
        while i < groups.len() && groups[i].number < n
            invariant
                i <= groups@.len(),
                groups@ == old_groups,
                forall|q: int| 0 <= q < i ==> #[trigger] groups@[q].number < n,
            decreases groups@.len() - i,
        {
            i += 1;
        }
        assert forall|m: usize| #[trigger] texts_numbered(next, m) == texts_numbered(prefix, m)
            + if m == n {
            seq![text@]
        } else {
            seq![]
        } by {}
        assert forall|m: usize| pair_has_number(next, m) <==> pair_has_number(prefix, m) || m == n by {
            if pair_has_number(next, m) && m != n {
                let q = choose|q: int| 0 <= q < next.len() && #[trigger] next[q].0 == m;
                assert(prefix[q].0 == m);
            }
            if pair_has_number(prefix, m) {
                let q = choose|q: int| 0 <= q < prefix.len() && #[trigger] prefix[q].0 == m;
                assert(next[q].0 == m);
            }
            if m == n {
                assert(next[k as int].0 == m);
            }
        }
        if i < groups.len() && groups[i].number == n {
            let mut g = groups.remove(i);
            assert(g == old_groups[i as int]);
            let ghost gl = glosses_of(g);
            let ghost x = texts_numbered(prefix, n);
            assert(gl == dedup_adjacent(x));
            assert(x.push(text@).drop_last() =~= x);
            let len = g.glosses.len();
            if len == 0 || !(g.glosses[len - 1] == *text) {
                g.glosses.push(text.clone());
                assert(glosses_of(g) =~= gl.push(text@));
            }
            assert(texts_numbered(next, n) =~= x.push(text@));
            assert(glosses_of(g) == dedup_adjacent(texts_numbered(next, n)));
            groups.insert(i, g);
            assert(groups@ =~= old_groups.update(i as int, g));
            assert(old_groups[i as int].number == n);
            assert(pair_has_number(prefix, n)) by {
                assert(has_number(old_groups, n));
            }
            assert forall|m: usize| has_number(groups@, m) <==> has_number(old_groups, m) by {
                if has_number(groups@, m) {
                    let q = choose|q: int| 0 <= q < groups@.len() && #[trigger] groups@[q].number == m;
                    assert(old_groups[q].number == m);
                }
                if has_number(old_groups, m) {
                    let q = choose|q: int| 0 <= q < old_groups.len() && #[trigger] old_groups[q].number == m;
                    assert(groups@[q].number == m);
                }
            }
        } else {
            assert(!pair_has_number(prefix, n)) by {
                if has_number(old_groups, n) {
                    let q = choose|q: int| 0 <= q < old_groups.len() && #[trigger] old_groups[q].number == n;
                    if q < i {
                    } else if q == i {
                    } else {
                        assert(old_groups[i as int].number < old_groups[q].number);
                    }
                }
            }
            proof {
                lemma_no_texts_without_number(prefix, n);
            }
            let mut gl: Vec<String> = Vec::new();
            let t = text.clone();
            gl.push(t);
            assert(texts_numbered(next, n) =~= seq![text@]);
            assert(seq![text@].drop_last() =~= Seq::<Seq<char>>::empty());
            assert(dedup_adjacent(Seq::<Seq<char>>::empty()) == Seq::<Seq<char>>::empty());
            assert(dedup_adjacent(seq![text@]) =~= seq![text@]);
            assert(glosses_of(UmodSense { number: n, glosses: gl }) =~= seq![text@]);
            let fresh = UmodSense { number: n, glosses: gl };
            groups.insert(i, fresh);
            assert forall|q: int| 0 <= q < groups@.len() implies (q < i ==> groups@[q] == old_groups[q])
                && (q == i ==> groups@[q] == fresh) && (q > i ==> groups@[q] == old_groups[q - 1]) by {}
            assert forall|m: usize| has_number(groups@, m) <==> has_number(old_groups, m) || m == n by {
                if has_number(groups@, m) && m != n {
                    let q = choose|q: int| 0 <= q < groups@.len() && #[trigger] groups@[q].number == m;
                    if q < i {
                        assert(old_groups[q].number == m);
                    } else {
                        assert(old_groups[q - 1].number == m);
                    }
                }
                if has_number(old_groups, m) {
                    let q = choose|q: int| 0 <= q < old_groups.len() && #[trigger] old_groups[q].number == m;
                    if q < i {
                        assert(groups@[q].number == m);
                    } else {
                        assert(groups@[q + 1].number == m);
                    }
                }
                if m == n {
                    assert(groups@[i as int].number == m);
                }
            }
        }
        assert forall|m: usize| has_number(groups@, m) <==> pair_has_number(next, m) by {
            assert(has_number(old_groups, m) <==> pair_has_number(prefix, m));
            assert(pair_has_number(next, m) <==> pair_has_number(prefix, m) || m == n);
        }
        k += 1;
    }
    assert(c.subrange(0, c.len() as int) =~= c);
    groups
}

/// `r` groups the numbered glosses `p` into senses: one per number, in
/// increasing order of number, each holding its number's glosses in order
/// with runs of equal glosses cut to one.
pub open spec fn grouped(r: Seq<UmodSense>, p: Seq<(usize, Seq<char>)>) -> bool {
    &&& numbers_increase(r)
    &&& forall|n: usize| has_number(r, n) <==> pair_has_number(p, n)
    &&& forall|i: int|
        0 <= i < r.len() ==> glosses_of(#[trigger] r[i]) == dedup_adjacent(
            texts_numbered(p, r[i].number),
        )
}

/// The numbered senses of structured content.
fn extract_structured_senses(content: &JsonDoc) -> (r: Vec<UmodSense>)
    ensures
        grouped(r@, sense_pairs(content.nodes@, 0, root_end(content.nodes@))),
{
    let ghost d = content.nodes@;
    let hi = if content.nodes.len() > 0 {
        content.subtree_end(0)
    } else {
        0
    };
    let mut pairs: Vec<(usize, String)> = Vec::new();
    let mut j: usize = 0;
    assert(pairs_view(pairs@) =~= sense_pairs(d, 0, 0));
    while j < hi
        invariant
            j <= hi,
            hi == root_end(d),
            hi <= d.len(),
            d == content.nodes@,
            pairs_view(pairs@) == sense_pairs(d, 0, j as int),
        decreases hi - j,
    {
        let ghost before = pairs_view(pairs@);
        let mut number: Option<usize> = None;
        if let Some(s) = content.data_str(j, "sense-number") {
            number = parse_usize(s);
        }
        if let Some(num) = number {
            let e = content.subtree_end(j);
            push_glossary_pairs(content, num, j, e, &mut pairs);
        }
        assert(pairs_view(pairs@) =~= sense_pairs(d, 0, j + 1));
        j += 1;
    }
    group_pairs(&pairs)
}

/// `r` is what `extract_senses_from_entry` gives for `e`.
pub open spec fn senses_extracted(e: YomitanEntry, r: Seq<UmodSense>) -> bool {
    match e {
        YomitanEntry::Structured { content, .. } => {
            let d = content.nodes@;
            let p = sense_pairs(d, 0, root_end(d));
            let g = trimmed_nonempty(section_items(d, "glossary"@, 0, root_end(d)));
            if p.len() > 0 {
                grouped(r, p)
            } else if g.len() > 0 {
                r.len() == 1 && r[0].number == 1 && glosses_of(r[0]) == g
            } else {
                r.len() == 0
            }
        },
        YomitanEntry::PlainText(text) => r.len() == 1 && r[0].number == 1 && glosses_of(r[0])
            == seq![text@],
    }
}

/// The senses of an entry: its numbered senses; failing those, its glossary
/// as sense 1; plain text is sense 1 on its own.
pub fn extract_senses_from_entry(entry: &YomitanEntry) -> (r: Vec<UmodSense>)
    ensures
        senses_extracted(*entry, r@),
{
    match entry {
        YomitanEntry::Structured { content, .. } => {
            let ghost d = content.nodes@;
            let ghost p = sense_pairs(d, 0, root_end(d));
            let numbered = extract_structured_senses(content);
            proof {
                if p.len() > 0 {
                    assert(pair_has_number(p, p[0].0));
                    assert(has_number(numbered@, p[0].0));
                } else if numbered@.len() > 0 {
                    assert(has_number(numbered@, numbered@[0].number));
                }
            }
            if numbered.len() > 0 {
                return numbered;
            }
            let glosses = extract_glossary_without_numbers(content);
            if glosses.len() > 0 {
                let sense = UmodSense { number: 1, glosses };
                let out = vec![sense];
                return out;
            }
            Vec::new()
        },
        YomitanEntry::PlainText(text) => {
            let mut glosses: Vec<String> = Vec::new();
            glosses.push(text.clone());
            assert(glosses_of(UmodSense { number: 1, glosses }) =~= seq![text@]);
            vec![UmodSense { number: 1, glosses }]
        },
    }
}

} // verus!
