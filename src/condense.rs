//! Condensing the dictionary server's term entries into the result model:
//! canonical parts of speech on the headwords, and per definition its tags,
//! grammar flags, merged senses and variant forms. Definitions without
//! senses, and entries without definitions, are left out.
use vstd::prelude::*;
use crate::dictionary::{
    UmodDefinition, UmodDictionaryEntry, UmodFrequency, UmodGrammar, UmodHeadword, UmodSense,
    UmodTermEntries, YomitanFrequency, YomitanHeadword,
};
use crate::extract::{
    extract_priority_and_tags, first_occurrences, glosses_numbered, glosses_of, has_number,
    has_substring, lemma_first_occurrences_absorb, lemma_glosses_numbered_append,
    lemma_glosses_numbered_single, lemma_has_number_append, lemma_no_glosses_without_number,
    merge_senses, numbers_increase, shown_tags,
};
use crate::yomitan::{
    YomitanDefinition, YomitanDictionaryEntry, YomitanEntry, YomitanTermEntriesResponse,
    dedup_adjacent, extract_grammar_from_entry, extract_pos_from_entry, extract_senses_from_entry,
    extract_variants_from_entry, grammar_of, grammar_view, grouped, in_order_found,
    pair_has_number, pos_found, pos_order, root_end, section_items, sense_pairs, senses_extracted,
    sort_pos_names, texts, texts_numbered, trimmed_nonempty,
};

verus! {

/// Whether entry `e` gives a sense numbered `n`.
pub open spec fn entry_has(e: YomitanEntry, n: usize) -> bool {
    match e {
        YomitanEntry::Structured { content, .. } => {
            let d = content.nodes@;
            let p = sense_pairs(d, 0, root_end(d));
            let g = trimmed_nonempty(section_items(d, "glossary"@, 0, root_end(d)));
            if p.len() > 0 {
                pair_has_number(p, n)
            } else {
                g.len() > 0 && n == 1
            }
        },
        YomitanEntry::PlainText(_) => n == 1,
    }
}

/// The glosses entry `e` gives for sense `n`.
pub open spec fn entry_glosses(e: YomitanEntry, n: usize) -> Seq<Seq<char>> {
    if !entry_has(e, n) {
        seq![]
    } else {
        match e {
            YomitanEntry::Structured { content, .. } => {
                let d = content.nodes@;
                let p = sense_pairs(d, 0, root_end(d));
                if p.len() > 0 {
                    dedup_adjacent(texts_numbered(p, n))
                } else {
                    trimmed_nonempty(section_items(d, "glossary"@, 0, root_end(d)))
                }
            },
            YomitanEntry::PlainText(text) => seq![text@],
        }
    }
}

/// Some entry of `es` gives a sense numbered `n`.
pub open spec fn entries_have(es: Seq<YomitanEntry>, n: usize) -> bool {
    exists|q: int| 0 <= q < es.len() && entry_has(#[trigger] es[q], n)
}

/// The glosses the entries give for sense `n`, entry by entry.
pub open spec fn entries_glosses(es: Seq<YomitanEntry>, n: usize) -> Seq<Seq<char>>
    decreases es.len(),
{
    if es.len() == 0 {
        seq![]
    } else {
        entries_glosses(es.drop_last(), n) + entry_glosses(es.last(), n)
    }
}

/// The grammar flags an entry sets.
pub open spec fn entry_grammar(e: YomitanEntry) -> (Option<Seq<char>>, bool) {
    match e {
        YomitanEntry::Structured { content, .. } => grammar_of(
            content.nodes@,
            0,
            root_end(content.nodes@),
        ),
        YomitanEntry::PlainText(_) => (None, false),
    }
}

/// The grammar flags of the entries merged in order: the first transitivity
/// found, and kana-only if any entry is.
pub open spec fn grammar_fold(es: Seq<YomitanEntry>) -> (Option<Seq<char>>, bool)
    decreases es.len(),
{
    if es.len() == 0 {
        (None, false)
    } else {
        let g = grammar_fold(es.drop_last());
        let o = entry_grammar(es.last());
        (
            if g.0 is None {
                o.0
            } else {
                g.0
            },
            g.1 || o.1,
        )
    }
}

/// The variant forms an entry lists.
pub open spec fn entry_forms(e: YomitanEntry) -> Seq<Seq<char>> {
    match e {
        YomitanEntry::Structured { content, .. } => section_items(
            content.nodes@,
            "forms"@,
            0,
            root_end(content.nodes@),
        ),
        YomitanEntry::PlainText(_) => seq![],
    }
}

/// The variant forms of the entries, entry by entry.
pub open spec fn forms_concat(es: Seq<YomitanEntry>) -> Seq<Seq<char>>
    decreases es.len(),
{
    if es.len() == 0 {
        seq![]
    } else {
        forms_concat(es.drop_last()) + entry_forms(es.last())
    }
}

/// The canonical parts of speech an entry names, sorted, each once.
pub open spec fn entry_pos(e: YomitanEntry) -> Seq<Seq<char>> {
    match e {
        YomitanEntry::Structured { content, .. } => in_order_found(
            pos_order(),
            pos_found(content.nodes@, 0, root_end(content.nodes@)),
        ),
        YomitanEntry::PlainText(_) => seq![],
    }
}

/// The parts of speech of the entries, entry by entry.
pub open spec fn entries_pos(es: Seq<YomitanEntry>) -> Seq<Seq<char>>
    decreases es.len(),
{
    if es.len() == 0 {
        seq![]
    } else {
        entries_pos(es.drop_last()) + entry_pos(es.last())
    }
}

/// The parts of speech of the definitions' entries, definition by definition.
pub open spec fn definitions_pos(defs: Seq<YomitanDefinition>) -> Seq<Seq<char>>
    decreases defs.len(),
{
    if defs.len() == 0 {
        seq![]
    } else {
        definitions_pos(defs.drop_last()) + entries_pos(defs.last().entries@)
    }
}

/// A definition is kept when some entry gives it a sense.
pub open spec fn def_kept(def: YomitanDefinition) -> bool {
    exists|n: usize| entries_have(def.entries@, n)
}

/// The indices of the kept definitions, in order.
pub open spec fn kept_defs(defs: Seq<YomitanDefinition>) -> Seq<int>
    decreases defs.len(),
{
    if defs.len() == 0 {
        seq![]
    } else {
        kept_defs(defs.drop_last()) + if def_kept(defs.last()) {
            seq![defs.len() - 1]
        } else {
            seq![]
        }
    }
}

/// An entry is kept when some definition of it is.
pub open spec fn entry_kept(de: YomitanDictionaryEntry) -> bool {
    kept_defs(de.definitions@).len() > 0
}

/// The indices of the kept entries, in order.
pub open spec fn kept_entries(des: Seq<YomitanDictionaryEntry>) -> Seq<int>
    decreases des.len(),
{
    if des.len() == 0 {
        seq![]
    } else {
        kept_entries(des.drop_last()) + if entry_kept(des.last()) {
            seq![des.len() - 1]
        } else {
            seq![]
        }
    }
}

/// An optional text as a plain value.
pub open spec fn opt_text(o: Option<String>) -> Option<Seq<char>> {
    match o {
        Some(s) => Some(s@),
        None => None,
    }
}

/// The senses `s` merge the entries' senses: one per number given, in
/// increasing order, each with the glosses given for it, each text once.
pub open spec fn senses_merged(s: Seq<UmodSense>, es: Seq<YomitanEntry>) -> bool {
    &&& numbers_increase(s)
    &&& forall|n: usize| #[trigger] has_number(s, n) <==> entries_have(es, n)
    &&& forall|n: usize| #[trigger]
        glosses_numbered(s, n) == first_occurrences(entries_glosses(es, n))
}

/// `out` condenses definition `def`.
#[verifier::opaque]
pub open spec fn def_condensed(out: UmodDefinition, def: YomitanDefinition) -> bool {
    &&& out.dictionary@ == def.dictionary@
    &&& out.priority == exists|i: int|
        0 <= i < def.tags@.len() && has_substring(#[trigger] def.tags@[i].name@, "priority"@)
    &&& texts(out.tags@) == shown_tags(def.tags@)
    &&& grammar_view(out.grammar) == grammar_fold(def.entries@)
    &&& senses_merged(out.senses@, def.entries@)
    &&& texts(out.variants@) == dedup_adjacent(forms_concat(def.entries@))
}

/// `out` carries headword `h`; word classes default to `pos`.
pub open spec fn headword_condensed(out: UmodHeadword, h: YomitanHeadword, pos: Seq<Seq<char>>) -> bool {
    &&& out.term@ == h.term@
    &&& opt_text(out.reading) == opt_text(h.reading)
    &&& texts(out.word_classes@) == if h.word_classes@.len() == 0 {
        pos
    } else {
        texts(h.word_classes@)
    }
}

/// `out` carries frequency `f`.
pub open spec fn frequency_condensed(out: UmodFrequency, f: YomitanFrequency) -> bool {
    &&& out.dictionary@ == f.dictionary@
    &&& opt_text(out.display_value) == opt_text(f.display_value)
    &&& out.frequency == f.frequency
}

/// `out` condenses entry `de`.
#[verifier::opaque]
pub open spec fn entry_condensed(out: UmodDictionaryEntry, de: YomitanDictionaryEntry) -> bool {
    let pos = in_order_found(pos_order(), definitions_pos(de.definitions@));
    let kd = kept_defs(de.definitions@);
    &&& out.headwords@.len() == de.headwords@.len()
    &&& forall|i: int|
        0 <= i < out.headwords@.len() ==> headword_condensed(
            #[trigger] out.headwords@[i],
            de.headwords@[i],
            pos,
        )
    &&& out.definitions@.len() == kd.len()
    &&& forall|j: int|
        0 <= j < kd.len() ==> def_condensed(
            #[trigger] out.definitions@[j],
            de.definitions@[kd[j]],
        )
    &&& out.frequencies@.len() == de.frequencies@.len()
    &&& forall|i: int|
        0 <= i < out.frequencies@.len() ==> frequency_condensed(
            #[trigger] out.frequencies@[i],
            de.frequencies@[i],
        )
}

#[verifier::rlimit(40)]
proof fn lemma_senses_extracted(e: YomitanEntry, r: Seq<UmodSense>)
    requires
        senses_extracted(e, r),
    ensures
        forall|m: usize| #[trigger] has_number(r, m) == entry_has(e, m),
        forall|m: usize| #[trigger] glosses_numbered(r, m) == entry_glosses(e, m),
{
    assert forall|m: usize|
        #![trigger has_number(r, m)]
        #![trigger glosses_numbered(r, m)]
        has_number(r, m) == entry_has(e, m) && glosses_numbered(r, m) == entry_glosses(e, m) by {
        assert(glosses_numbered(Seq::<UmodSense>::empty(), m) =~= Seq::<Seq<char>>::empty());
        match e {
            YomitanEntry::Structured { content, .. } => {
                let d = content.nodes@;
                let p = sense_pairs(d, 0, root_end(d));
                if p.len() > 0 {
                    assert(grouped(r, p));
                    if has_number(r, m) {
                        let i = choose|i: int| 0 <= i < r.len() && #[trigger] r[i].number == m;
                        lemma_glosses_numbered_single(r, i);
                    } else {
                        lemma_no_glosses_without_number(r, m);
                    }
                } else if r.len() == 1 {
                    assert(r.drop_last() =~= Seq::<UmodSense>::empty());
                    if m == 1 {
                        assert(r[0].number == m);
                    }
                    assert(glosses_numbered(r, m) =~= entry_glosses(e, m));
                } else {
                    assert(glosses_numbered(r, m) =~= entry_glosses(e, m));
                }
            },
            YomitanEntry::PlainText(_) => {
                assert(r.drop_last() =~= Seq::<UmodSense>::empty());
                if m == 1 {
                    assert(r[0].number == m);
                }
                assert(glosses_numbered(r, m) =~= entry_glosses(e, m));
            },
        }
    }
}

proof fn lemma_no_entry_glosses(es: Seq<YomitanEntry>, n: usize)
    requires
        !entries_have(es, n),
    ensures
        entries_glosses(es, n) == Seq::<Seq<char>>::empty(),
    decreases es.len(),
{
    if es.len() > 0 {
        assert(!entries_have(es.drop_last(), n)) by {
            if entries_have(es.drop_last(), n) {
                let q = choose|q: int| 0 <= q < es.drop_last().len() && entry_has(#[trigger] es.drop_last()[q], n);
                assert(entry_has(es[q], n));
            }
        }
        lemma_no_entry_glosses(es.drop_last(), n);
        assert(!entry_has(es[es.len() - 1], n));
        assert(entries_glosses(es, n) =~= Seq::<Seq<char>>::empty());
    }
}

proof fn lemma_entries_have_push(es: Seq<YomitanEntry>, e: YomitanEntry, n: usize)
    ensures
        entries_have(es.push(e), n) <==> entries_have(es, n) || entry_has(e, n),
{
    if entries_have(es.push(e), n) {
        let q = choose|q: int| 0 <= q < es.push(e).len() && entry_has(#[trigger] es.push(e)[q], n);
        if q < es.len() {
            assert(entry_has(es[q], n));
        }
    }
    if entries_have(es, n) {
        let q = choose|q: int| 0 <= q < es.len() && entry_has(#[trigger] es[q], n);
        assert(entry_has(es.push(e)[q], n));
    }
    if entry_has(e, n) {
        assert(entry_has(es.push(e)[es.len() as int], n));
    }
}

#[verifier::rlimit(40)]
proof fn lemma_merge_step(
    acc: Seq<UmodSense>,
    ext: Seq<UmodSense>,
    merged: Seq<UmodSense>,
    es: Seq<YomitanEntry>,
    e: YomitanEntry,
)
    requires
        senses_merged(acc, es),
        senses_extracted(e, ext),
        numbers_increase(merged),
        forall|n: usize| has_number(merged, n) <==> has_number(acc + ext, n),
        forall|i: int|
            0 <= i < merged.len() ==> glosses_of(#[trigger] merged[i]) == first_occurrences(
                glosses_numbered(acc + ext, merged[i].number),
            ),
    ensures
        senses_merged(merged, es.push(e)),
{
    let next = es.push(e);
    assert(next.drop_last() =~= es);
    lemma_senses_extracted(e, ext);
    assert forall|n: usize| #[trigger] has_number(merged, n) <==> entries_have(next, n) by {
        lemma_has_number_append(acc, ext, n);
        lemma_entries_have_push(es, e, n);
    }
    assert forall|n: usize| #[trigger]
        glosses_numbered(merged, n) == first_occurrences(entries_glosses(next, n)) by {
        lemma_has_number_append(acc, ext, n);
        lemma_entries_have_push(es, e, n);
        assert(entries_glosses(next, n) == entries_glosses(es, n) + entry_glosses(e, n));
        if has_number(merged, n) {
            let i = choose|i: int| 0 <= i < merged.len() && #[trigger] merged[i].number == n;
            lemma_glosses_numbered_single(merged, i);
            lemma_glosses_numbered_append(acc, ext, n);
            assert(has_number(acc, n) ==> glosses_numbered(acc, n) == first_occurrences(
                entries_glosses(es, n),
            ));
            if !has_number(acc, n) {
                lemma_no_glosses_without_number(acc, n);
                lemma_no_entry_glosses(es, n);
                assert(glosses_numbered(acc, n) == first_occurrences(entries_glosses(es, n)));
            }
            assert(glosses_numbered(acc, n) == first_occurrences(entries_glosses(es, n)));
            lemma_first_occurrences_absorb(entries_glosses(es, n), entry_glosses(e, n));
        } else {
            lemma_no_glosses_without_number(merged, n);
            lemma_senses_extracted(e, ext);
            assert(!has_number(ext, n));
            assert(!entry_has(e, n));
            assert(!entries_have(es, n));
            assert(!entries_have(next, n));
            lemma_no_entry_glosses(next, n);
            assert(first_occurrences(Seq::<Seq<char>>::empty()) =~= Seq::<Seq<char>>::empty());
        }
    }
}

/// Condenses one definition: `None` when its entries give no sense.
fn condense_definition(def: &YomitanDefinition) -> (r: Option<UmodDefinition>)
    ensures
        def_kept(*def) ==> r is Some && def_condensed(r->Some_0, *def),
        !def_kept(*def) ==> r is None,
{
    let ghost es = def.entries@;
    let (priority, tags) = extract_priority_and_tags(def.tags.as_slice());
    let mut grammar = UmodGrammar::default();
    let mut senses: Vec<UmodSense> = Vec::new();
    let mut found: Vec<String> = Vec::new();
    let mut k: usize = 0;
    assert(es.subrange(0, 0) =~= Seq::<YomitanEntry>::empty());
    assert(texts(found@) =~= forms_concat(es.subrange(0, 0)));
    assert forall|n: usize| #[trigger]
        glosses_numbered(senses@, n) == first_occurrences(entries_glosses(es.subrange(0, 0), n)) by {
        assert(glosses_numbered(senses@, n) =~= Seq::<Seq<char>>::empty());
        assert(first_occurrences(Seq::<Seq<char>>::empty()) =~= Seq::<Seq<char>>::empty());
    }
    while k < def.entries.len()
        invariant
            k <= es.len(),
            es == def.entries@,
            grammar_view(grammar) == grammar_fold(es.subrange(0, k as int)),
            senses_merged(senses@, es.subrange(0, k as int)),
            texts(found@) == forms_concat(es.subrange(0, k as int)),
        decreases es.len() - k,
    {
        let ghost prefix = es.subrange(0, k as int);
        let ghost next = es.subrange(0, k + 1);
        assert(next =~= prefix.push(es[k as int]));
        assert(next.drop_last() =~= prefix);
        let entry = &def.entries[k];
        grammar.merge(extract_grammar_from_entry(entry));
        let ext = extract_senses_from_entry(entry);
        let ghost acc = senses@;
        let ghost ext_v = ext@;
        senses = merge_senses(senses, ext);
        proof {
            lemma_merge_step(acc, ext_v, senses@, prefix, es[k as int]);
        }
        let ghost before = found@;
        let mut more = extract_variants_from_entry(entry);
        let ghost more_v = more@;
        found.append(&mut more);
        assert(texts(found@) =~= texts(before) + texts(more_v));
        assert(texts(more_v) == entry_forms(es[k as int]));
        k += 1;
    }
    assert(es.subrange(0, es.len() as int) =~= es);
    let variants = dedup_texts(&found);
    if senses.len() == 0 {
        proof {
            if def_kept(*def) {
                let n = choose|n: usize| entries_have(def.entries@, n);
                assert(has_number(senses@, n));
            }
        }
        return None;
    }
    proof {
        assert(has_number(senses@, senses@[0].number));
        assert(entries_have(def.entries@, senses@[0].number));
        reveal(def_condensed);
    }
    Some(
        UmodDefinition {
            dictionary: def.dictionary.clone(),
            priority,
            tags,
            grammar,
            senses,
            variants,
        },
    )
}

/// `v` with each run of equal texts cut to one.
fn dedup_texts(v: &Vec<String>) -> (r: Vec<String>)
    ensures
        texts(r@) == dedup_adjacent(texts(v@)),
{
    let ghost all = texts(v@);
    let mut out: Vec<String> = Vec::new();
    let mut k: usize = 0;
    while k < v.len()
        invariant
            k <= v@.len(),
            all == texts(v@),
            texts(out@) == dedup_adjacent(all.subrange(0, k as int)),
        decreases v@.len() - k,
    {
        assert(all.subrange(0, k + 1).drop_last() =~= all.subrange(0, k as int));
        let n = out.len();
        if n == 0 || !(out[n - 1] == v[k]) {
            out.push(v[k].clone());
        }
        assert(texts(out@) =~= dedup_adjacent(all.subrange(0, k + 1)));
        k += 1;
    }
    assert(all.subrange(0, all.len() as int) =~= all);
    out
}

/// A copy of a list of texts.
fn copy_texts(v: &Vec<String>) -> (r: Vec<String>)
    ensures
        texts(r@) == texts(v@),
{
    let mut out: Vec<String> = Vec::new();
    let mut k: usize = 0;
    while k < v.len()
        invariant
            k <= v@.len(),
            texts(out@) == texts(v@).subrange(0, k as int),
        decreases v@.len() - k,
    {
        let ghost before = out@;
        let c = v[k].clone();
        assert(c@ == v@[k as int]@);
        out.push(c);
        assert(texts(out@) =~= texts(before).push(c@));
        assert(texts(out@) =~= texts(v@).subrange(0, k + 1));
        k += 1;
    }
    assert(texts(v@).subrange(0, v@.len() as int) =~= texts(v@));
    out
}

/// A copy of an optional text.
fn copy_opt(o: &Option<String>) -> (r: Option<String>)
    ensures
        opt_text(r) == opt_text(*o),
{
    match o {
        Some(s) => Some(s.clone()),
        None => None,
    }
}

/// Appends the parts of speech of a definition's entries.
fn push_entries_pos(def: &YomitanDefinition, all_pos: &mut Vec<String>)
    ensures
        texts(final(all_pos)@) == texts(old(all_pos)@) + entries_pos(def.entries@),
{
    let ghost es = def.entries@;
    let mut k: usize = 0;
    assert(es.subrange(0, 0) =~= Seq::<YomitanEntry>::empty());
    assert(texts(all_pos@) =~= texts(old(all_pos)@) + entries_pos(es.subrange(0, 0)));
    while k < def.entries.len()
        invariant
            k <= es.len(),
            es == def.entries@,
            texts(all_pos@) == texts(old(all_pos)@) + entries_pos(es.subrange(0, k as int)),
        decreases es.len() - k,
    {
        assert(es.subrange(0, k + 1).drop_last() =~= es.subrange(0, k as int));
        let ghost b = all_pos@;
        let mut p = extract_pos_from_entry(&def.entries[k]);
        let ghost pv = p@;
        all_pos.append(&mut p);
        assert(texts(all_pos@) =~= texts(b) + texts(pv));
        assert(texts(pv) == entry_pos(es[k as int]));
        assert(texts(all_pos@) =~= texts(old(all_pos)@) + entries_pos(es.subrange(0, k + 1)));
        k += 1;
    }
    assert(es.subrange(0, es.len() as int) =~= es);
}

/// Condenses one entry: `None` when none of its definitions is kept.
fn condense_entry(de: &YomitanDictionaryEntry) -> (r: Option<UmodDictionaryEntry>)
    ensures
        entry_kept(*de) ==> r is Some && entry_condensed(r->Some_0, *de),
        !entry_kept(*de) ==> r is None,
{
    let ghost defs = de.definitions@;
    let mut all_pos: Vec<String> = Vec::new();
    let mut definitions: Vec<UmodDefinition> = Vec::new();
    let mut j: usize = 0;
    let ghost mut kd: Seq<int> = Seq::empty();
    assert(defs.subrange(0, 0) =~= Seq::<YomitanDefinition>::empty());
    assert(texts(all_pos@) =~= definitions_pos(defs.subrange(0, 0)));
    while j < de.definitions.len()
        invariant
            j <= defs.len(),
            defs == de.definitions@,
            texts(all_pos@) == definitions_pos(defs.subrange(0, j as int)),
            kd == kept_defs(defs.subrange(0, j as int)),
            definitions@.len() == kd.len(),
            forall|q: int|
                0 <= q < definitions@.len() ==> def_condensed(#[trigger] definitions@[q], defs[kd[q]]),
        decreases defs.len() - j,
    {
        let ghost prefix = defs.subrange(0, j as int);
        let ghost next = defs.subrange(0, j + 1);
        assert(next.drop_last() =~= prefix);
        let def = &de.definitions[j];
        let ghost pos_before = all_pos@;
        push_entries_pos(def, &mut all_pos);
        assert(texts(all_pos@) =~= definitions_pos(next));
        let ghost out_before = definitions@;
        let ghost old_k = kd;
        assert forall|q: int| 0 <= q < out_before.len() implies def_condensed(
            #[trigger] out_before[q],
            defs[old_k[q]],
        ) by {
            assert(0 <= q < definitions@.len());
            assert(definitions@[q] == out_before[q]);
        }
        assert(def == defs[j as int]);
        let condensed = condense_definition(def);
        let ghost c = condensed;
        if let Some(d) = condensed {
            definitions.push(d);
        }
        proof {
            if c is Some {
                assert(def_kept(defs[j as int]));
                assert(kept_defs(next) =~= old_k.push(j as int));
                assert(definitions@ =~= out_before.push(c->Some_0));
            } else {
                assert(!def_kept(defs[j as int]));
                assert(kept_defs(next) =~= old_k);
                assert(definitions@ =~= out_before);
            }
            kd = kept_defs(next);
            assert forall|q: int|
                0 <= q < definitions@.len() implies def_condensed(
                #[trigger] definitions@[q],
                defs[kd[q]],
            ) by {
                if q < out_before.len() {
                    assert(definitions@[q] == out_before[q]);
                    assert(kd[q] == old_k[q]);
                } else {
                    assert(definitions@[q] == c->Some_0);
                    assert(kd[q] == j);
                }
            }
        }
        j += 1;
    }
    assert(defs.subrange(0, defs.len() as int) =~= defs);
    if definitions.len() == 0 {
        return None;
    }
    let pos_tags = sort_pos_names(&all_pos);
    let ghost pos = texts(pos_tags@);
    let mut headwords: Vec<UmodHeadword> = Vec::new();
    let mut i: usize = 0;
    while i < de.headwords.len()
        invariant
            i <= de.headwords@.len(),
            pos == texts(pos_tags@),
            headwords@.len() == i,
            forall|q: int|
                0 <= q < i ==> headword_condensed(#[trigger] headwords@[q], de.headwords@[q], pos),
        decreases de.headwords@.len() - i,
    {
        let h = &de.headwords[i];
        let classes = if h.word_classes.len() == 0 {
            copy_texts(&pos_tags)
        } else {
            copy_texts(&h.word_classes)
        };
        headwords.push(
            UmodHeadword { term: h.term.clone(), reading: copy_opt(&h.reading), word_classes: classes },
        );
        i += 1;
    }
    let mut frequencies: Vec<UmodFrequency> = Vec::new();
    let mut i: usize = 0;
    while i < de.frequencies.len()
        invariant
            i <= de.frequencies@.len(),
            frequencies@.len() == i,
            forall|q: int|
                0 <= q < i ==> frequency_condensed(#[trigger] frequencies@[q], de.frequencies@[q]),
        decreases de.frequencies@.len() - i,
    {
        let f = &de.frequencies[i];
        frequencies.push(
            UmodFrequency {
                dictionary: f.dictionary.clone(),
                display_value: copy_opt(&f.display_value),
                frequency: f.frequency,
            },
        );
        i += 1;
    }
    proof {
        reveal(entry_condensed);
    }
    Some(UmodDictionaryEntry { headwords, definitions, frequencies })
}

/// Condenses a term-entries reply for `query`: the kept entries in order,
/// each with its headwords, kept definitions and frequencies.
pub fn condense_term_entries(query: &str, raw: &YomitanTermEntriesResponse) -> (r: UmodTermEntries)
    ensures
        r.query@ == query@,
        r.original_text_length == raw.original_text_length,
        r.entries@.len() == kept_entries(raw.dictionary_entries@).len(),
        forall|i: int|
            0 <= i < r.entries@.len() ==> entry_condensed(
                #[trigger] r.entries@[i],
                raw.dictionary_entries@[kept_entries(raw.dictionary_entries@)[i]],
            ),
{
    let ghost des = raw.dictionary_entries@;
    let mut entries: Vec<UmodDictionaryEntry> = Vec::new();
    let mut j: usize = 0;
    let ghost mut ke: Seq<int> = Seq::empty();
    assert(des.subrange(0, 0) =~= Seq::<YomitanDictionaryEntry>::empty());
    while j < raw.dictionary_entries.len()
        invariant
            j <= des.len(),
            des == raw.dictionary_entries@,
            ke == kept_entries(des.subrange(0, j as int)),
            entries@.len() == ke.len(),
            forall|q: int|
                0 <= q < entries@.len() ==> entry_condensed(#[trigger] entries@[q], des[ke[q]]),
        decreases des.len() - j,
    {
        let ghost prefix = des.subrange(0, j as int);
        let ghost next = des.subrange(0, j + 1);
        assert(next.drop_last() =~= prefix);
        let ghost out_before = entries@;
        let ghost old_k = ke;
        assert forall|q: int| 0 <= q < out_before.len() implies entry_condensed(
            #[trigger] out_before[q],
            des[old_k[q]],
        ) by {
            assert(0 <= q < entries@.len());
            assert(entries@[q] == out_before[q]);
        }
        let condensed = condense_entry(&raw.dictionary_entries[j]);
        let ghost c = condensed;
        if let Some(e) = condensed {
            entries.push(e);
        }
        proof {
            if c is Some {
                assert(entry_kept(des[j as int]));
                assert(kept_entries(next) =~= old_k.push(j as int));
                assert(entries@ =~= out_before.push(c->Some_0));
            } else {
                assert(!entry_kept(des[j as int]));
                assert(kept_entries(next) =~= old_k);
                assert(entries@ =~= out_before);
            }
            assert forall|q: int|
                0 <= q < entries@.len() implies entry_condensed(
                #[trigger] entries@[q],
                des[kept_entries(next)[q]],
            ) by {
                if q < out_before.len() {
                    assert(entries@[q] == out_before[q]);
                    assert(kept_entries(next)[q] == old_k[q]);
                } else {
                    assert(entries@[q] == c->Some_0);
                    assert(kept_entries(next)[q] == j);
                }
            }
            ke = kept_entries(next);
        }
        j += 1;
    }
    assert(des.subrange(0, des.len() as int) =~= des);
    UmodTermEntries {
        query: query.to_owned(),
        original_text_length: raw.original_text_length,
        entries,
    }
}

} // verus!
