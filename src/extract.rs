//! Condensing steps on dictionary data: tag filtering, part-of-speech
//! names, and the merging of numbered senses.
use vstd::prelude::*;
use crate::dictionary::{UmodSense, YomitanTag};

verus! {

/// The tag shown for popular terms: a black star.
pub const STAR_TAG: &'static str = "\u{2605}";

/// Whether `p` occurs in `s` as a run of consecutive characters.
pub open spec fn has_substring(s: Seq<char>, p: Seq<char>) -> bool {
    exists|i: int| 0 <= i && i + p.len() <= s.len() && #[trigger] s.subrange(i, i + p.len()) == p
}

/// The text with leading and trailing white space removed.
pub uninterp spec fn trimmed(s: Seq<char>) -> Seq<char>;

/// Relies on `str::contains` with a `&str` pattern: whether the pattern occurs
/// in the text.
#[verifier::external_body]
fn text_contains(s: &str, pat: &str) -> (r: bool)
    ensures
        r == has_substring(s@, pat@),
{
    s.contains(pat)
}

/// Relies on `str::trim`: the text without leading and trailing white space,
/// which depends on the text alone.
#[verifier::external_body]
pub(crate) fn trim_text<'a>(s: &'a str) -> (r: &'a str)
    ensures
        r@ == trimmed(s@),
{
    s.trim()
}

/// Whether two texts are equal.
pub fn same_text(a: &str, b: &str) -> (r: bool)
    ensures
        r == (a@ == b@),
{
    let n = a.unicode_len();
    if n != b.unicode_len() {
        return false;
    }
    let mut i: usize = 0;
    while i < n
        invariant
            n == a@.len(),
            n == b@.len(),
            i <= n,
            forall|k: int| 0 <= k < i ==> a@[k] == b@[k],
        decreases n - i,
    {
        if a.get_char(i) != b.get_char(i) {
            return false;
        }
        i += 1;
    }
    assert(a@ =~= b@);
    true
}

/// Whether a tag named `name` is kept, given `name` with its surrounding
/// white space removed.
pub open spec fn tag_shown(name: Seq<char>, trimmed_name: Seq<char>) -> bool {
    trimmed_name == STAR_TAG@ || has_substring(name, "priority"@)
}

/// The names of the tags that are kept, in order.
pub open spec fn shown_tags(tags: Seq<YomitanTag>) -> Seq<Seq<char>>
    decreases tags.len(),
{
    if tags.len() == 0 {
        seq![]
    } else {
        let rest = shown_tags(tags.drop_last());
        let name = tags.last().name@;
        if tag_shown(name, trimmed(name)) {
            rest.push(name)
        } else {
            rest
        }
    }
}

/// Whether a tag is kept: its trimmed name (`trimmed_name`) is the star, or
/// its name mentions priority.
pub fn is_shown_tag(name: &str, trimmed_name: &str) -> (r: bool)
    ensures
        r == tag_shown(name@, trimmed_name@),
{
    same_text(trimmed_name, STAR_TAG) || text_contains(name, "priority")
}

/// Whether any tag marks priority, and the names of the tags to show: the
/// star and those that mention priority, in order.
pub fn extract_priority_and_tags(tags: &[YomitanTag]) -> (r: (bool, Vec<String>))
    ensures
        r.0 == exists|i: int| 0 <= i < tags@.len() && has_substring(#[trigger] tags@[i].name@, "priority"@),
        r.1@.map_values(|s: String| s@) == shown_tags(tags@),
{
    let mut priority = false;
    let mut out: Vec<String> = Vec::new();
    let mut i: usize = 0;
    while i < tags.len()
        invariant
            i <= tags@.len(),
            priority == exists|k: int| 0 <= k < i && has_substring(#[trigger] tags@[k].name@, "priority"@),
            out@.map_values(|s: String| s@) == shown_tags(tags@.subrange(0, i as int)),
        decreases tags@.len() - i,
    {
        let name = &tags[i].name;
        let mentions = text_contains(name.as_str(), "priority");
        if mentions {
            priority = true;
        }
        let kept = is_shown_tag(name.as_str(), trim_text(name.as_str()));
        assert(tags@.subrange(0, i + 1).drop_last() =~= tags@.subrange(0, i as int));
        if kept {
            out.push(name.clone());
        }
        assert(out@.map_values(|s: String| s@) =~= shown_tags(tags@.subrange(0, i + 1)));
        i += 1;
    }
    assert(tags@.subrange(0, tags@.len() as int) =~= tags@);
    (priority, out)
}

/// The canonical name of a part-of-speech code.
pub open spec fn pos_name(code: Seq<char>) -> Option<Seq<char>> {
    if code == "n"@ || code == "pn"@ {
        Some("noun"@)
    } else if code == "v1"@ {
        Some("ichidan"@)
    } else if code == "v5"@ {
        Some("godan"@)
    } else if code == "vs"@ {
        Some("suru-verb"@)
    } else if code == "vk"@ {
        Some("kuru-verb"@)
    } else if code == "adj-i"@ {
        Some("i-adjective"@)
    } else if code == "adj-no"@ || code == "adj-na"@ {
        Some("na-adjective"@)
    } else if code == "adj-pn"@ {
        Some("prenominal-adjective"@)
    } else if code == "adv"@ {
        Some("adverb"@)
    } else if code == "prt"@ {
        Some("particle"@)
    } else if code == "conj"@ {
        Some("conjunction"@)
    } else if code == "int"@ {
        Some("interjection"@)
    } else if code == "pref"@ {
        Some("prefix"@)
    } else if code == "suf"@ {
        Some("suffix"@)
    } else if code == "exp"@ {
        Some("expression"@)
    } else if code == "num"@ {
        Some("numeric"@)
    } else if code == "ctr"@ {
        Some("counter"@)
    } else {
        None
    }
}

/// The canonical name of a part-of-speech code, or `None` for a code that
/// has none.
pub fn normalize_pos(code: &str) -> (r: Option<&'static str>)
    ensures
        match r {
            Some(name) => pos_name(code@) == Some(name@),
            None => pos_name(code@) is None,
        },
{
    if same_text(code, "n") || same_text(code, "pn") {
        Some("noun")
    } else if same_text(code, "v1") {
        Some("ichidan")
    } else if same_text(code, "v5") {
        Some("godan")
    } else if same_text(code, "vs") {
        Some("suru-verb")
    } else if same_text(code, "vk") {
        Some("kuru-verb")
    } else if same_text(code, "adj-i") {
        Some("i-adjective")
    } else if same_text(code, "adj-no") || same_text(code, "adj-na") {
        Some("na-adjective")
    } else if same_text(code, "adj-pn") {
        Some("prenominal-adjective")
    } else if same_text(code, "adv") {
        Some("adverb")
    } else if same_text(code, "prt") {
        Some("particle")
    } else if same_text(code, "conj") {
        Some("conjunction")
    } else if same_text(code, "int") {
        Some("interjection")
    } else if same_text(code, "pref") {
        Some("prefix")
    } else if same_text(code, "suf") {
        Some("suffix")
    } else if same_text(code, "exp") {
        Some("expression")
    } else if same_text(code, "num") {
        Some("numeric")
    } else if same_text(code, "ctr") {
        Some("counter")
    } else {
        None
    }
}

/// The glosses of a sense, as texts.
pub open spec fn glosses_of(s: UmodSense) -> Seq<Seq<char>> {
    s.glosses@.map_values(|g: String| g@)
}

/// The glosses of all senses numbered `n`, in order.
pub open spec fn glosses_numbered(c: Seq<UmodSense>, n: usize) -> Seq<Seq<char>>
    decreases c.len(),
{
    if c.len() == 0 {
        seq![]
    } else {
        glosses_numbered(c.drop_last(), n) + if c.last().number == n {
            glosses_of(c.last())
        } else {
            seq![]
        }
    }
}

/// The texts of `s` with every repeat of an earlier text left out.
pub open spec fn first_occurrences(s: Seq<Seq<char>>) -> Seq<Seq<char>>
    decreases s.len(),
{
    if s.len() == 0 {
        seq![]
    } else {
        let d = first_occurrences(s.drop_last());
        if d.contains(s.last()) {
            d
        } else {
            d.push(s.last())
        }
    }
}

/// Some sense of `c` is numbered `n`.
pub open spec fn has_number(c: Seq<UmodSense>, n: usize) -> bool {
    exists|i: int| 0 <= i < c.len() && #[trigger] c[i].number == n
}

/// Sense numbers increase strictly along `c`.
pub open spec fn numbers_increase(c: Seq<UmodSense>) -> bool {
    forall|i: int, j: int| 0 <= i < j < c.len() ==> #[trigger] c[i].number < #[trigger] c[j].number
}

pub proof fn lemma_no_glosses_without_number(c: Seq<UmodSense>, n: usize)
    requires
        !has_number(c, n),
    ensures
        glosses_numbered(c, n) == Seq::<Seq<char>>::empty(),
    decreases c.len(),
{
    if c.len() > 0 {
        assert(!has_number(c.drop_last(), n)) by {
            if has_number(c.drop_last(), n) {
                let i = choose|i: int| 0 <= i < c.drop_last().len() && #[trigger] c.drop_last()[i].number == n;
                assert(c[i].number == n);
            }
        }
        lemma_no_glosses_without_number(c.drop_last(), n);
        assert(c[c.len() - 1].number != n);
        assert(glosses_numbered(c, n) =~= Seq::<Seq<char>>::empty());
    }
}

/// Whether `text` is among `list`.
pub(crate) fn contains_text(list: &Vec<String>, text: &String) -> (r: bool)
    ensures
        r == list@.map_values(|g: String| g@).contains(text@),
{
    let ghost v = list@.map_values(|g: String| g@);
    let mut q: usize = 0;
    while q < list.len()
        invariant
            q <= list@.len(),
            v == list@.map_values(|g: String| g@),
            forall|t: int| 0 <= t < q ==> v[t] != text@,
        decreases list@.len() - q,
    {
        if list[q] == *text {
            assert(v[q as int] == text@);
            return true;
        }
        q += 1;
    }
    false
}

/// Appends to `dst` each text of `more` that it does not hold yet.
fn add_glosses(dst: &mut Vec<String>, more: &Vec<String>, Ghost(seen): Ghost<Seq<Seq<char>>>)
    requires
        old(dst)@.map_values(|g: String| g@) == first_occurrences(seen),
    ensures
        final(dst)@.map_values(|g: String| g@) == first_occurrences(
            seen + more@.map_values(|g: String| g@),
        ),
{
    let ghost m = more@.map_values(|g: String| g@);
    let mut j: usize = 0;
    while j < more.len()
        invariant
            j <= more@.len(),
            m == more@.map_values(|g: String| g@),
            dst@.map_values(|g: String| g@) == first_occurrences(seen + m.subrange(0, j as int)),
        decreases more@.len() - j,
    {
        let ghost prev = seen + m.subrange(0, j as int);
        assert((seen + m.subrange(0, j + 1)).drop_last() =~= prev);
        assert((seen + m.subrange(0, j + 1)).last() == m[j as int]);
        if !contains_text(dst, &more[j]) {
            dst.push(more[j].clone());
            assert(dst@.map_values(|g: String| g@) =~= first_occurrences(prev).push(m[j as int]));
        }
        j += 1;
    }
    assert(m.subrange(0, m.len() as int) =~= m);
}

/// Merges two lists of senses: one sense per number, in increasing order of
/// number, holding the glosses of every sense with that number, first those
/// of `a` and then those of `b` in order, each text once.
pub fn merge_senses(a: Vec<UmodSense>, b: Vec<UmodSense>) -> (r: Vec<UmodSense>)
    ensures
        numbers_increase(r@),
        forall|n: usize| has_number(r@, n) <==> has_number(a@ + b@, n),
        forall|i: int|
            0 <= i < r@.len() ==> glosses_of(#[trigger] r@[i]) == first_occurrences(
                glosses_numbered(a@ + b@, r@[i].number),
            ),
{
    let ghost c = a@ + b@;
    let mut all = a;
    let mut rest = b;
    all.append(&mut rest);
    let mut groups: Vec<UmodSense> = Vec::new();
    let mut k: usize = 0;
    while k < all.len()
        invariant
            all@ == c,
            k <= c.len(),
            numbers_increase(groups@),
            forall|n: usize| has_number(groups@, n) <==> has_number(c.subrange(0, k as int), n),
            forall|i: int|
                0 <= i < groups@.len() ==> glosses_of(#[trigger] groups@[i]) == first_occurrences(
                    glosses_numbered(c.subrange(0, k as int), groups@[i].number),
                ),
        decreases c.len() - k,
    {
        let ghost prefix = c.subrange(0, k as int);
        let ghost next = c.subrange(0, k + 1);
        let ghost old_groups = groups@;
        assert(next.drop_last() =~= prefix);
        let s = &all[k];
        let n = s.number;
        let mut i: usize = 0;
        while i < groups.len() && groups[i].number < n
            invariant
                i <= groups@.len(),
                groups@ == old_groups,
                forall|q: int| 0 <= q < i ==> #[trigger] groups@[q].number < n,
            decreases groups@.len() - i,
        {
            i += 1;
        }
        assert forall|m: usize| #[trigger] glosses_numbered(next, m) == glosses_numbered(prefix, m)
            + if m == n {
            glosses_of(*s)
        } else {
            seq![]
        } by {}
        assert forall|m: usize| has_number(next, m) <==> has_number(prefix, m) || m == n by {
            if has_number(next, m) && m != n {
                let q = choose|q: int| 0 <= q < next.len() && #[trigger] next[q].number == m;
                assert(prefix[q].number == m);
            }
            if has_number(prefix, m) {
                let q = choose|q: int| 0 <= q < prefix.len() && #[trigger] prefix[q].number == m;
                assert(next[q].number == m);
            }
            if m == n {
                assert(next[k as int].number == m);
            }
        }
        if i < groups.len() && groups[i].number == n {
            let mut g = groups.remove(i);
            assert(g == old_groups[i as int]);
            add_glosses(&mut g.glosses, &s.glosses, Ghost(glosses_numbered(prefix, n)));
            groups.insert(i, g);
            assert(groups@ =~= old_groups.update(i as int, g));
            assert(old_groups[i as int].number == n);
            assert(has_number(old_groups, n));
            assert forall|m: usize| has_number(groups@, m) <==> has_number(old_groups, m) by {
                if has_number(groups@, m) {
                    let q = choose|q: int| 0 <= q < groups@.len() && #[trigger] groups@[q].number == m;
                    assert(old_groups[q].number == m);
                }
                if has_number(old_groups, m) {
                    let q = choose|q: int| 0 <= q < old_groups.len() && #[trigger] old_groups[q].number == m;
                    assert(groups@[q].number == m);
                }
            }
        } else {
            assert(!has_number(prefix, n)) by {
                if has_number(old_groups, n) {
                    let q = choose|q: int| 0 <= q < old_groups.len() && #[trigger] old_groups[q].number == n;
                    if q < i {
                    } else if q == i {
                    } else {
                        assert(old_groups[i as int].number < old_groups[q].number);
                    }
                }
            }
            proof {
                lemma_no_glosses_without_number(prefix, n);
            }
            let mut gl: Vec<String> = Vec::new();
            assert(gl@.map_values(|g: String| g@) =~= first_occurrences(Seq::<Seq<char>>::empty()));
            add_glosses(&mut gl, &s.glosses, Ghost(Seq::<Seq<char>>::empty()));
            assert(Seq::<Seq<char>>::empty() + glosses_of(*s) =~= glosses_numbered(prefix, n)
                + glosses_of(*s));
            let fresh = UmodSense { number: n, glosses: gl };
            groups.insert(i, fresh);
            assert forall|q: int| 0 <= q < groups@.len() implies (q < i ==> groups@[q] == old_groups[q])
                && (q == i ==> groups@[q] == fresh) && (q > i ==> groups@[q] == old_groups[q - 1]) by {}
            assert forall|m: usize| has_number(groups@, m) <==> has_number(old_groups, m) || m == n by {
                if has_number(groups@, m) && m != n {
                    let q = choose|q: int| 0 <= q < groups@.len() && #[trigger] groups@[q].number == m;
                    if q < i {
                        assert(old_groups[q].number == m);
                    } else {
                        assert(old_groups[q - 1].number == m);
                    }
                }
                if has_number(old_groups, m) {
                    let q = choose|q: int| 0 <= q < old_groups.len() && #[trigger] old_groups[q].number == m;
                    if q < i {
                        assert(groups@[q].number == m);
                    } else {
                        assert(groups@[q + 1].number == m);
                    }
                }
                if m == n {
                    assert(groups@[i as int].number == m);
                }
            }
        }
        assert forall|m: usize| has_number(groups@, m) <==> has_number(next, m) by {
            assert(has_number(old_groups, m) <==> has_number(prefix, m));
            assert(has_number(next, m) <==> has_number(prefix, m) || m == n);
            assert(has_number(groups@, m) <==> has_number(old_groups, m) || m == n);
        }
        k += 1;
    }
    assert(c.subrange(0, c.len() as int) =~= c);
    groups
}

/// No text occurs twice in `s`.
pub open spec fn no_repeats(s: Seq<Seq<char>>) -> bool {
    forall|i: int, j: int| 0 <= i < j < s.len() ==> s[i] != s[j]
}

proof fn lemma_first_occurrences_no_repeats(s: Seq<Seq<char>>)
    ensures
        no_repeats(first_occurrences(s)),
    decreases s.len(),
{
    if s.len() > 0 {
        lemma_first_occurrences_no_repeats(s.drop_last());
        let d = first_occurrences(s.drop_last());
        if !d.contains(s.last()) {
            assert forall|i: int, j: int| 0 <= i < j < d.push(s.last()).len() implies d.push(
                s.last(),
            )[i] != d.push(s.last())[j] by {
                if j == d.len() {
                    assert(d[i] != s.last());
                }
            }
        }
    }
}

proof fn lemma_first_occurrences_of_no_repeats(s: Seq<Seq<char>>)
    requires
        no_repeats(s),
    ensures
        first_occurrences(s) == s,
    decreases s.len(),
{
    if s.len() > 0 {
        lemma_first_occurrences_of_no_repeats(s.drop_last());
        assert(!s.drop_last().contains(s.last())) by {
            if s.drop_last().contains(s.last()) {
                let i = choose|i: int| 0 <= i < s.drop_last().len() && s.drop_last()[i] == s.last();
                assert(s[i] == s[s.len() - 1]);
            }
        }
        assert(s.drop_last().push(s.last()) =~= s);
    }
}

/// Dropping repeats first changes nothing: the first occurrences of
/// `first_occurrences(a) + b` are those of `a + b`.
pub proof fn lemma_first_occurrences_absorb(a: Seq<Seq<char>>, b: Seq<Seq<char>>)
    ensures
        first_occurrences(first_occurrences(a) + b) == first_occurrences(a + b),
    decreases b.len(),
{
    if b.len() == 0 {
        assert(first_occurrences(a) + b =~= first_occurrences(a));
        assert(a + b =~= a);
        lemma_first_occurrences_no_repeats(a);
        lemma_first_occurrences_of_no_repeats(first_occurrences(a));
    } else {
        lemma_first_occurrences_absorb(a, b.drop_last());
        assert((first_occurrences(a) + b).drop_last() =~= first_occurrences(a) + b.drop_last());
        assert((a + b).drop_last() =~= a + b.drop_last());
    }
}

/// The glosses numbered `n` of two lists are those of the first, then those
/// of the second.
pub proof fn lemma_glosses_numbered_append(a: Seq<UmodSense>, b: Seq<UmodSense>, n: usize)
    ensures
        glosses_numbered(a + b, n) == glosses_numbered(a, n) + glosses_numbered(b, n),
    decreases b.len(),
{
    if b.len() == 0 {
        assert(a + b =~= a);
        assert(glosses_numbered(a, n) + glosses_numbered(b, n) =~= glosses_numbered(a, n));
    } else {
        lemma_glosses_numbered_append(a, b.drop_last(), n);
        assert((a + b).drop_last() =~= a + b.drop_last());
        assert(glosses_numbered(a + b, n) =~= glosses_numbered(a, n) + glosses_numbered(b, n));
    }
}

/// In a list whose numbers increase, the glosses numbered `n` are those of
/// the one sense with that number.
pub proof fn lemma_glosses_numbered_single(r: Seq<UmodSense>, i: int)
    requires
        numbers_increase(r),
        0 <= i < r.len(),
    ensures
        glosses_numbered(r, r[i].number) == glosses_of(r[i]),
    decreases r.len(),
{
    let n = r[i].number;
    if i == r.len() - 1 {
        assert(!has_number(r.drop_last(), n)) by {
            if has_number(r.drop_last(), n) {
                let q = choose|q: int| 0 <= q < r.drop_last().len() && #[trigger] r.drop_last()[q].number == n;
                assert(r[q].number < r[i].number);
            }
        }
        lemma_no_glosses_without_number(r.drop_last(), n);
        assert(glosses_numbered(r, n) =~= glosses_of(r[i]));
    } else {
        assert(numbers_increase(r.drop_last()));
        assert(r.drop_last()[i] == r[i]);
        lemma_glosses_numbered_single(r.drop_last(), i);
        assert(r[r.len() - 1].number > n);
        assert(glosses_numbered(r, n) =~= glosses_numbered(r.drop_last(), n));
    }
}

/// Some sense of `a + b` is numbered `n` exactly when one of `a` or of `b` is.
pub proof fn lemma_has_number_append(a: Seq<UmodSense>, b: Seq<UmodSense>, n: usize)
    ensures
        has_number(a + b, n) <==> has_number(a, n) || has_number(b, n),
{
    if has_number(a + b, n) {
        let q = choose|q: int| 0 <= q < (a + b).len() && #[trigger] (a + b)[q].number == n;
        if q < a.len() {
            assert(a[q].number == n);
        } else {
            assert(b[q - a.len()].number == n);
        }
    }
    if has_number(a, n) {
        let q = choose|q: int| 0 <= q < a.len() && #[trigger] a[q].number == n;
        assert((a + b)[q].number == n);
    }
    if has_number(b, n) {
        let q = choose|q: int| 0 <= q < b.len() && #[trigger] b[q].number == n;
        assert((a + b)[q + a.len()].number == n);
    }
}

} // verus!
