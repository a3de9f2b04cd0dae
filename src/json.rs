//! A JSON value held as an arena of nodes in pre-order: node `i`'s subtree is
//! the run of nodes from `i` up to its `end`, and an object's members point
//! at the nodes of their values, in the order the object lists them.
use vstd::prelude::*;
use crate::extract::same_text;

verus! {

/// What a node holds.
#[derive(Clone, Copy, Debug, PartialEq, Eq, Structural)]
pub enum JsonKind {
    Null,
    Bool,
    Number,
    Str,
    Array,
    Object,
}

/// A member of an object: its key and the index of its value's node.
#[derive(Clone, Debug, PartialEq, Eq)]
pub struct JsonMember {
    pub key: String,
    pub value: usize,
}

/// One value. `text` is a string's contents (or a number's or a boolean's
/// spelling); `members` are an object's; `end` is one past the last node of
/// the subtree.
#[derive(Clone, Debug, PartialEq, Eq)]
pub struct JsonNode {
    pub kind: JsonKind,
    pub text: String,
    pub members: Vec<JsonMember>,
    pub end: usize,
}

/// A JSON document; its root is node 0.
#[derive(Clone, Debug, PartialEq, Eq)]
pub struct JsonDoc {
    pub nodes: Vec<JsonNode>,
}

/// The value index of the first member keyed `key`.
pub open spec fn find_key(ms: Seq<JsonMember>, key: Seq<char>) -> Option<usize>
    decreases ms.len(),
{
    if ms.len() == 0 {
        None
    } else if ms[0].key@ == key {
        Some(ms[0].value)
    } else {
        find_key(ms.skip(1), key)
    }
}

/// Whether node `i` exists and is an object.
pub open spec fn is_object(d: Seq<JsonNode>, i: int) -> bool {
    0 <= i < d.len() && d[i].kind == JsonKind::Object
}

/// The node of member `key` of object `i`, when there is one.
pub open spec fn member(d: Seq<JsonNode>, i: int, key: Seq<char>) -> Option<int> {
    if is_object(d, i) {
        match find_key(d[i].members@, key) {
            Some(v) => if v < d.len() {
                Some(v as int)
            } else {
                None
            },
            None => None,
        }
    } else {
        None
    }
}

/// The string held by member `key` of object `i`, when it is a string.
pub open spec fn str_member(d: Seq<JsonNode>, i: int, key: Seq<char>) -> Option<Seq<char>> {
    match member(d, i, key) {
        Some(k) => if d[k].kind == JsonKind::Str {
            Some(d[k].text@)
        } else {
            None
        },
        None => None,
    }
}

/// The string held by member `key` of the `data` object of object `i`.
pub open spec fn data_str(d: Seq<JsonNode>, i: int, key: Seq<char>) -> Option<Seq<char>> {
    match member(d, i, "data"@) {
        Some(k) => str_member(d, k, key),
        None => None,
    }
}

/// One past the last node of node `i`'s subtree, kept within the document
/// and never before `i + 1`.
pub open spec fn subtree_end(d: Seq<JsonNode>, i: int) -> int {
    if d[i].end <= i {
        i + 1
    } else if d[i].end > d.len() {
        d.len() as int
    } else {
        d[i].end as int
    }
}

impl JsonDoc {
    /// The node of member `key` of object `i`.
    pub fn member(&self, i: usize, key: &str) -> (r: Option<usize>)
        ensures
            match r {
                Some(k) => member(self.nodes@, i as int, key@) == Some(k as int),
                None => member(self.nodes@, i as int, key@) is None,
            },
    {
        if i >= self.nodes.len() || self.nodes[i].kind != JsonKind::Object {
            return None;
        }
        let ms = &self.nodes[i].members;
        let ghost all = ms@;
        let mut q: usize = 0;
        assert(all.skip(0) =~= all);
        while q < ms.len()
            invariant
                q <= ms@.len(),
                all == ms@,
                i < self.nodes@.len(),
                self.nodes@[i as int].kind == JsonKind::Object,
                all == self.nodes@[i as int].members@,
                find_key(all, key@) == find_key(all.skip(q as int), key@),
            decreases ms@.len() - q,
        {
            assert(all.skip(q as int).skip(1) =~= all.skip(q + 1));
            assert(all.skip(q as int)[0] == all[q as int]);
            if same_text(ms[q].key.as_str(), key) {
                let v = ms[q].value;
                if v < self.nodes.len() {
                    return Some(v);
                } else {
                    return None;
                }
            }
            q += 1;
        }
        None
    }

    /// The string held by member `key` of object `i`.
    pub fn str_member(&self, i: usize, key: &str) -> (r: Option<&str>)
        ensures
            match r {
                Some(s) => str_member(self.nodes@, i as int, key@) == Some(s@),
                None => str_member(self.nodes@, i as int, key@) is None,
            },
    {
        match self.member(i, key) {
            Some(k) => if self.nodes[k].kind == JsonKind::Str {
                Some(self.nodes[k].text.as_str())
            } else {
                None
            },
            None => None,
        }
    }

    /// The string held by member `key` of the `data` object of object `i`.
    pub fn data_str(&self, i: usize, key: &str) -> (r: Option<&str>)
        ensures
            match r {
                Some(s) => data_str(self.nodes@, i as int, key@) == Some(s@),
                None => data_str(self.nodes@, i as int, key@) is None,
            },
    {
        match self.member(i, "data") {
            Some(k) => self.str_member(k, key),
            None => None,
        }
    }

    /// One past the last node of node `i`'s subtree.
    pub fn subtree_end(&self, i: usize) -> (r: usize)
        requires
            i < self.nodes@.len(),
        ensures
            r == subtree_end(self.nodes@, i as int),
    {
        let n = self.nodes.len();
        let e = self.nodes[i].end;
        if e <= i {
            i + 1
        } else if e > n {
            n
        } else {
            e
        }
    }
}

} // verus!
