//! Messages exchanged with the dictionary server, and the flattening of its
//! tokenizer's answer into plain tokens.
use vstd::prelude::*;
use crate::dictionary::UmodTermEntries;

verus! {

/// A request to split text into tokens.
#[derive(Clone, Debug, PartialEq, Eq)]
pub struct TokenizeRequest {
    pub text: String,
    pub scan_length: u32,
}

/// One parse of the tokenizer: groups of pieces, each group one token.
#[derive(Clone, Debug, PartialEq, Eq)]
pub struct TokenizeItem {
    pub id: String,
    pub source: String,
    pub dictionary: Option<String>,
    pub content: Vec<Vec<TokenContent>>,
}

/// A piece of a token with its reading.
#[derive(Clone, Debug, PartialEq, Eq)]
pub struct TokenContent {
    pub text: String,
    pub reading: String,
}

/// The tokens of a text.
#[derive(Clone, Debug, PartialEq, Eq)]
pub struct TokenizeResponse {
    pub tokens: Vec<TokenInfo>,
}

/// One token.
#[derive(Clone, Debug, PartialEq, Eq)]
pub struct TokenInfo {
    pub term: String,
}

/// A request for the dictionary entries of a term.
#[derive(Clone, Debug, PartialEq, Eq)]
pub struct TermEntriesRequest {
    pub term: String,
}

/// A request for the entries of one kanji.
#[derive(Clone, Debug, PartialEq, Eq)]
pub struct KanjiEntriesRequest {
    pub character: String,
}

/// The entries of one kanji.
#[derive(Clone, Debug, PartialEq, Eq)]
pub struct KanjiEntriesResponse {
    pub entries: Vec<KanjiEntry>,
}

/// A kanji with its readings and meanings; `kind` is the entry's type.
#[derive(Clone, Debug, PartialEq, Eq)]
pub struct KanjiEntry {
    pub kind: String,
    pub character: String,
    pub onyomi: Vec<String>,
    pub kunyomi: Vec<String>,
    pub definitions: Vec<String>,
}

/// Everything found for a looked-up text.
#[derive(Clone, Debug, PartialEq, Eq)]
pub struct LookupResult {
    pub token: TokenInfo,
    pub term_entries: UmodTermEntries,
    pub kanji_entries: KanjiEntriesResponse,
}

/// The texts of a group's pieces, joined in order.
pub open spec fn joined(group: Seq<TokenContent>) -> Seq<char>
    decreases group.len(),
{
    if group.len() == 0 {
        seq![]
    } else {
        joined(group.drop_last()) + group.last().text@
    }
}

/// The tokens of the tokenizer's first parse: one per group, its pieces'
/// texts joined. No parse gives no tokens.
pub fn flatten_tokens(raw: &Vec<TokenizeItem>) -> (r: TokenizeResponse)
    ensures
        raw@.len() == 0 ==> r.tokens@.len() == 0,
        raw@.len() > 0 ==> {
            &&& r.tokens@.len() == raw@[0].content@.len()
            &&& forall|i: int|
                0 <= i < r.tokens@.len() ==> #[trigger] r.tokens@[i].term@ == joined(
                    raw@[0].content@[i]@,
                )
        },
{
    let mut tokens: Vec<TokenInfo> = Vec::new();
    if raw.len() > 0 {
        let groups = &raw[0].content;
        let mut i: usize = 0;
        while i < groups.len()
            invariant
                i <= groups@.len(),
                groups == raw@[0].content,
                tokens@.len() == i,
                forall|t: int| 0 <= t < i ==> #[trigger] tokens@[t].term@ == joined(groups@[t]@),
            decreases groups@.len() - i,
        {
            let group = &groups[i];
            let mut combined = String::new();
            let mut j: usize = 0;
            while j < group.len()
                invariant
                    j <= group@.len(),
                    combined@ == joined(group@.subrange(0, j as int)),
                decreases group@.len() - j,
            {
                assert(group@.subrange(0, j + 1).drop_last() =~= group@.subrange(0, j as int));
                combined.append(group[j].text.as_str());
                j += 1;
            }
            assert(group@.subrange(0, group@.len() as int) =~= group@);
            tokens.push(TokenInfo { term: combined });
            i += 1;
        }
    }
    TokenizeResponse { tokens }
}

} // verus!
