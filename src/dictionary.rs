//! The data model of dictionary results: what a dictionary server reports for
//! a term, and the condensed form in which results are shown.
use vstd::prelude::*;

verus! {

/// A term's dictionary results in condensed form.
#[derive(Clone, Debug, PartialEq, Eq)]
pub struct UmodTermEntries {
    pub query: String,
    pub original_text_length: usize,
    pub entries: Vec<UmodDictionaryEntry>,
}

/// One dictionary entry: its headwords, definitions and frequencies.
#[derive(Clone, Debug, PartialEq, Eq)]
pub struct UmodDictionaryEntry {
    pub headwords: Vec<UmodHeadword>,
    pub definitions: Vec<UmodDefinition>,
    pub frequencies: Vec<UmodFrequency>,
}

/// A written form of a term, its reading and its word classes.
#[derive(Clone, Debug, PartialEq, Eq)]
pub struct UmodHeadword {
    pub term: String,
    pub reading: Option<String>,
    pub word_classes: Vec<String>,
}

/// The definition one dictionary gives.
#[derive(Clone, Debug, PartialEq, Eq)]
pub struct UmodDefinition {
    pub dictionary: String,
    pub priority: bool,
    pub tags: Vec<String>,
    pub grammar: UmodGrammar,
    pub senses: Vec<UmodSense>,
    pub variants: Vec<String>,
}

/// Grammatical flags gathered from a definition.
#[derive(Clone, Debug, PartialEq, Eq)]
pub struct UmodGrammar {
    pub transitivity: Option<String>,
    pub kana_only: bool,
}

/// One numbered sense and its glosses.
#[derive(Clone, Debug, PartialEq, Eq)]
pub struct UmodSense {
    pub number: usize,
    pub glosses: Vec<String>,
}

/// How frequent a term is according to one dictionary.
#[derive(Clone, Debug, PartialEq, Eq)]
pub struct UmodFrequency {
    pub dictionary: String,
    pub display_value: Option<String>,
    pub frequency: Option<u64>,
}

/// A headword as the dictionary server reports it.
#[derive(Clone, Debug, PartialEq, Eq)]
pub struct YomitanHeadword {
    pub term: String,
    pub reading: Option<String>,
    pub word_classes: Vec<String>,
}

/// A tag attached to a definition by the dictionary server.
#[derive(Clone, Debug, PartialEq, Eq)]
pub struct YomitanTag {
    pub name: String,
}

/// A frequency as the dictionary server reports it.
#[derive(Clone, Debug, PartialEq, Eq)]
pub struct YomitanFrequency {
    pub dictionary: String,
    pub display_value: Option<String>,
    pub frequency: Option<u64>,
}

impl Default for UmodGrammar {
    fn default() -> (r: UmodGrammar)
        ensures
            r.transitivity is None,
            !r.kana_only,
    {
        UmodGrammar { transitivity: None, kana_only: false }
    }
}

impl UmodGrammar {
    /// Takes the other's transitivity where this one has none, and is
    /// kana-only if either is.
    pub fn merge(&mut self, other: UmodGrammar)
        ensures
            final(self).transitivity == (if old(self).transitivity is None {
                other.transitivity
            } else {
                old(self).transitivity
            }),
            final(self).kana_only == (old(self).kana_only || other.kana_only),
    {
        if self.transitivity.is_none() {
            self.transitivity = other.transitivity;
        }
        self.kana_only = self.kana_only || other.kana_only;
    }
}

} // verus!
