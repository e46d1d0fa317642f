//! Lexical sentences: a term with punctuation, stamp and truth kept as strings.
use vstd::prelude::*;
use crate::api::{GetPunctuation, GetStamp, GetTerm, GetTruth};
use crate::lexical::term::{Term, TermView};
use crate::text::texts;

verus! {

/// The numbers of a truth value, as written.
pub type Truth = Vec<String>;

/// A stamp, as written.
pub type Stamp = String;

/// A punctuation, as written.
pub type Punctuation = String;

/// A lexical sentence.
#[derive(Debug, Clone, PartialEq, Eq, Hash)]
pub struct Sentence {
    /// The term
    pub term: Term,
    /// The punctuation
    pub punctuation: Punctuation,
    /// The stamp (empty when not written)
    pub stamp: Stamp,
    /// The truth value (empty when not written)
    pub truth: Truth,
}

impl Sentence {
    /// A sentence of its parts.
    pub fn new(term: Term, punctuation: &str, stamp: &str, truth: Truth) -> (s: Sentence)
        ensures
            s.term == term,
            s.punctuation@ == punctuation@,
            s.stamp@ == stamp@,
            s.truth@ == truth@,
    {
        Sentence { term, punctuation: punctuation.to_string(), stamp: stamp.to_string(), truth }
    }
}

/// A lexical sentence as a value of specifications.
pub struct SentenceView {
    /// The term
    pub term: TermView,
    /// The punctuation
    pub punctuation: Seq<char>,
    /// The stamp
    pub stamp: Seq<char>,
    /// The strings of the truth value
    pub truth: Seq<Seq<char>>,
}

impl View for Sentence {
    type V = SentenceView;

    open spec fn view(&self) -> SentenceView {
        SentenceView {
            term: self.term@,
            punctuation: self.punctuation@,
            stamp: self.stamp@,
            truth: texts(self.truth@),
        }
    }
}

impl GetTerm<Term> for Sentence {
    open spec fn term_of(&self) -> Term {
        self.term
    }

    fn get_term(&self) -> (t: &Term) {
        &self.term
    }
}

impl GetPunctuation<Punctuation> for Sentence {
    open spec fn punctuation_of(&self) -> Punctuation {
        self.punctuation
    }

    fn get_punctuation(&self) -> (p: &Punctuation) {
        &self.punctuation
    }
}

impl GetStamp<Stamp> for Sentence {
    open spec fn stamp_of(&self) -> Stamp {
        self.stamp
    }

    fn get_stamp(&self) -> (s: &Stamp) {
        &self.stamp
    }
}

impl GetTruth<Truth> for Sentence {
    open spec fn truth_of(&self) -> Option<Truth> {
        Some(self.truth)
    }

    /// The truth value: always given, empty when not written.
    fn get_truth(&self) -> (t: Option<&Truth>) {
        Some(&self.truth)
    }
}

} // verus!
