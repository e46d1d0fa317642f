//! Lexical tasks: a lexical sentence with a budget kept as strings.
use vstd::prelude::*;
use crate::api::{GetBudget, GetPunctuation, GetStamp, GetTerm, GetTruth};
use crate::lexical::sentence::{Punctuation, Sentence, SentenceView, Stamp, Truth};
use crate::text::texts;
use crate::lexical::term::Term;

verus! {

/// The numbers of a budget, as written.
pub type Budget = Vec<String>;

/// A lexical task.
#[derive(Debug, Clone, PartialEq, Eq, Hash)]
pub struct Task {
    /// The budget (empty when not written)
    pub budget: Budget,
    /// The sentence
    pub sentence: Sentence,
}

impl Task {
    /// A task of its parts.
    pub fn new(budget: Budget, term: Term, punctuation: &str, stamp: &str, truth: Truth) -> (t: Task)
        ensures
            t.budget@ == budget@,
            t.sentence.term == term,
            t.sentence.punctuation@ == punctuation@,
            t.sentence.stamp@ == stamp@,
            t.sentence.truth@ == truth@,
    {
        Task { budget, sentence: Sentence::new(term, punctuation, stamp, truth) }
    }

    /// The sentence.
    pub fn get_sentence(&self) -> (s: &Sentence)
        ensures
            *s == self.sentence,
    {
        &self.sentence
    }
}

/// A lexical task as a value of specifications.
pub struct TaskView {
    /// The strings of the budget
    pub budget: Seq<Seq<char>>,
    /// The sentence
    pub sentence: SentenceView,
}

impl View for Task {
    type V = TaskView;

    open spec fn view(&self) -> TaskView {
        TaskView { budget: texts(self.budget@), sentence: self.sentence@ }
    }
}

impl GetTerm<Term> for Task {
    open spec fn term_of(&self) -> Term {
        self.sentence.term
    }

    fn get_term(&self) -> (t: &Term) {
        self.sentence.get_term()
    }
}

impl GetBudget<Budget> for Task {
    open spec fn budget_of(&self) -> Budget {
        self.budget
    }

    fn get_budget(&self) -> (b: &Budget) {
        &self.budget
    }
}

impl GetPunctuation<Punctuation> for Task {
    open spec fn punctuation_of(&self) -> Punctuation {
        self.sentence.punctuation
    }

    fn get_punctuation(&self) -> (p: &Punctuation) {
        self.sentence.get_punctuation()
    }
}

impl GetStamp<Stamp> for Task {
    open spec fn stamp_of(&self) -> Stamp {
        self.sentence.stamp
    }

    fn get_stamp(&self) -> (s: &Stamp) {
        self.sentence.get_stamp()
    }
}

impl GetTruth<Truth> for Task {
    open spec fn truth_of(&self) -> Option<Truth> {
        Some(self.sentence.truth)
    }

    fn get_truth(&self) -> (t: Option<&Truth>) {
        self.sentence.get_truth()
    }
}

} // verus!
