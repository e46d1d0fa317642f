//! Accessor traits: the term, truth, budget, stamp and punctuation inside a value, and
//! the conversions between sentences and tasks.
use vstd::prelude::*;

verus! {

/// Values that hold a term.
pub trait GetTerm<Term> {
    /// The inner term, in specifications.
    spec fn term_of(&self) -> Term;

    /// The inner term.
    fn get_term(&self) -> (t: &Term)
        ensures
            *t == self.term_of(),
    ;
}

/// Values that may hold a truth value (questions and quests hold none).
pub trait GetTruth<Truth> {
    /// The truth value, if any, in specifications.
    spec fn truth_of(&self) -> Option<Truth>;

    /// The truth value, if any.
    fn get_truth(&self) -> (t: Option<&Truth>)
        ensures
            match t {
                Some(v) => self.truth_of() == Some(*v),
                None => self.truth_of() is None,
            },
    ;
}

/// Values that hold a budget.
pub trait GetBudget<Budget> {
    /// The budget, in specifications.
    spec fn budget_of(&self) -> Budget;

    /// The budget.
    fn get_budget(&self) -> (b: &Budget)
        ensures
            *b == self.budget_of(),
    ;
}

/// Values that hold a stamp.
pub trait GetStamp<Stamp> {
    /// The stamp, in specifications.
    spec fn stamp_of(&self) -> Stamp;

    /// The stamp.
    fn get_stamp(&self) -> (s: &Stamp)
        ensures
            *s == self.stamp_of(),
    ;
}

/// Values that hold a punctuation.
pub trait GetPunctuation<Punctuation> {
    /// The punctuation, in specifications.
    spec fn punctuation_of(&self) -> Punctuation;

    /// The punctuation.
    fn get_punctuation(&self) -> (p: &Punctuation)
        ensures
            *p == self.punctuation_of(),
    ;
}

/// Sentences that become tasks (with the default budget).
pub trait CastToTask<Task>: Sized {
    /// The task that carries this sentence, in specifications.
    spec fn as_task(self) -> Task;

    /// The task that carries this sentence.
    fn cast_to_task(self) -> (t: Task)
        ensures
            t == self.as_task(),
    ;
}

/// Tasks that may become sentences without losing information.
pub trait TryCastToSentence<Sentence>: Sized {
    /// The sentence, or the value itself when it cannot be converted, in specifications.
    spec fn as_sentence(self) -> Result<Sentence, Self>;

    /// The sentence, or the value itself when it cannot be converted.
    fn try_cast_to_sentence(self) -> (r: Result<Sentence, Self>)
        ensures
            r == self.as_sentence(),
    ;
}

} // verus!
