//! Tasks of enum Narsese: a sentence with a budget.
use vstd::prelude::*;
use crate::api::{
    CastToTask, FloatBits, GetBudget, GetPunctuation, GetStamp, GetTerm, GetTruth,
    TryCastToSentence,
};
use crate::api::hyper_parameters::spec_in_01;
use crate::enum_narsese::sentence::{spec_float_eq, float_eq, Punctuation, Sentence, Stamp, Truth};
use crate::enum_narsese::term::Term;

verus! {

/// A budget: empty, or priority, durability and quality given in order.
#[derive(Debug, Clone, Copy)]
pub enum Budget {
    /// No value given
    Empty,
    /// The priority
    Single(FloatBits),
    /// The priority and the durability
    Double(FloatBits, FloatBits),
    /// The priority, the durability and the quality
    Triple(FloatBits, FloatBits, FloatBits),
}

/// Budgets are equal when they have the same shape and numbers equal as numbers.
pub open spec fn budget_eq(a: Budget, b: Budget) -> bool {
    match (a, b) {
        (Budget::Empty, Budget::Empty) => true,
        (Budget::Single(p1), Budget::Single(p2)) => spec_float_eq(p1, p2),
        (Budget::Double(p1, d1), Budget::Double(p2, d2)) => spec_float_eq(p1, p2) && spec_float_eq(
            d1,
            d2,
        ),
        (Budget::Triple(p1, d1, q1), Budget::Triple(p2, d2, q2)) => spec_float_eq(p1, p2)
            && spec_float_eq(d1, d2) && spec_float_eq(q1, q2),
        _ => false,
    }
}

impl PartialEq for Budget {
    fn eq(&self, other: &Self) -> (res: bool) {
        match (self, other) {
            (Budget::Empty, Budget::Empty) => true,
            (Budget::Single(p1), Budget::Single(p2)) => float_eq(*p1, *p2),
            (Budget::Double(p1, d1), Budget::Double(p2, d2)) => float_eq(*p1, *p2) && float_eq(
                *d1,
                *d2,
            ),
            (Budget::Triple(p1, d1, q1), Budget::Triple(p2, d2, q2)) => float_eq(*p1, *p2)
                && float_eq(*d1, *d2) && float_eq(*q1, *q2),
            _ => false,
        }
    }
}

impl vstd::std_specs::cmp::PartialEqSpecImpl for Budget {
    open spec fn obeys_eq_spec() -> bool {
        true
    }

    open spec fn eq_spec(&self, other: &Budget) -> bool {
        budget_eq(*self, *other)
    }
}

impl Budget {
    /// The empty budget.
    pub fn new_empty() -> (b: Budget)
        ensures
            b == Budget::Empty,
    {
        Budget::Empty
    }

    /// A budget of a priority in `[0, 1]`.
    pub fn new_single(p: FloatBits) -> (b: Budget)
        requires
            spec_in_01(p),
        ensures
            b == Budget::Single(p),
    {
        Budget::Single(p)
    }

    /// A budget of a priority and a durability in `[0, 1]`.
    pub fn new_double(p: FloatBits, d: FloatBits) -> (b: Budget)
        requires
            spec_in_01(p),
            spec_in_01(d),
        ensures
            b == Budget::Double(p, d),
    {
        Budget::Double(p, d)
    }

    /// A budget of a priority, a durability and a quality in `[0, 1]`.
    pub fn new_triple(p: FloatBits, d: FloatBits, q: FloatBits) -> (b: Budget)
        requires
            spec_in_01(p),
            spec_in_01(d),
            spec_in_01(q),
        ensures
            b == Budget::Triple(p, d, q),
    {
        Budget::Triple(p, d, q)
    }

    /// Whether the budget is empty.
    pub fn is_empty(&self) -> (b: bool)
        ensures
            b == (*self is Empty),
    {
        matches!(self, Budget::Empty)
    }
}

/// A task: a sentence with a budget.
#[derive(Debug, Clone, PartialEq)]
pub struct Task(pub Sentence, pub Budget);

impl Task {
    /// The task of a sentence with a budget.
    pub fn new(sentence: Sentence, budget: Budget) -> (t: Task)
        ensures
            t == Task(sentence, budget),
    {
        Task(sentence, budget)
    }

    /// The sentence.
    pub fn get_sentence(&self) -> (s: &Sentence)
        ensures
            *s == self.0,
    {
        &self.0
    }
}

impl CastToTask<Task> for Sentence {
    open spec fn as_task(self) -> Task {
        Task(self, Budget::Empty)
    }

    /// The task of the sentence with the empty budget.
    fn cast_to_task(self) -> (t: Task) {
        Task::new(self, Budget::Empty)
    }
}

impl TryCastToSentence<Sentence> for Task {
    open spec fn as_sentence(self) -> Result<Sentence, Task> {
        if self.1 is Empty {
            Ok(self.0)
        } else {
            Err(self)
        }
    }

    /// The sentence of a task with the empty budget; other tasks come back unchanged.
    fn try_cast_to_sentence(self) -> (r: Result<Sentence, Task>) {
        if self.1.is_empty() {
            Ok(self.0)
        } else {
            Err(self)
        }
    }
}

impl GetBudget<Budget> for Task {
    open spec fn budget_of(&self) -> Budget {
        self.1
    }

    fn get_budget(&self) -> (b: &Budget) {
        &self.1
    }
}

impl GetTerm<Term> for Task {
    open spec fn term_of(&self) -> Term {
        self.0.term_of()
    }

    fn get_term(&self) -> (t: &Term) {
        self.get_sentence().get_term()
    }
}

impl GetPunctuation<Punctuation> for Task {
    open spec fn punctuation_of(&self) -> Punctuation {
        self.0.punctuation_of()
    }

    fn get_punctuation(&self) -> (p: &Punctuation) {
        self.get_sentence().get_punctuation()
    }
}

impl GetStamp<Stamp> for Task {
    open spec fn stamp_of(&self) -> Stamp {
        self.0.stamp_of()
    }

    fn get_stamp(&self) -> (s: &Stamp) {
        self.get_sentence().get_stamp()
    }
}

impl GetTruth<Truth> for Task {
    open spec fn truth_of(&self) -> Option<Truth> {
        self.0.truth_of()
    }

    fn get_truth(&self) -> (t: Option<&Truth>) {
        self.get_sentence().get_truth()
    }
}

/// A sentence made a task comes back unchanged when the task is made a sentence again.
pub proof fn law_sentence_task_round_trip(s: Sentence)
    ensures
        s.as_task().as_sentence() == Ok::<Sentence, Task>(s),
{
}

/// Only tasks with the empty budget become sentences.
pub proof fn law_task_to_sentence(t: Task)
    ensures
        (t.as_sentence() is Ok) == (t.1 is Empty),
        t.as_sentence() is Ok ==> t.as_sentence()->Ok_0.as_task() == t,
{
}

} // verus!
