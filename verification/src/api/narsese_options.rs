//! Partially filled Narsese: optional budget, term, punctuation, stamp and truth.
use vstd::prelude::*;

verus! {

/// Narsese whose parts may each be missing; the parts follow the order of ASCII Narsese
/// (`$0.9;0.9;0.8$ <A --> B>. :|: %1.0;0.9%`).
#[derive(Debug, Clone, Default, PartialEq, Eq, Hash)]
pub struct NarseseOptions<Budget, Term, Punctuation, Stamp, Truth> {
    /// Budget (of a task)
    pub budget: Option<Budget>,
    /// Term
    pub term: Option<Term>,
    /// Punctuation (of a sentence)
    pub punctuation: Option<Punctuation>,
    /// Stamp (of a sentence)
    pub stamp: Option<Stamp>,
    /// Truth (of a sentence)
    pub truth: Option<Truth>,
}

impl<Budget, Term, Punctuation, Stamp, Truth> NarseseOptions<Budget, Term, Punctuation, Stamp, Truth> {
    /// Whether every part is missing.
    pub open spec fn spec_is_empty(self) -> bool {
        &&& self.budget is None
        &&& self.term is None
        &&& self.punctuation is None
        &&& self.stamp is None
        &&& self.truth is None
    }

    /// Whether the parts of a sentence (term and punctuation) are present.
    pub open spec fn spec_has_sentence(self) -> bool {
        self.term is Some && self.punctuation is Some
    }

    /// Whether the parts of a task (budget, term and punctuation) are present.
    pub open spec fn spec_has_task(self) -> bool {
        self.budget is Some && self.term is Some && self.punctuation is Some
    }

    /// All parts missing.
    pub fn new() -> (res: Self)
        ensures
            res.spec_is_empty(),
    {
        Self { term: None, truth: None, budget: None, stamp: None, punctuation: None }
    }

    /// Moves every part out, leaving all parts missing.
    pub fn take(&mut self) -> (res: Self)
        ensures
            res == *old(self),
            final(self).spec_is_empty(),
    {
        Self {
            budget: self.budget.take(),
            term: self.term.take(),
            punctuation: self.punctuation.take(),
            stamp: self.stamp.take(),
            truth: self.truth.take(),
        }
    }

    /// Moves the budget out.
    pub fn take_budget(&mut self) -> (res: Option<Budget>)
        ensures
            res == old(self).budget,
            *final(self) == (Self { budget: None, ..*old(self) }),
    {
        self.budget.take()
    }

    /// Moves the term out.
    pub fn take_term(&mut self) -> (res: Option<Term>)
        ensures
            res == old(self).term,
            *final(self) == (Self { term: None, ..*old(self) }),
    {
        self.term.take()
    }

    /// Moves the punctuation out.
    pub fn take_punctuation(&mut self) -> (res: Option<Punctuation>)
        ensures
            res == old(self).punctuation,
            *final(self) == (Self { punctuation: None, ..*old(self) }),
    {
        self.punctuation.take()
    }

    /// Moves the stamp out.
    pub fn take_stamp(&mut self) -> (res: Option<Stamp>)
        ensures
            res == old(self).stamp,
            *final(self) == (Self { stamp: None, ..*old(self) }),
    {
        self.stamp.take()
    }

    /// Moves the truth out.
    pub fn take_truth(&mut self) -> (res: Option<Truth>)
        ensures
            res == old(self).truth,
            *final(self) == (Self { truth: None, ..*old(self) }),
    {
        self.truth.take()
    }

    /// Whether the term and the punctuation are both present.
    pub fn has_sentence(&self) -> (b: bool)
        ensures
            b == self.spec_has_sentence(),
    {
        self.term.is_some() && self.punctuation.is_some()
    }

    /// Whether the budget, the term and the punctuation are all present.
    pub fn has_task(&self) -> (b: bool)
        ensures
            b == self.spec_has_task(),
    {
        self.budget.is_some() && self.term.is_some() && self.punctuation.is_some()
    }

    /// When term and punctuation are present, moves out the term, the punctuation, the
    /// stamp and the truth; otherwise changes nothing.
    pub fn take_sentence(&mut self) -> (res: Option<(Term, Punctuation, Option<Stamp>, Option<Truth>)>)
        ensures
            old(self).spec_has_sentence() ==> {
                &&& res == Some((
                    old(self).term->Some_0,
                    old(self).punctuation->Some_0,
                    old(self).stamp,
                    old(self).truth,
                ))
                &&& *final(self) == (Self {
                    term: None,
                    punctuation: None,
                    stamp: None,
                    truth: None,
                    ..*old(self)
                })
            },
            !old(self).spec_has_sentence() ==> res is None && *final(self) == *old(self),
    {
        if self.term.is_some() && self.punctuation.is_some() {
            let term = self.term.take();
            let punctuation = self.punctuation.take();
            match (term, punctuation) {
                (Some(term), Some(punctuation)) => Some(
                    (term, punctuation, self.stamp.take(), self.truth.take()),
                ),
                _ => None,
            }
        } else {
            None
        }
    }

    /// When budget, term and punctuation are present, moves out every part; otherwise
    /// changes nothing.
    pub fn take_task(&mut self) -> (res: Option<(Budget, Term, Punctuation, Option<Stamp>, Option<Truth>)>)
        ensures
            old(self).spec_has_task() ==> {
                &&& res == Some((
                    old(self).budget->Some_0,
                    old(self).term->Some_0,
                    old(self).punctuation->Some_0,
                    old(self).stamp,
                    old(self).truth,
                ))
                &&& final(self).spec_is_empty()
            },
            !old(self).spec_has_task() ==> res is None && *final(self) == *old(self),
    {
        if self.budget.is_some() && self.term.is_some() && self.punctuation.is_some() {
            let budget = self.budget.take();
            let term = self.term.take();
            let punctuation = self.punctuation.take();
            match (budget, term, punctuation) {
                (Some(budget), Some(term), Some(punctuation)) => Some(
                    (budget, term, punctuation, self.stamp.take(), self.truth.take()),
                ),
                _ => None,
            }
        } else {
            None
        }
    }
}

} // verus!
