//! Lexical Narsese: terms, sentences and tasks as the text writes them, before any
//! meaning is given to their connectors, copulas and brackets.

pub mod term;
pub mod sentence;
pub mod task;

pub use term::{Term, TermView};
pub use sentence::{Punctuation, Sentence, SentenceView, Stamp, Truth};
pub use task::{Budget, Task, TaskView};

use crate::api::NarseseValue;
use vstd::prelude::*;

verus! {

/// A term, a sentence or a task of lexical Narsese.
pub type Narsese = NarseseValue<Term, Sentence, Task>;

/// The view of a lexical term, sentence or task.
pub open spec fn narsese_view(n: Narsese) -> NarseseValue<TermView, SentenceView, TaskView> {
    match n {
        NarseseValue::Term(t) => NarseseValue::Term(t@),
        NarseseValue::Sentence(s) => NarseseValue::Sentence(s@),
        NarseseValue::Task(t) => NarseseValue::Task(t@),
    }
}

} // verus!
