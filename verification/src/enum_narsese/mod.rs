//! Narsese as Rust enums: terms, sentences and tasks with their semantic variants.

pub mod term;
pub mod sentence;
pub mod task;

pub use term::{Term, TermRefType, TermSetType, TermVecType};
pub use sentence::{Punctuation, Sentence, Stamp, Truth};
pub use task::{Budget, Task};

use crate::api::NarseseValue;
use vstd::prelude::*;

verus! {

/// A term, a sentence or a task of enum Narsese.
pub type Narsese = NarseseValue<Term, Sentence, Task>;

} // verus!
