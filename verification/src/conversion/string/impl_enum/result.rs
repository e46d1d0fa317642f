//! Taking the term, the sentence or the task out of what a parse of enum Narsese gave.
use vstd::prelude::*;
use vstd::std_specs::convert::TryFromSpecImpl;
use crate::conversion::string::common::NarseseResult;
use crate::conversion::string::impl_enum::parser::EnumNarseseResult;
use crate::enum_narsese::sentence::Sentence;
use crate::enum_narsese::task::Task;
use crate::enum_narsese::term::Term;
use crate::text::push_str;

verus! {

/// A parse result of another kind than the one asked for: the kind asked for, by the
/// name that the error message gives it, and the result itself, unchanged.
#[derive(Debug, Clone)]
pub struct KindMismatch {
    /// The kind asked for: "词项", "语句" or "任务"
    pub expected: &'static str,
    /// The result that was not of that kind
    pub value: EnumNarseseResult,
}

/// The words that open the message of a [`KindMismatch`] expecting `expected`; the
/// rendering of the rejected value follows them.
pub open spec fn spec_mismatch_head(expected: Seq<char>) -> Seq<char> {
    "类型不匹配，无法转换为"@ + expected + "："@
}

impl KindMismatch {
    /// The opening words of the error message, up to the rendering of the rejected
    /// value.
    pub fn message_head(&self) -> (s: String)
        ensures
            s@ == spec_mismatch_head(self.expected@),
    {
        let mut s = String::new();
        push_str(&mut s, "类型不匹配，无法转换为");
        push_str(&mut s, self.expected);
        push_str(&mut s, "：");
        s
    }
}

impl TryFrom<EnumNarseseResult> for Term {
    type Error = KindMismatch;

    /// The term of a result that is a term; any other result is refused as it is.
    fn try_from(value: EnumNarseseResult) -> (r: Result<Term, KindMismatch>) {
        match value {
            NarseseResult::Term(term) => Ok(term),
            other => Err(KindMismatch { expected: "词项", value: other }),
        }
    }
}

impl TryFromSpecImpl<EnumNarseseResult> for Term {
    open spec fn obeys_try_from_spec() -> bool {
        true
    }

    open spec fn try_from_spec(value: EnumNarseseResult) -> Result<Term, KindMismatch> {
        match value {
            NarseseResult::Term(term) => Ok(term),
            other => Err(KindMismatch { expected: "词项", value: other }),
        }
    }
}

impl TryFrom<EnumNarseseResult> for Sentence {
    type Error = KindMismatch;

    /// The sentence of a result that is a sentence; any other result is refused as it
    /// is.
    fn try_from(value: EnumNarseseResult) -> (r: Result<Sentence, KindMismatch>) {
        match value {
            NarseseResult::Sentence(sentence) => Ok(sentence),
            other => Err(KindMismatch { expected: "语句", value: other }),
        }
    }
}

impl TryFromSpecImpl<EnumNarseseResult> for Sentence {
    open spec fn obeys_try_from_spec() -> bool {
        true
    }

    open spec fn try_from_spec(value: EnumNarseseResult) -> Result<Sentence, KindMismatch> {
        match value {
            NarseseResult::Sentence(sentence) => Ok(sentence),
            other => Err(KindMismatch { expected: "语句", value: other }),
        }
    }
}

impl TryFrom<EnumNarseseResult> for Task {
    type Error = KindMismatch;

    /// The task of a result that is a task; any other result is refused as it is.
    fn try_from(value: EnumNarseseResult) -> (r: Result<Task, KindMismatch>) {
        match value {
            NarseseResult::Task(task) => Ok(task),
            other => Err(KindMismatch { expected: "任务", value: other }),
        }
    }
}

impl TryFromSpecImpl<EnumNarseseResult> for Task {
    open spec fn obeys_try_from_spec() -> bool {
        true
    }

    open spec fn try_from_spec(value: EnumNarseseResult) -> Result<Task, KindMismatch> {
        match value {
            NarseseResult::Task(task) => Ok(task),
            other => Err(KindMismatch { expected: "任务", value: other }),
        }
    }
}

} // verus!
