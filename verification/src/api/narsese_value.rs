//! The Narsese value: one of a term, a sentence or a task.
use vstd::prelude::*;
use crate::text::push_str;
use crate::api::get_inner::{CastToTask, GetTerm, TryCastToSentence};
use crate::api::format::FormatTo;

verus! {

/// One of a term, a sentence or a task, with the three types given as parameters.
#[derive(Debug, Clone, PartialEq, Eq, PartialOrd, Ord, Hash)]
pub enum NarseseValue<Term, Sentence, Task> {
    Term(Term),
    Sentence(Sentence),
    Task(Task),
}

/// The error of a conversion between kinds of Narsese values.
#[derive(Debug, Clone)]
pub struct ConversionError {
    /// What went wrong
    pub message: String,
}

/// The name of a kind of Narsese value, as the conversion errors write it.
pub open spec fn spec_kind_name<Term, Sentence, Task>(v: NarseseValue<Term, Sentence, Task>) -> Seq<char> {
    match v {
        NarseseValue::Term(..) => "词项"@,
        NarseseValue::Sentence(..) => "语句"@,
        NarseseValue::Task(..) => "任务"@,
    }
}

/// The message of a failed conversion of a value of kind `from` into kind `to`.
pub open spec fn spec_mismatch_message(from: Seq<char>, to: Seq<char>) -> Seq<char> {
    "类型「"@ + from + "」不匹配，无法转换为"@ + to
}

impl<Term, Sentence, Task> NarseseValue<Term, Sentence, Task> {
    /// The name of the kind of the value.
    pub(crate) fn kind_name(&self) -> (res: &'static str)
        ensures
            res@ == spec_kind_name(*self),
    {
        match self {
            NarseseValue::Term(..) => "词项",
            NarseseValue::Sentence(..) => "语句",
            NarseseValue::Task(..) => "任务",
        }
    }

    /// Whether the value is a term.
    pub fn is_term(&self) -> (b: bool)
        ensures
            b == self is Term,
    {
        matches!(self, NarseseValue::Term(..))
    }

    /// Whether the value is a sentence.
    pub fn is_sentence(&self) -> (b: bool)
        ensures
            b == self is Sentence,
    {
        matches!(self, NarseseValue::Sentence(..))
    }

    /// Whether the value is a task.
    pub fn is_task(&self) -> (b: bool)
        ensures
            b == self is Task,
    {
        matches!(self, NarseseValue::Task(..))
    }

    fn mismatch(&self, to: &str) -> (err: ConversionError)
        ensures
            err.message@ == spec_mismatch_message(spec_kind_name(*self), to@),
    {
        let mut message = String::new();
        push_str(&mut message, "类型「");
        push_str(&mut message, self.kind_name());
        push_str(&mut message, "」不匹配，无法转换为");
        push_str(&mut message, to);
        ConversionError { message }
    }

    /// The term inside, or an error naming the kind of the value.
    pub fn try_into_term(self) -> (res: Result<Term, ConversionError>)
        ensures
            match self {
                NarseseValue::Term(t) => res == Ok::<Term, ConversionError>(t),
                _ => res is Err && res->Err_0.message@ == spec_mismatch_message(
                    spec_kind_name(self),
                    "词项"@,
                ),
            },
    {
        match self {
            NarseseValue::Term(term) => Ok(term),
            _ => Err(self.mismatch("词项")),
        }
    }

    /// The sentence inside, or an error naming the kind of the value.
    pub fn try_into_sentence(self) -> (res: Result<Sentence, ConversionError>)
        ensures
            match self {
                NarseseValue::Sentence(s) => res == Ok::<Sentence, ConversionError>(s),
                _ => res is Err && res->Err_0.message@ == spec_mismatch_message(
                    spec_kind_name(self),
                    "语句"@,
                ),
            },
    {
        match self {
            NarseseValue::Sentence(sentence) => Ok(sentence),
            _ => Err(self.mismatch("语句")),
        }
    }

    /// The task inside, or an error naming the kind of the value.
    pub fn try_into_task(self) -> (res: Result<Task, ConversionError>)
        ensures
            match self {
                NarseseValue::Task(t) => res == Ok::<Task, ConversionError>(t),
                _ => res is Err && res->Err_0.message@ == spec_mismatch_message(
                    spec_kind_name(self),
                    "任务"@,
                ),
            },
    {
        match self {
            NarseseValue::Task(task) => Ok(task),
            _ => Err(self.mismatch("任务")),
        }
    }

    /// Wraps a term.
    pub fn from_term(value: Term) -> (res: Self)
        ensures
            res == NarseseValue::<Term, Sentence, Task>::Term(value),
    {
        NarseseValue::Term(value)
    }

    /// Wraps a sentence.
    pub fn from_sentence(value: Sentence) -> (res: Self)
        ensures
            res == NarseseValue::<Term, Sentence, Task>::Sentence(value),
    {
        NarseseValue::Sentence(value)
    }

    /// Wraps a task.
    pub fn from_task(value: Task) -> (res: Self)
        ensures
            res == NarseseValue::<Term, Sentence, Task>::Task(value),
    {
        NarseseValue::Task(value)
    }
}

impl<Term, Sentence: CastToTask<Task>, Task> NarseseValue<Term, Sentence, Task> {
    /// The task inside; a sentence becomes a task (see [`CastToTask`]); a term is an error.
    pub fn try_into_task_compatible(self) -> (res: Result<Task, ConversionError>)
        ensures
            match self {
                NarseseValue::Task(t) => res == Ok::<Task, ConversionError>(t),
                NarseseValue::Sentence(s) => res == Ok::<Task, ConversionError>(s.as_task()),
                NarseseValue::Term(_) => res is Err && res->Err_0.message@ == spec_mismatch_message(
                    spec_kind_name(self),
                    "任务"@,
                ),
            },
    {
        match self {
            NarseseValue::Task(task) => Ok(task),
            NarseseValue::Sentence(sentence) => Ok(sentence.cast_to_task()),
            _ => Err(self.mismatch("任务")),
        }
    }
}

impl<Term, Sentence, Task: TryCastToSentence<Sentence>> TryCastToSentence<
    NarseseValue<Term, Sentence, Task>,
> for NarseseValue<Term, Sentence, Task> {
    open spec fn as_sentence(self) -> Result<Self, Self> {
        match self {
            NarseseValue::Term(..) => Err(self),
            NarseseValue::Sentence(..) => Ok(self),
            NarseseValue::Task(t) => match t.as_sentence() {
                Ok(s) => Ok(NarseseValue::Sentence(s)),
                Err(t) => Err(NarseseValue::Task(t)),
            },
        }
    }

    /// A sentence stays, a task becomes a sentence where it can (see
    /// [`TryCastToSentence`]), a term fails; what fails comes back unchanged.
    fn try_cast_to_sentence(self) -> (r: Result<Self, Self>) {
        match self {
            NarseseValue::Term(..) => Err(self),
            NarseseValue::Sentence(..) => Ok(self),
            NarseseValue::Task(task) => match task.try_cast_to_sentence() {
                Ok(sentence) => Ok(NarseseValue::Sentence(sentence)),
                Err(task) => Err(NarseseValue::Task(task)),
            },
        }
    }
}

impl<Term, Sentence: GetTerm<Term>, Task: GetTerm<Term>> GetTerm<Term> for NarseseValue<
    Term,
    Sentence,
    Task,
> {
    open spec fn term_of(&self) -> Term {
        match *self {
            NarseseValue::Term(t) => t,
            NarseseValue::Sentence(s) => s.term_of(),
            NarseseValue::Task(t) => t.term_of(),
        }
    }

    /// The term inside the term, sentence or task.
    fn get_term(&self) -> (t: &Term) {
        match self {
            NarseseValue::Term(term) => term,
            NarseseValue::Sentence(sentence) => sentence.get_term(),
            NarseseValue::Task(task) => task.get_term(),
        }
    }
}

/// A term, sentence or task formats as the term, sentence or task inside does.
impl<Term, Sentence, Task, Formatter, Target> FormatTo<Formatter, Target> for NarseseValue<
    Term,
    Sentence,
    Task,
> where
    Term: FormatTo<Formatter, Target>,
    Sentence: FormatTo<Formatter, Target>,
    Task: FormatTo<Formatter, Target>,
 {
    open spec fn formats_to(&self, formatter: Formatter, target: Target) -> bool {
        match *self {
            NarseseValue::Term(term) => term.formats_to(formatter, target),
            NarseseValue::Sentence(sentence) => sentence.formats_to(formatter, target),
            NarseseValue::Task(task) => task.formats_to(formatter, target),
        }
    }

    fn format_to(&self, formatter: Formatter) -> (target: Target) {
        match self {
            NarseseValue::Term(term) => term.format_to(formatter),
            NarseseValue::Sentence(sentence) => sentence.format_to(formatter),
            NarseseValue::Task(task) => task.format_to(formatter),
        }
    }
}

} // verus!
