//! Sentences of enum Narsese: truth values, stamps, punctuations and the sentence itself.
use vstd::prelude::*;
use crate::api::{FloatBits, GetPunctuation, GetStamp, GetTerm, GetTruth, IntPrecision};
use crate::api::hyper_parameters::{is_in_01, spec_in_01};
use crate::enum_narsese::term::Term;

verus! {

/// The mask of every bit of a binary64 number but its sign.
pub const MAGNITUDE_MASK: u64 = 0x7FFF_FFFF_FFFF_FFFFu64;

/// The bit pattern of positive infinity: greater magnitudes are NaNs.
pub const INFINITY_BITS: u64 = 0x7FF0_0000_0000_0000u64;

/// Whether the binary64 number with these bits is a NaN.
pub open spec fn spec_is_nan_bits(a: u64) -> bool {
    (a & MAGNITUDE_MASK) > INFINITY_BITS
}

/// Whether the binary64 number with these bits is a zero (of either sign).
pub open spec fn spec_is_zero_bits(a: u64) -> bool {
    (a & MAGNITUDE_MASK) == 0
}

/// IEEE-754 equality of two binary64 numbers given by their bits: the same bits and not
/// a NaN, or two zeros.
pub open spec fn spec_float_eq(a: u64, b: u64) -> bool {
    (a == b && !spec_is_nan_bits(a)) || (spec_is_zero_bits(a) && spec_is_zero_bits(b))
}

/// IEEE-754 equality of two binary64 numbers given by their bits.
pub fn float_eq(a: FloatBits, b: FloatBits) -> (res: bool)
    ensures
        res == spec_float_eq(a, b),
{
    (a == b && !((a & MAGNITUDE_MASK) > INFINITY_BITS)) || ((a & MAGNITUDE_MASK) == 0 && (b
        & MAGNITUDE_MASK) == 0)
}

/// The message of a number outside `[0, 1]`.
pub const OUT_OF_RANGE_MESSAGE: &'static str = "「0-1」区间外的值（建议：`0<x<1`）";

/// A truth value: empty, frequency only, or frequency and confidence.
#[derive(Debug, Clone, Copy)]
pub enum Truth {
    /// No value given
    Empty,
    /// The frequency
    Single(FloatBits),
    /// The frequency and the confidence
    Double(FloatBits, FloatBits),
}

/// Truth values are equal when they have the same shape and numbers equal as numbers.
pub open spec fn truth_eq(a: Truth, b: Truth) -> bool {
    match (a, b) {
        (Truth::Empty, Truth::Empty) => true,
        (Truth::Single(f1), Truth::Single(f2)) => spec_float_eq(f1, f2),
        (Truth::Double(f1, c1), Truth::Double(f2, c2)) => spec_float_eq(f1, f2) && spec_float_eq(
            c1,
            c2,
        ),
        _ => false,
    }
}

impl PartialEq for Truth {
    fn eq(&self, other: &Self) -> (res: bool) {
        match (self, other) {
            (Truth::Empty, Truth::Empty) => true,
            (Truth::Single(f1), Truth::Single(f2)) => float_eq(*f1, *f2),
            (Truth::Double(f1, c1), Truth::Double(f2, c2)) => float_eq(*f1, *f2) && float_eq(
                *c1,
                *c2,
            ),
            _ => false,
        }
    }
}

impl vstd::std_specs::cmp::PartialEqSpecImpl for Truth {
    open spec fn obeys_eq_spec() -> bool {
        true
    }

    open spec fn eq_spec(&self, other: &Truth) -> bool {
        truth_eq(*self, *other)
    }
}

impl Truth {
    /// The empty truth value.
    pub fn new_empty() -> (t: Truth)
        ensures
            t == Truth::Empty,
    {
        Truth::Empty
    }

    /// A truth value of a frequency in `[0, 1]`.
    pub fn new_single(f: FloatBits) -> (t: Truth)
        requires
            spec_in_01(f),
        ensures
            t == Truth::Single(f),
    {
        Truth::Single(f)
    }

    /// A truth value of a frequency and a confidence in `[0, 1]`.
    pub fn new_double(f: FloatBits, c: FloatBits) -> (t: Truth)
        requires
            spec_in_01(f),
            spec_in_01(c),
        ensures
            t == Truth::Double(f, c),
    {
        Truth::Double(f, c)
    }

    /// The truth value of the first numbers given: none gives the empty value, one the
    /// frequency, two or more the frequency and the confidence (the rest is ignored). A
    /// number outside `[0, 1]` among those read is an error.
    pub fn try_from_floats(floats: &[FloatBits]) -> (res: Result<Truth, String>)
        ensures
            res is Ok <==> (forall|i: int|
                0 <= i < floats@.len() && i < 2 ==> spec_in_01(#[trigger] floats@[i])),
            res is Ok ==> res->Ok_0 == truth_from(floats@),
            res is Err ==> res->Err_0@ == OUT_OF_RANGE_MESSAGE@,
    {
        if floats.len() == 0 {
            return Ok(Truth::new_empty());
        }
        let f = floats[0];
        if !is_in_01(f) {
            return Err(OUT_OF_RANGE_MESSAGE.to_string());
        }
        if floats.len() == 1 {
            return Ok(Truth::new_single(f));
        }
        let c = floats[1];
        if !is_in_01(c) {
            return Err(OUT_OF_RANGE_MESSAGE.to_string());
        }
        Ok(Truth::new_double(f, c))
    }

    /// The frequency.
    pub fn f(&self) -> (f: FloatBits)
        requires
            !(self is Empty),
        ensures
            f == match *self {
                Truth::Single(f) => f,
                Truth::Double(f, _) => f,
                Truth::Empty => 0,
            },
    {
        match self {
            Truth::Single(f) => *f,
            Truth::Double(f, _) => *f,
            Truth::Empty => 0,
        }
    }

    /// The confidence.
    pub fn c(&self) -> (c: FloatBits)
        requires
            self is Double,
        ensures
            c == self->Double_1,
    {
        match self {
            Truth::Double(_, c) => *c,
            _ => 0,
        }
    }
}

/// The truth value of the first numbers of a sequence (see [`Truth::try_from_floats`]).
pub open spec fn truth_from(floats: Seq<FloatBits>) -> Truth {
    if floats.len() == 0 {
        Truth::Empty
    } else if floats.len() == 1 {
        Truth::Single(floats[0])
    } else {
        Truth::Double(floats[0], floats[1])
    }
}

/// A stamp: when a sentence holds.
#[derive(Debug, Clone, Copy, PartialEq, Eq, Hash, Structural)]
pub enum Stamp {
    /// Always
    Eternal,
    /// In the past
    Past,
    /// Now
    Present,
    /// In the future
    Future,
    /// At a fixed time
    Fixed(IntPrecision),
}

impl Stamp {
    /// Whether the stamp is eternal.
    pub fn is_eternal(&self) -> (b: bool)
        ensures
            b == (*self is Eternal),
    {
        matches!(self, Stamp::Eternal)
    }

    /// Whether the stamp is a fixed time.
    pub fn is_fixed(&self) -> (b: bool)
        ensures
            b == (*self is Fixed),
    {
        matches!(self, Stamp::Fixed(_))
    }
}

/// The punctuation of a sentence.
#[derive(Debug, Clone, Copy, PartialEq, Eq, Hash, Structural)]
pub enum Punctuation {
    /// Judgement `.`
    Judgement,
    /// Goal `!`
    Goal,
    /// Question `?`
    Question,
    /// Quest `@`
    Quest,
}

/// A sentence: a term with punctuation, stamp, and (for judgements and goals) a truth
/// value.
#[derive(Debug, Clone, PartialEq)]
pub enum Sentence {
    /// Judgement
    Judgement(Term, Truth, Stamp),
    /// Goal
    Goal(Term, Truth, Stamp),
    /// Question
    Question(Term, Stamp),
    /// Quest
    Quest(Term, Stamp),
}

/// The sentence of a punctuation: the truth value is kept by judgements and goals only.
pub open spec fn sentence_of(term: Term, punctuation: Punctuation, stamp: Stamp, truth: Truth) -> Sentence {
    match punctuation {
        Punctuation::Judgement => Sentence::Judgement(term, truth, stamp),
        Punctuation::Goal => Sentence::Goal(term, truth, stamp),
        Punctuation::Question => Sentence::Question(term, stamp),
        Punctuation::Quest => Sentence::Quest(term, stamp),
    }
}

impl Sentence {
    /// The sentence of a punctuation; questions and quests drop the truth value.
    pub fn from_punctuation(term: Term, punctuation: Punctuation, stamp: Stamp, truth: Truth) -> (s: Sentence)
        ensures
            s == sentence_of(term, punctuation, stamp, truth),
    {
        match punctuation {
            Punctuation::Judgement => Sentence::Judgement(term, truth, stamp),
            Punctuation::Goal => Sentence::Goal(term, truth, stamp),
            Punctuation::Question => Sentence::Question(term, stamp),
            Punctuation::Quest => Sentence::Quest(term, stamp),
        }
    }

    /// A judgement.
    pub fn new_judgement(term: Term, truth: Truth, stamp: Stamp) -> (s: Sentence)
        ensures
            s == Sentence::Judgement(term, truth, stamp),
    {
        Sentence::Judgement(term, truth, stamp)
    }

    /// A goal.
    pub fn new_goal(term: Term, truth: Truth, stamp: Stamp) -> (s: Sentence)
        ensures
            s == Sentence::Goal(term, truth, stamp),
    {
        Sentence::Goal(term, truth, stamp)
    }

    /// A question.
    pub fn new_question(term: Term, stamp: Stamp) -> (s: Sentence)
        ensures
            s == Sentence::Question(term, stamp),
    {
        Sentence::Question(term, stamp)
    }

    /// A quest.
    pub fn new_quest(term: Term, stamp: Stamp) -> (s: Sentence)
        ensures
            s == Sentence::Quest(term, stamp),
    {
        Sentence::Quest(term, stamp)
    }
}

impl GetTerm<Term> for Sentence {
    open spec fn term_of(&self) -> Term {
        match *self {
            Sentence::Judgement(t, _, _) => t,
            Sentence::Goal(t, _, _) => t,
            Sentence::Question(t, _) => t,
            Sentence::Quest(t, _) => t,
        }
    }

    fn get_term(&self) -> (t: &Term) {
        match self {
            Sentence::Judgement(term, _, _) | Sentence::Goal(term, _, _) | Sentence::Question(
                term,
                _,
            ) | Sentence::Quest(term, _) => term,
        }
    }
}

impl GetPunctuation<Punctuation> for Sentence {
    open spec fn punctuation_of(&self) -> Punctuation {
        match *self {
            Sentence::Judgement(..) => Punctuation::Judgement,
            Sentence::Goal(..) => Punctuation::Goal,
            Sentence::Question(..) => Punctuation::Question,
            Sentence::Quest(..) => Punctuation::Quest,
        }
    }

    fn get_punctuation(&self) -> (p: &Punctuation) {
        match self {
            Sentence::Judgement(..) => &Punctuation::Judgement,
            Sentence::Goal(..) => &Punctuation::Goal,
            Sentence::Question(..) => &Punctuation::Question,
            Sentence::Quest(..) => &Punctuation::Quest,
        }
    }
}

impl GetTruth<Truth> for Sentence {
    open spec fn truth_of(&self) -> Option<Truth> {
        match *self {
            Sentence::Judgement(_, t, _) => Some(t),
            Sentence::Goal(_, t, _) => Some(t),
            _ => None,
        }
    }

    fn get_truth(&self) -> (t: Option<&Truth>) {
        match self {
            Sentence::Judgement(_, truth, _) | Sentence::Goal(_, truth, _) => Some(truth),
            Sentence::Question(..) | Sentence::Quest(..) => None,
        }
    }
}

impl GetStamp<Stamp> for Sentence {
    open spec fn stamp_of(&self) -> Stamp {
        match *self {
            Sentence::Judgement(_, _, s) => s,
            Sentence::Goal(_, _, s) => s,
            Sentence::Question(_, s) => s,
            Sentence::Quest(_, s) => s,
        }
    }

    fn get_stamp(&self) -> (s: &Stamp) {
        match self {
            Sentence::Judgement(_, _, stamp) | Sentence::Goal(_, _, stamp) | Sentence::Question(
                _,
                stamp,
            ) | Sentence::Quest(_, stamp) => stamp,
        }
    }
}

/// A sentence built from its parts gives them back: its term, stamp and punctuation,
/// and its truth value exactly when it is a judgement or a goal.
pub proof fn law_sentence_parts(term: Term, punctuation: Punctuation, stamp: Stamp, truth: Truth)
    ensures
        sentence_of(term, punctuation, stamp, truth).term_of() == term,
        sentence_of(term, punctuation, stamp, truth).stamp_of() == stamp,
        sentence_of(term, punctuation, stamp, truth).punctuation_of() == punctuation,
        sentence_of(term, punctuation, stamp, truth).truth_of() == (match punctuation {
            Punctuation::Judgement | Punctuation::Goal => Some(truth),
            _ => None,
        }),
{
}

} // verus!
