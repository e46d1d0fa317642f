//! Evidential values: what truth values and desire values share, a frequency and a
//! confidence.
use vstd::prelude::*;
use crate::api::FloatBits;
use crate::enum_narsese::sentence::Truth;

verus! {

/// Values with a frequency and a confidence (either may be missing).
pub trait EvidentValue<V: Copy> {
    /// Whether the value holds a frequency.
    spec fn has_frequency(&self) -> bool;

    /// Whether the value holds a confidence.
    spec fn has_confidence(&self) -> bool;

    /// The frequency, in specifications.
    spec fn frequency_of(&self) -> V;

    /// The confidence, in specifications.
    spec fn confidence_of(&self) -> V;

    /// The frequency.
    fn get_frequency(&self) -> (f: V)
        requires
            self.has_frequency(),
        ensures
            f == self.frequency_of(),
    ;

    /// The confidence.
    fn get_confidence(&self) -> (c: V)
        requires
            self.has_confidence(),
        ensures
            c == self.confidence_of(),
    ;

    /// The frequency and the confidence.
    fn get_frequency_confidence(&self) -> (fc: (V, V))
        requires
            self.has_frequency(),
            self.has_confidence(),
        ensures
            fc == (self.frequency_of(), self.confidence_of()),
    {
        (self.get_frequency(), self.get_confidence())
    }

    /// The frequency (short name).
    fn frequency(&self) -> (f: V)
        requires
            self.has_frequency(),
        ensures
            f == self.frequency_of(),
    {
        self.get_frequency()
    }

    /// The confidence (short name).
    fn confidence(&self) -> (c: V)
        requires
            self.has_confidence(),
        ensures
            c == self.confidence_of(),
    {
        self.get_confidence()
    }
}

/// Evidential values whose frequency and confidence can be changed.
pub trait EvidentValueMut<V: Copy>: EvidentValue<V> + Sized {
    /// The value with the frequency replaced, in specifications.
    spec fn with_frequency(self, f: V) -> Self;

    /// The value with the confidence replaced, in specifications.
    spec fn with_confidence(self, c: V) -> Self;

    /// Replaces the frequency.
    fn set_frequency(&mut self, new_f: &V)
        requires
            old(self).has_frequency(),
        ensures
            *final(self) == old(self).with_frequency(*new_f),
    ;

    /// Replaces the confidence.
    fn set_confidence(&mut self, new_c: &V)
        requires
            old(self).has_confidence(),
        ensures
            *final(self) == old(self).with_confidence(*new_c),
    ;
}

impl<V: Copy> EvidentValue<V> for (V, V) {
    open spec fn has_frequency(&self) -> bool {
        true
    }

    open spec fn has_confidence(&self) -> bool {
        true
    }

    open spec fn frequency_of(&self) -> V {
        self.0
    }

    open spec fn confidence_of(&self) -> V {
        self.1
    }

    fn get_frequency(&self) -> (f: V) {
        self.0
    }

    fn get_confidence(&self) -> (c: V) {
        self.1
    }
}

impl<V: Copy> EvidentValueMut<V> for (V, V) {
    open spec fn with_frequency(self, f: V) -> Self {
        (f, self.1)
    }

    open spec fn with_confidence(self, c: V) -> Self {
        (self.0, c)
    }

    fn set_frequency(&mut self, new_f: &V) {
        self.0 = *new_f;
    }

    fn set_confidence(&mut self, new_c: &V) {
        self.1 = *new_c;
    }
}

impl EvidentValue<FloatBits> for Truth {
    open spec fn has_frequency(&self) -> bool {
        !(*self is Empty)
    }

    open spec fn has_confidence(&self) -> bool {
        *self is Double
    }

    open spec fn frequency_of(&self) -> FloatBits {
        match *self {
            Truth::Single(f) => f,
            Truth::Double(f, _) => f,
            Truth::Empty => 0,
        }
    }

    open spec fn confidence_of(&self) -> FloatBits {
        match *self {
            Truth::Double(_, c) => c,
            _ => 0,
        }
    }

    fn get_frequency(&self) -> (f: FloatBits) {
        match self {
            Truth::Single(f) | Truth::Double(f, _) => *f,
            Truth::Empty => 0,
        }
    }

    fn get_confidence(&self) -> (c: FloatBits) {
        match self {
            Truth::Double(_, c) => *c,
            _ => 0,
        }
    }
}

impl EvidentValueMut<FloatBits> for Truth {
    open spec fn with_frequency(self, f: FloatBits) -> Self {
        match self {
            Truth::Single(_) => Truth::Single(f),
            Truth::Double(_, c) => Truth::Double(f, c),
            Truth::Empty => Truth::Empty,
        }
    }

    open spec fn with_confidence(self, c: FloatBits) -> Self {
        match self {
            Truth::Double(f, _) => Truth::Double(f, c),
            other => other,
        }
    }

    fn set_frequency(&mut self, new_f: &FloatBits) {
        match self {
            Truth::Single(f) => *self = Truth::Single(*new_f),
            Truth::Double(_, c) => *self = Truth::Double(*new_f, *c),
            Truth::Empty => {},
        }
    }

    fn set_confidence(&mut self, new_c: &FloatBits) {
        match self {
            Truth::Double(f, _) => *self = Truth::Double(*f, *new_c),
            _ => {},
        }
    }
}

/// Setting the frequency or the confidence of a truth value and reading it back gives
/// what was set, and leaves the other number and the shape as they were.
pub proof fn law_truth_set_then_get(t: Truth, v: FloatBits)
    ensures
        t.has_frequency() ==> t.with_frequency(v).frequency_of() == v && t.with_frequency(
            v,
        ).confidence_of() == t.confidence_of() && t.with_frequency(v).has_confidence()
            == t.has_confidence(),
        t.has_confidence() ==> t.with_confidence(v).confidence_of() == v && t.with_confidence(
            v,
        ).frequency_of() == t.frequency_of(),
{
}

} // verus!
