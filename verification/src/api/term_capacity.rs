//! The capacity of a term: how many components its data structure can hold.
use vstd::prelude::*;
use vstd::std_specs::cmp::PartialOrdSpecImpl;
use core::cmp::Ordering;

verus! {

/// Term capacity, by the data structure that holds the components.
#[derive(Debug, Clone, Copy, PartialEq, Eq, Hash, Structural)]
pub enum TermCapacity {
    /// Atomic
    Atom,
    /// One component
    Unary,
    /// Two ordered components
    BinaryVec,
    /// Two unordered components
    BinarySet,
    /// Many ordered components
    Vec,
    /// Many unordered components
    SetMany,
}

impl TermCapacity {
    /// The base number of a capacity: 1 for atoms and unary, 2 for binary, 3 for many.
    pub open spec fn spec_base_num(self) -> usize {
        match self {
            TermCapacity::Atom | TermCapacity::Unary => 1,
            TermCapacity::BinaryVec | TermCapacity::BinarySet => 2,
            TermCapacity::Vec | TermCapacity::SetMany => 3,
        }
    }

    /// The base number of a capacity: 1 for atoms and unary, 2 for binary, 3 for many.
    pub fn base_num(&self) -> (n: usize)
        ensures
            n == self.spec_base_num(),
    {
        match self {
            TermCapacity::Atom | TermCapacity::Unary => 1,
            TermCapacity::BinaryVec | TermCapacity::BinarySet => 2,
            TermCapacity::Vec | TermCapacity::SetMany => 3,
        }
    }
}

/// Capacities are ordered by their base numbers (see [`TermCapacity::spec_base_num`]):
/// those of the same base number compare as equal in this order, though they are distinct
/// values.
impl PartialOrd for TermCapacity {
    fn partial_cmp(&self, other: &Self) -> (r: Option<Ordering>) {
        let a = self.base_num();
        let b = other.base_num();
        if a < b {
            Some(Ordering::Less)
        } else if a == b {
            Some(Ordering::Equal)
        } else {
            Some(Ordering::Greater)
        }
    }
}

impl PartialOrdSpecImpl for TermCapacity {
    open spec fn obeys_partial_cmp_spec() -> bool {
        true
    }

    open spec fn partial_cmp_spec(&self, other: &Self) -> Option<Ordering> {
        if self.spec_base_num() < other.spec_base_num() {
            Some(Ordering::Less)
        } else if self.spec_base_num() == other.spec_base_num() {
            Some(Ordering::Equal)
        } else {
            Some(Ordering::Greater)
        }
    }
}

/// Terms that know their capacity.
pub trait GetCapacity {
    /// The capacity of the term, in specifications.
    spec fn spec_capacity(&self) -> TermCapacity;

    /// The capacity of the term.
    fn get_capacity(&self) -> (c: TermCapacity)
        ensures
            c == self.spec_capacity(),
    ;

    /// Whether the capacity is atomic.
    fn is_capacity_atom(&self) -> (b: bool)
        ensures
            b == (self.spec_capacity() == TermCapacity::Atom),
    {
        self.get_capacity() == TermCapacity::Atom
    }

    /// Whether the capacity is unary.
    fn is_capacity_unary(&self) -> (b: bool)
        ensures
            b == (self.spec_capacity() == TermCapacity::Unary),
    {
        self.get_capacity() == TermCapacity::Unary
    }

    /// Whether the capacity is binary (ordered or not).
    fn is_capacity_binary(&self) -> (b: bool)
        ensures
            b == (self.spec_capacity() == TermCapacity::BinaryVec || self.spec_capacity()
                == TermCapacity::BinarySet),
    {
        let c = self.get_capacity();
        c == TermCapacity::BinaryVec || c == TermCapacity::BinarySet
    }

    /// Whether the capacity is binary and ordered.
    fn is_capacity_binary_vec(&self) -> (b: bool)
        ensures
            b == (self.spec_capacity() == TermCapacity::BinaryVec),
    {
        self.get_capacity() == TermCapacity::BinaryVec
    }

    /// Whether the capacity is binary and unordered.
    fn is_capacity_binary_set(&self) -> (b: bool)
        ensures
            b == (self.spec_capacity() == TermCapacity::BinarySet),
    {
        self.get_capacity() == TermCapacity::BinarySet
    }

    /// Whether the capacity holds many components (ordered or not).
    fn is_capacity_multi(&self) -> (b: bool)
        ensures
            b == (self.spec_capacity() == TermCapacity::Vec || self.spec_capacity()
                == TermCapacity::SetMany),
    {
        let c = self.get_capacity();
        c == TermCapacity::Vec || c == TermCapacity::SetMany
    }

    /// Whether the capacity holds many ordered components.
    fn is_capacity_vec(&self) -> (b: bool)
        ensures
            b == (self.spec_capacity() == TermCapacity::Vec),
    {
        self.get_capacity() == TermCapacity::Vec
    }

    /// Whether the capacity holds many unordered components.
    fn is_capacity_set(&self) -> (b: bool)
        ensures
            b == (self.spec_capacity() == TermCapacity::SetMany),
    {
        self.get_capacity() == TermCapacity::SetMany
    }
}

} // verus!
