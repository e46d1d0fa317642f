//! The category of a term: atom, compound or statement.
use vstd::prelude::*;

verus! {

/// Term category: the coarse kind of a term.
#[derive(Debug, Clone, Copy, PartialEq, Eq, Hash, Structural)]
pub enum TermCategory {
    /// Atomic term
    Atom,
    /// Compound term
    Compound,
    /// Statement
    Statement,
}

/// Terms that know their category.
pub trait GetCategory {
    /// The category of the term, in specifications.
    spec fn spec_category(&self) -> TermCategory;

    /// The category of the term.
    fn get_category(&self) -> (c: TermCategory)
        ensures
            c == self.spec_category(),
    ;

    /// Whether the term is an atom.
    fn is_atom(&self) -> (b: bool)
        ensures
            b == (self.spec_category() == TermCategory::Atom),
    {
        self.get_category() == TermCategory::Atom
    }

    /// Whether the term is a compound term.
    fn is_compound(&self) -> (b: bool)
        ensures
            b == (self.spec_category() == TermCategory::Compound),
    {
        self.get_category() == TermCategory::Compound
    }

    /// Whether the term is a statement.
    fn is_statement(&self) -> (b: bool)
        ensures
            b == (self.spec_category() == TermCategory::Statement),
    {
        self.get_category() == TermCategory::Statement
    }
}

} // verus!
