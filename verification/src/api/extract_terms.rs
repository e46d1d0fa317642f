//! The terms inside a term: an atom gives itself, a compound its components (the
//! placeholder of an image included), a statement its subject and predicate.
use vstd::prelude::*;

verus! {

/// A value whose terms can be taken out of it.
pub trait ExtractTerms: Sized {
    /// The type of the terms taken out.
    type Term;

    /// The terms that the value holds, in order.
    spec fn extracted(&self) -> Seq<Self::Term>;

    /// Takes the terms out of the value (see [`ExtractTerms::extracted`]).
    fn extract_terms_to_vec(self) -> (terms: Vec<Self::Term>)
        ensures
            terms@ == self.extracted(),
    ;
}

} // verus!
