//! Formatting of Narsese values, one interface for every formatter and every kind of
//! value.
use vstd::prelude::*;

verus! {

/// A Narsese value that a formatter of type `Formatter` writes as a `Target` (most often
/// a string).
pub trait FormatTo<Formatter, Target = String> {
    /// `target` is what the formatter makes of the value.
    spec fn formats_to(&self, formatter: Formatter, target: Target) -> bool;

    /// What the formatter makes of the value.
    fn format_to(&self, formatter: Formatter) -> (target: Target)
        ensures
            self.formats_to(formatter, target),
    ;
}

} // verus!
