//! Parsing into any type that can be parsed, one interface for every parser.
use vstd::prelude::*;

verus! {

/// A value that a parser of type `Parser` reads from a `From` (most often a string).
pub trait FromParse<From, Parser>: Sized {
    /// The value that the parser reads from `from`.
    fn from_parse(from: From, parser: Parser) -> Self;
}

} // verus!
