//! Conversions of Narsese: to and from strings, and from lexical Narsese to Narsese with meaning.

pub mod string;
pub mod lexical_fold;
