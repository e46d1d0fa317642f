//! Narsese data structures, formats, parsers and formatters.
#![allow(unused_imports)]

pub mod text;
pub mod numeral;
pub mod api;
pub mod enum_narsese;
pub mod lexical;
pub mod conversion;
