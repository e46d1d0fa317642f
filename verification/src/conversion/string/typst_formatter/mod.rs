//! A formatter of enum Narsese into Typst formulas. It is no Narsese format: atoms are
//! written with their names quoted, which a format of prefixes cannot say.

pub mod definition;
pub mod formatter_enum;

pub use definition::{post_process_whitespace, FormatterTypst};
