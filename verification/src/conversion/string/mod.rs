//! String formats of Narsese, with their formatters and parsers.

pub mod common;
pub mod impl_enum;
pub mod impl_lexical;
pub mod typst_formatter;

pub use common::NarseseResult;
