//! Enum Narsese as strings: the format, its instances, the formatter and the parser.

pub mod format;
pub mod format_instances;
pub mod formatter;
pub mod parser;
pub mod reading;
pub mod result;

pub use format::{
    NarseseFormat, NarseseFormatAtom, NarseseFormatCompound, NarseseFormatSentence,
    NarseseFormatSpace, NarseseFormatStatement, NarseseFormatTask,
};
