//! Lexical Narsese as strings: the format with its dictionaries, its instances, the
//! formatter and the parser.

pub mod dicts;
pub mod format;
pub mod format_instances;
pub mod formatter;
pub mod parser;

pub use format::{
    CharClass, NarseseFormat, NarseseFormatAtom, NarseseFormatCompound, NarseseFormatSentence,
    NarseseFormatSpace, NarseseFormatStatement, NarseseFormatTask,
};
