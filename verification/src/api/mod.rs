//! Implementation-independent Narsese interfaces: term categories and capacities,
//! the union of term/sentence/task, partially filled Narsese, and accessor traits.

pub mod term_category;
pub mod term_capacity;
pub mod get_inner;
pub mod narsese_value;
pub mod hyper_parameters;
pub mod format;
pub mod extract_terms;
pub mod parse;

pub use term_category::{GetCategory, TermCategory};
pub use term_capacity::{GetCapacity, TermCapacity};
pub use get_inner::{CastToTask, GetBudget, GetPunctuation, GetStamp, GetTerm, GetTruth, TryCastToSentence};
pub use narsese_value::{ConversionError, NarseseValue};
pub use format::FormatTo;
pub use extract_terms::ExtractTerms;
pub use parse::FromParse;
pub use hyper_parameters::{FloatBits, IntPrecision, UIntPrecision};
pub mod narsese_options;
pub mod evidence_value;
pub use evidence_value::{EvidentValue, EvidentValueMut};
pub use narsese_options::NarseseOptions;
