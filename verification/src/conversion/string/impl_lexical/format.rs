//! The format of lexical Narsese: dictionaries of the prefixes, connectors, copulas,
//! brackets and punctuations that a parser recognises, the brackets and separators that a
//! formatter writes, and the classes of characters that may stand in names and numbers.
use vstd::prelude::*;
use nar_dev_utils::{BiFixMatchDictPair, PrefixMatchDict, SuffixMatchDict, SuffixMatchDictPair, BiFixMatchDict};
use crate::conversion::string::impl_enum::parser::{is_name_char, is_valid_atom_name};
use crate::text::{char_is_whitespace, is_whitespace};

verus! {

/// A class of characters.
#[derive(Debug, Clone)]
pub enum CharClass {
    /// White space
    Whitespace,
    /// The characters of names: letters and numerals, `_`, `-`, and those beyond U+1F2FF
    Identifier,
    /// The decimal digits and the given characters
    DigitsAnd(Vec<char>),
}

/// Whether the class holds the character.
pub open spec fn class_has(class: CharClass, c: char) -> bool {
    match class {
        CharClass::Whitespace => char_is_whitespace(c),
        CharClass::Identifier => is_name_char(c),
        CharClass::DigitsAnd(extra) => ('0' <= c && c <= '9') || extra@.contains(c),
    }
}

impl CharClass {
    /// Whether the class holds the character (see [`class_has`]).
    pub fn has(&self, c: char) -> (b: bool)
        ensures
            b == class_has(*self, c),
    {
        match self {
            CharClass::Whitespace => is_whitespace(c),
            CharClass::Identifier => is_valid_atom_name(c),
            CharClass::DigitsAnd(extra) => {
                if '0' <= c && c <= '9' {
                    return true;
                }
                let mut i: usize = 0;
                while i < extra.len()
                    invariant
                        i <= extra@.len(),
                        forall|k: int| 0 <= k < i ==> extra@[k] != c,
                        class_has(*self, c) == extra@.contains(c),
                    decreases extra.len() - i,
                {
                    if extra[i] == c {
                        assert(extra@.contains(extra@[i as int]));
                        return true;
                    }
                    i += 1;
                }
                false
            },
        }
    }
}

/// Spaces: which characters parsing skips, and what formatting puts between terms and
/// between items.
pub struct NarseseFormatSpace {
    /// The characters of space
    pub is_for_parse: CharClass,
    /// Whether parsing removes the spaces first
    pub remove_spaces_before_parse: bool,
    /// Between terms when formatting
    pub format_terms: String,
    /// Between items when formatting
    pub format_items: String,
}

/// Atoms: their prefixes, and the characters of their names.
pub struct NarseseFormatAtom {
    /// The prefixes
    pub prefixes: PrefixMatchDict,
    /// The characters of names
    pub is_identifier: CharClass,
}

/// Compound terms: set brackets, brackets, separator and connectors.
pub struct NarseseFormatCompound {
    /// The brackets of sets, as pairs
    pub set_brackets: BiFixMatchDictPair,
    /// The brackets of compounds with a connector
    pub brackets: (String, String),
    /// The separator of components
    pub separator: String,
    /// The connectors
    pub connecters: PrefixMatchDict,
}

/// Statements: brackets and copulas.
pub struct NarseseFormatStatement {
    /// The brackets
    pub brackets: (String, String),
    /// The copulas
    pub copulas: BiFixMatchDict,
}

/// Sentences: punctuations, truth values and stamps.
pub struct NarseseFormatSentence {
    /// The punctuations
    pub punctuations: SuffixMatchDict,
    /// The brackets of truth values
    pub truth_brackets: (String, String),
    /// The separator of the numbers of a truth value
    pub truth_separator: String,
    /// The characters inside a truth value
    pub is_truth_content: CharClass,
    /// The brackets of stamps, as (left, right) keyed by the right one
    pub stamp_brackets: SuffixMatchDictPair<String>,
    /// The characters inside a stamp
    pub is_stamp_content: CharClass,
}

/// Tasks: budgets.
pub struct NarseseFormatTask {
    /// The brackets of budgets
    pub budget_brackets: (String, String),
    /// The separator of the numbers of a budget
    pub budget_separator: String,
    /// The characters inside a budget
    pub is_budget_content: CharClass,
}

/// A format of lexical Narsese.
pub struct NarseseFormat {
    /// Spaces
    pub space: NarseseFormatSpace,
    /// Atoms
    pub atom: NarseseFormatAtom,
    /// Compound terms
    pub compound: NarseseFormatCompound,
    /// Statements
    pub statement: NarseseFormatStatement,
    /// Sentences
    pub sentence: NarseseFormatSentence,
    /// Tasks
    pub task: NarseseFormatTask,
}

/// What the formats that the parser reads must have: the brackets that open a nested
/// term are not empty (else it would read the same text again without end), and no
/// closing bracket or separator is longer than half of the address space (so that the
/// positions after them fit in a `usize`).
pub open spec fn lexical_parse_wf(f: NarseseFormat) -> bool {
    let set_brackets = crate::conversion::string::impl_lexical::dicts::bi_fixes_of(f.compound.set_brackets);
    &&& f.compound.brackets.0@.len() > 0
    &&& f.statement.brackets.0@.len() > 0
    &&& forall|p: Seq<char>| #[trigger] set_brackets.dom().contains(p) ==> p.len() > 0
        && set_brackets[p].len() <= usize::MAX / 2
    &&& f.compound.brackets.1@.len() <= usize::MAX / 2
    &&& f.statement.brackets.1@.len() <= usize::MAX / 2
    &&& f.compound.separator@.len() <= usize::MAX / 2
}

} // verus!
