//! The format of enum Narsese: every piece of syntax that a formatter writes and a
//! parser reads.
use vstd::prelude::*;

verus! {

/// The prefixes of atoms.
#[derive(Debug)]
pub struct NarseseFormatAtom<Content> {
    /// Word
    pub prefix_word: Content,
    /// Independent variable
    pub prefix_variable_independent: Content,
    /// Dependent variable
    pub prefix_variable_dependent: Content,
    /// Query variable
    pub prefix_variable_query: Content,
    /// Interval
    pub prefix_interval: Content,
    /// Operator
    pub prefix_operator: Content,
    /// Placeholder of an image
    pub prefix_placeholder: Content,
}

/// The brackets, separator and connectors of compound terms.
#[derive(Debug)]
pub struct NarseseFormatCompound<Content> {
    /// Brackets of compounds with a connector
    pub brackets: (Content, Content),
    /// Separator of components
    pub separator: Content,
    /// Brackets of extensional sets
    pub brackets_set_extension: (Content, Content),
    /// Brackets of intensional sets
    pub brackets_set_intension: (Content, Content),
    /// Extensional intersection
    pub connecter_intersection_extension: Content,
    /// Intensional intersection
    pub connecter_intersection_intension: Content,
    /// Extensional difference
    pub connecter_difference_extension: Content,
    /// Intensional difference
    pub connecter_difference_intension: Content,
    /// Product
    pub connecter_product: Content,
    /// Extensional image
    pub connecter_image_extension: Content,
    /// Intensional image
    pub connecter_image_intension: Content,
    /// Conjunction
    pub connecter_conjunction: Content,
    /// Disjunction
    pub connecter_disjunction: Content,
    /// Negation
    pub connecter_negation: Content,
    /// Sequential conjunction
    pub connecter_conjunction_sequential: Content,
    /// Parallel conjunction
    pub connecter_conjunction_parallel: Content,
}

/// The brackets and copulas of statements.
#[derive(Debug)]
pub struct NarseseFormatStatement<Content> {
    /// Brackets of statements
    pub brackets: (Content, Content),
    /// Inheritance
    pub copula_inheritance: Content,
    /// Similarity
    pub copula_similarity: Content,
    /// Implication
    pub copula_implication: Content,
    /// Equivalence
    pub copula_equivalence: Content,
    /// Instance (derived)
    pub copula_instance: Content,
    /// Property (derived)
    pub copula_property: Content,
    /// Instance property (derived)
    pub copula_instance_property: Content,
    /// Predictive implication
    pub copula_implication_predictive: Content,
    /// Concurrent implication
    pub copula_implication_concurrent: Content,
    /// Retrospective implication
    pub copula_implication_retrospective: Content,
    /// Predictive equivalence
    pub copula_equivalence_predictive: Content,
    /// Concurrent equivalence
    pub copula_equivalence_concurrent: Content,
    /// Retrospective equivalence
    pub copula_equivalence_retrospective: Content,
}

/// The punctuations, stamps and truth values of sentences.
#[derive(Debug)]
pub struct NarseseFormatSentence<Content> {
    /// Judgement
    pub punctuation_judgement: Content,
    /// Goal
    pub punctuation_goal: Content,
    /// Question
    pub punctuation_question: Content,
    /// Quest
    pub punctuation_quest: Content,
    /// Brackets of stamps
    pub stamp_brackets: (Content, Content),
    /// Past
    pub stamp_past: Content,
    /// Present
    pub stamp_present: Content,
    /// Future
    pub stamp_future: Content,
    /// Fixed time, before the number
    pub stamp_fixed: Content,
    /// Brackets of truth values
    pub truth_brackets: (Content, Content),
    /// Separator of the numbers of a truth value
    pub truth_separator: Content,
}

/// The budgets of tasks.
#[derive(Debug)]
pub struct NarseseFormatTask<Content> {
    /// Brackets of budgets
    pub budget_brackets: (Content, Content),
    /// Separator of the numbers of a budget
    pub budget_separator: Content,
}

/// The spaces: what parsing skips, and what formatting puts between terms and between
/// the items of a sentence.
#[derive(Debug)]
pub struct NarseseFormatSpace<Content> {
    /// Skipped when parsing
    pub parse: Content,
    /// Between terms when formatting
    pub format_terms: Content,
    /// Between the budget and the sentence when formatting
    pub format_items: Content,
}

/// A format of enum Narsese.
#[derive(Debug)]
pub struct NarseseFormat<Content> {
    /// Spaces
    pub space: NarseseFormatSpace<Content>,
    /// Atoms
    pub atom: NarseseFormatAtom<Content>,
    /// Compound terms
    pub compound: NarseseFormatCompound<Content>,
    /// Statements
    pub statement: NarseseFormatStatement<Content>,
    /// Sentences
    pub sentence: NarseseFormatSentence<Content>,
    /// Tasks
    pub task: NarseseFormatTask<Content>,
}

impl<'a> NarseseFormat<&'a str> {
    /// All the copulas, in the order in which statements are recognised.
    pub open spec fn copulas_spec(&self) -> Seq<&'a str> {
        seq![
            self.statement.copula_inheritance,
            self.statement.copula_similarity,
            self.statement.copula_implication,
            self.statement.copula_equivalence,
            self.statement.copula_instance,
            self.statement.copula_property,
            self.statement.copula_instance_property,
            self.statement.copula_implication_predictive,
            self.statement.copula_implication_concurrent,
            self.statement.copula_implication_retrospective,
            self.statement.copula_equivalence_predictive,
            self.statement.copula_equivalence_concurrent,
            self.statement.copula_equivalence_retrospective,
        ]
    }

    /// All the copulas, in the order in which statements are recognised: the words at
    /// which the name of an atom ends.
    pub fn copulas(&self) -> (res: [&'a str; 13])
        ensures
            res@ == self.copulas_spec(),
            res@ == seq![
                self.statement.copula_inheritance,
                self.statement.copula_similarity,
                self.statement.copula_implication,
                self.statement.copula_equivalence,
                self.statement.copula_instance,
                self.statement.copula_property,
                self.statement.copula_instance_property,
                self.statement.copula_implication_predictive,
                self.statement.copula_implication_concurrent,
                self.statement.copula_implication_retrospective,
                self.statement.copula_equivalence_predictive,
                self.statement.copula_equivalence_concurrent,
                self.statement.copula_equivalence_retrospective,
            ],
    {
        [
            self.statement.copula_inheritance,
            self.statement.copula_similarity,
            self.statement.copula_implication,
            self.statement.copula_equivalence,
            self.statement.copula_instance,
            self.statement.copula_property,
            self.statement.copula_instance_property,
            self.statement.copula_implication_predictive,
            self.statement.copula_implication_concurrent,
            self.statement.copula_implication_retrospective,
            self.statement.copula_equivalence_predictive,
            self.statement.copula_equivalence_concurrent,
            self.statement.copula_equivalence_retrospective,
        ]
    }
}

} // verus!
