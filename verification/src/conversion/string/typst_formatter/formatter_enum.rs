//! The Typst formulas of enum Narsese. Atoms are written as their prefix and their name
//! quoted (std's `Debug` text of a string); every text is post-processed (see
//! [`whitespace_processed`]), the texts of components on their own before they are put
//! together. Truth values and budgets come with the texts of their numbers, which the
//! caller renders.
use vstd::prelude::*;
use crate::api::{FormatTo, GetPunctuation, GetStamp, GetTerm, GetTruth, TermCategory};
use crate::conversion::string::common::{joined, template_atom, template_components, template_statement, texts};
use crate::conversion::string::impl_enum::formatter::{budget_count, sentence_truth, truth_count};
use crate::conversion::string::impl_enum::parser::{debug_str, debug_text_of_str};
use crate::conversion::string::typst_formatter::definition::{
    post_process_whitespace, whitespace_processed, FormatterTypst, BRACKET_BUDGET_LEFT,
    BRACKET_BUDGET_RIGHT, BRACKET_COMPOUND_LEFT, BRACKET_COMPOUND_RIGHT, BRACKET_EXT_SET_LEFT,
    BRACKET_EXT_SET_RIGHT, BRACKET_INT_SET_LEFT, BRACKET_INT_SET_RIGHT, BRACKET_STATEMENT_LEFT,
    BRACKET_STATEMENT_RIGHT, BRACKET_TRUTH_LEFT, BRACKET_TRUTH_RIGHT, CONNECTER_CONJUNCTION,
    CONNECTER_DISJUNCTION, CONNECTER_EXT_DIFFERENCE, CONNECTER_EXT_IMAGE, CONNECTER_EXT_INTERSECT,
    CONNECTER_INT_DIFFERENCE, CONNECTER_INT_IMAGE, CONNECTER_INT_INTERSECT, CONNECTER_NEGATION,
    CONNECTER_PAR_CONJUNCTION, CONNECTER_PRODUCT, CONNECTER_SEQ_CONJUNCTION, COPULA_EQUIVALENCE,
    COPULA_EQUIVALENCE_CONCURRENT, COPULA_EQUIVALENCE_PREDICTIVE, COPULA_IMPLICATION,
    COPULA_IMPLICATION_CONCURRENT, COPULA_IMPLICATION_PREDICTIVE, COPULA_IMPLICATION_RETROSPECTIVE,
    COPULA_INHERITANCE, COPULA_SIMILARITY, PUNCTUATION_GOAL, PUNCTUATION_JUDGEMENT,
    PUNCTUATION_QUEST, PUNCTUATION_QUESTION, SEPARATOR_BUDGET, SEPARATOR_COMPOUND, SEPARATOR_ITEM,
    SEPARATOR_STATEMENT, SEPARATOR_TRUTH, STAMP_ETERNAL, STAMP_FIXED, STAMP_FUTURE, STAMP_PAST,
    STAMP_PRESENT, TERM_PREFIX_D_VAR, TERM_PREFIX_INTERVAL, TERM_PREFIX_I_VAR, TERM_PREFIX_OPERATOR,
    TERM_PREFIX_PLACEHOLDER, TERM_PREFIX_Q_VAR, TERM_PREFIX_WORD,
};
use crate::enum_narsese::sentence::{Punctuation, Sentence, Stamp, Truth};
use crate::enum_narsese::task::{Budget, Task};
use crate::enum_narsese::term::{atom_name, term_category, Term};
use crate::numeral::{isize_to_string, signed_decimal_text};
use crate::text::push_str;

verus! {

// Terms //

/// What marks a term: the prefix of an atom, the connector of a compound (nothing for
/// sets, which their brackets mark), the copula of a statement.
pub open spec fn typst_feature(t: Term) -> Seq<char> {
    match t {
        Term::Word(..) => TERM_PREFIX_WORD@,
        Term::Placeholder => TERM_PREFIX_PLACEHOLDER@,
        Term::VariableIndependent(..) => TERM_PREFIX_I_VAR@,
        Term::VariableDependent(..) => TERM_PREFIX_D_VAR@,
        Term::VariableQuery(..) => TERM_PREFIX_Q_VAR@,
        Term::Interval(..) => TERM_PREFIX_INTERVAL@,
        Term::Operator(..) => TERM_PREFIX_OPERATOR@,
        Term::SetExtension(..) => Seq::empty(),
        Term::SetIntension(..) => Seq::empty(),
        Term::IntersectionExtension(..) => CONNECTER_EXT_INTERSECT@,
        Term::IntersectionIntension(..) => CONNECTER_INT_INTERSECT@,
        Term::DifferenceExtension(..) => CONNECTER_EXT_DIFFERENCE@,
        Term::DifferenceIntension(..) => CONNECTER_INT_DIFFERENCE@,
        Term::Product(..) => CONNECTER_PRODUCT@,
        Term::ImageExtension(..) => CONNECTER_EXT_IMAGE@,
        Term::ImageIntension(..) => CONNECTER_INT_IMAGE@,
        Term::Conjunction(..) => CONNECTER_CONJUNCTION@,
        Term::Disjunction(..) => CONNECTER_DISJUNCTION@,
        Term::Negation(..) => CONNECTER_NEGATION@,
        Term::ConjunctionSequential(..) => CONNECTER_SEQ_CONJUNCTION@,
        Term::ConjunctionParallel(..) => CONNECTER_PAR_CONJUNCTION@,
        Term::Inheritance(..) => COPULA_INHERITANCE@,
        Term::Similarity(..) => COPULA_SIMILARITY@,
        Term::Implication(..) => COPULA_IMPLICATION@,
        Term::Equivalence(..) => COPULA_EQUIVALENCE@,
        Term::ImplicationPredictive(..) => COPULA_IMPLICATION_PREDICTIVE@,
        Term::ImplicationConcurrent(..) => COPULA_IMPLICATION_CONCURRENT@,
        Term::ImplicationRetrospective(..) => COPULA_IMPLICATION_RETROSPECTIVE@,
        Term::EquivalencePredictive(..) => COPULA_EQUIVALENCE_PREDICTIVE@,
        Term::EquivalenceConcurrent(..) => COPULA_EQUIVALENCE_CONCURRENT@,
    }
}

/// Which of the nine kinds of statement a term is: inheritance, similarity,
/// implication, equivalence, then the predictive, concurrent and retrospective
/// implications and the predictive and concurrent equivalences; none (-1) for other terms.
pub open spec fn statement_kind(t: Term) -> int {
    match t {
        Term::Inheritance(..) => 0,
        Term::Similarity(..) => 1,
        Term::Implication(..) => 2,
        Term::Equivalence(..) => 3,
        Term::ImplicationPredictive(..) => 4,
        Term::ImplicationConcurrent(..) => 5,
        Term::ImplicationRetrospective(..) => 6,
        Term::EquivalencePredictive(..) => 7,
        Term::EquivalenceConcurrent(..) => 8,
        _ => -1,
    }
}

/// Each kind of statement has a Typst copula of its own: two statements of different
/// kinds are marked differently, so no two kinds format alike.
pub proof fn law_typst_copulas_tell_statements_apart(t: Term, u: Term)
    requires
        statement_kind(t) >= 0,
        statement_kind(u) >= 0,
        statement_kind(t) != statement_kind(u),
    ensures
        typst_feature(t) != typst_feature(u),
{
    reveal_strlit(" arrow.r ");
    reveal_strlit(" arrow.l.r ");
    reveal_strlit(" arrow.r.double ");
    reveal_strlit(" arrow.l.r.double ");
    reveal_strlit(" space\\/#h(-0.6em)arrow.r.double ");
    reveal_strlit(" space\\|#h(-0.6em)arrow.r.double ");
    reveal_strlit(" space\\\\#h(-0.6em)arrow.r.double ");
    reveal_strlit(" space\\/#h(-0.6em)arrow.l.r.double ");
    reveal_strlit(" space\\|#h(-0.6em)arrow.l.r.double ");
    let a = typst_feature(t);
    let b = typst_feature(u);
    if a == b {
        if a.len() == 9 || a.len() == 11 || a.len() == 16 || a.len() == 18 {
            assert(a[7] == b[7] && a[8] == b[8] && a[9] == b[9]);
        } else {
            assert(a[7] == b[7] && a[25] == b[25]);
        }
    }
}

/// The brackets of a term: those of its kind of set, else of compounds or statements;
/// none for atoms.
pub open spec fn typst_brackets(t: Term) -> (Seq<char>, Seq<char>) {
    match t {
        Term::SetExtension(..) => (BRACKET_EXT_SET_LEFT@, BRACKET_EXT_SET_RIGHT@),
        Term::SetIntension(..) => (BRACKET_INT_SET_LEFT@, BRACKET_INT_SET_RIGHT@),
        _ => match term_category(t) {
            TermCategory::Compound => (BRACKET_COMPOUND_LEFT@, BRACKET_COMPOUND_RIGHT@),
            TermCategory::Statement => (BRACKET_STATEMENT_LEFT@, BRACKET_STATEMENT_RIGHT@),
            TermCategory::Atom => (Seq::empty(), Seq::empty()),
        },
    }
}

/// A compound: its brackets around its components; a set lists them, a compound of two
/// puts its connector between them, other compounds put it first.
pub open spec fn typst_compound(brackets: (Seq<char>, Seq<char>), connecter: Seq<char>, items: Seq<Seq<char>>) -> Seq<char> {
    brackets.0 + (if connecter.len() == 0 {
        joined(items, SEPARATOR_COMPOUND@, Seq::empty())
    } else if items.len() == 2 {
        joined(items, connecter, Seq::empty())
    } else {
        connecter + SEPARATOR_COMPOUND@ + joined(items, SEPARATOR_COMPOUND@, Seq::empty())
    }) + brackets.1
}

/// The text of the placeholder among the components of an image.
pub open spec fn typst_placeholder() -> Seq<char> {
    whitespace_processed(TERM_PREFIX_PLACEHOLDER@ + debug_text_of_str(Seq::empty()))
}

/// The components of an image as written: the placeholder inserted at its index (when the
/// index is within reach).
pub open spec fn typst_image_items(items: Seq<Seq<char>>, index: usize) -> Seq<Seq<char>> {
    if index <= items.len() {
        items.insert(index as int, typst_placeholder())
    } else {
        items
    }
}

/// The Typst text of a term before it is post-processed.
pub open spec fn typst_raw(t: Term) -> Seq<char>
    decreases t, 1nat,
{
    match t {
        Term::SetExtension(v) | Term::SetIntension(v) | Term::IntersectionExtension(v)
        | Term::IntersectionIntension(v) | Term::Product(v) | Term::Conjunction(v)
        | Term::Disjunction(v) | Term::ConjunctionSequential(v) | Term::ConjunctionParallel(v) => {
            typst_compound(typst_brackets(t), typst_feature(t), typst_texts(v@))
        },
        Term::ImageExtension(i, v) | Term::ImageIntension(i, v) => typst_compound(
            typst_brackets(t),
            typst_feature(t),
            typst_image_items(typst_texts(v@), i),
        ),
        Term::Negation(a) => typst_compound(
            typst_brackets(t),
            typst_feature(t),
            seq![whitespace_processed(typst_raw(*a))],
        ),
        Term::DifferenceExtension(a, b) | Term::DifferenceIntension(a, b) => typst_compound(
            typst_brackets(t),
            typst_feature(t),
            seq![whitespace_processed(typst_raw(*a)), whitespace_processed(typst_raw(*b))],
        ),
        Term::Inheritance(a, b) | Term::Similarity(a, b) | Term::Implication(a, b)
        | Term::Equivalence(a, b) | Term::ImplicationPredictive(a, b)
        | Term::ImplicationConcurrent(a, b) | Term::ImplicationRetrospective(a, b)
        | Term::EquivalencePredictive(a, b) | Term::EquivalenceConcurrent(a, b) => {
            typst_brackets(t).0 + whitespace_processed(typst_raw(*a)) + SEPARATOR_STATEMENT@
                + typst_feature(t) + SEPARATOR_STATEMENT@ + whitespace_processed(typst_raw(*b))
                + typst_brackets(t).1
        },
        _ => typst_feature(t) + debug_text_of_str(atom_name(t)),
    }
}

/// The post-processed Typst texts of terms, in order.
pub open spec fn typst_texts(s: Seq<Term>) -> Seq<Seq<char>>
    decreases s, 0nat,
{
    if s.len() == 0 {
        Seq::empty()
    } else {
        typst_texts(s.subrange(0, s.len() - 1)).push(whitespace_processed(typst_raw(s[s.len() - 1])))
    }
}

/// The Typst text of a term.
pub open spec fn typst_term_text(t: Term) -> Seq<char> {
    whitespace_processed(typst_raw(t))
}

// Punctuations, stamps, truth values, budgets, sentences and tasks //

/// The Typst text of a punctuation before it is post-processed.
pub open spec fn typst_punctuation_raw(p: Punctuation) -> Seq<char> {
    match p {
        Punctuation::Judgement => PUNCTUATION_JUDGEMENT@,
        Punctuation::Goal => PUNCTUATION_GOAL@,
        Punctuation::Question => PUNCTUATION_QUESTION@,
        Punctuation::Quest => PUNCTUATION_QUEST@,
    }
}

/// The Typst text of a stamp before it is post-processed: its prefix, then the time of a
/// fixed stamp.
pub open spec fn typst_stamp_raw(s: Stamp) -> Seq<char> {
    match s {
        Stamp::Eternal => STAMP_ETERNAL@,
        Stamp::Past => STAMP_PAST@,
        Stamp::Present => STAMP_PRESENT@,
        Stamp::Future => STAMP_FUTURE@,
        Stamp::Fixed(t) => STAMP_FIXED@ + signed_decimal_text(t as int),
    }
}

/// The Typst text of a truth value whose numbers read `items`, before it is
/// post-processed: nothing for the empty truth value.
pub open spec fn typst_truth_raw(t: Truth, items: Seq<Seq<char>>) -> Seq<char> {
    if t is Empty {
        Seq::empty()
    } else {
        BRACKET_TRUTH_LEFT@ + joined(items, SEPARATOR_TRUTH@, Seq::empty()) + BRACKET_TRUTH_RIGHT@
    }
}

/// The Typst text of a budget whose numbers read `items`, before it is post-processed:
/// the brackets even when it is empty.
pub open spec fn typst_budget_raw(items: Seq<Seq<char>>) -> Seq<char> {
    BRACKET_BUDGET_LEFT@ + joined(items, SEPARATOR_BUDGET@, Seq::empty()) + BRACKET_BUDGET_RIGHT@
}

/// The Typst text of a sentence before it is post-processed: the term, the punctuation,
/// the stamp, and after a space the truth value (empty for questions and quests).
pub open spec fn typst_sentence_raw(s: Sentence, truth_items: Seq<Seq<char>>) -> Seq<char> {
    typst_raw(s.term_of()) + typst_punctuation_raw(s.punctuation_of()) + typst_stamp_raw(s.stamp_of())
        + SEPARATOR_ITEM@ + typst_truth_raw(sentence_truth(s), truth_items)
}

/// The Typst text of a task before it is post-processed: the budget, then after spaces
/// the term with its punctuation, the stamp and the truth value.
pub open spec fn typst_task_raw(t: Task, budget_items: Seq<Seq<char>>, truth_items: Seq<Seq<char>>) -> Seq<char> {
    let s = t.0;
    typst_budget_raw(budget_items) + SEPARATOR_ITEM@ + typst_raw(s.term_of()) + typst_punctuation_raw(
        s.punctuation_of(),
    ) + SEPARATOR_ITEM@ + typst_stamp_raw(s.stamp_of()) + SEPARATOR_ITEM@ + typst_truth_raw(
        sentence_truth(s),
        truth_items,
    )
}

impl FormatterTypst {
    /// What marks a term (see [`typst_feature`]).
    fn feature_string(&self, term: &Term) -> (s: &'static str)
        ensures
            s@ == typst_feature(*term),
    {
        match term {
            Term::Word(..) => TERM_PREFIX_WORD,
            Term::Placeholder => TERM_PREFIX_PLACEHOLDER,
            Term::VariableIndependent(..) => TERM_PREFIX_I_VAR,
            Term::VariableDependent(..) => TERM_PREFIX_D_VAR,
            Term::VariableQuery(..) => TERM_PREFIX_Q_VAR,
            Term::Interval(..) => TERM_PREFIX_INTERVAL,
            Term::Operator(..) => TERM_PREFIX_OPERATOR,
            Term::SetExtension(..) | Term::SetIntension(..) => {
                let none = "";
                proof {
                    reveal_strlit("");
                }
                assert(none@ =~= Seq::<char>::empty());
                none
            },
            Term::IntersectionExtension(..) => CONNECTER_EXT_INTERSECT,
            Term::IntersectionIntension(..) => CONNECTER_INT_INTERSECT,
            Term::DifferenceExtension(..) => CONNECTER_EXT_DIFFERENCE,
            Term::DifferenceIntension(..) => CONNECTER_INT_DIFFERENCE,
            Term::Product(..) => CONNECTER_PRODUCT,
            Term::ImageExtension(..) => CONNECTER_EXT_IMAGE,
            Term::ImageIntension(..) => CONNECTER_INT_IMAGE,
            Term::Conjunction(..) => CONNECTER_CONJUNCTION,
            Term::Disjunction(..) => CONNECTER_DISJUNCTION,
            Term::Negation(..) => CONNECTER_NEGATION,
            Term::ConjunctionSequential(..) => CONNECTER_SEQ_CONJUNCTION,
            Term::ConjunctionParallel(..) => CONNECTER_PAR_CONJUNCTION,
            Term::Inheritance(..) => COPULA_INHERITANCE,
            Term::Similarity(..) => COPULA_SIMILARITY,
            Term::Implication(..) => COPULA_IMPLICATION,
            Term::Equivalence(..) => COPULA_EQUIVALENCE,
            Term::ImplicationPredictive(..) => COPULA_IMPLICATION_PREDICTIVE,
            Term::ImplicationConcurrent(..) => COPULA_IMPLICATION_CONCURRENT,
            Term::ImplicationRetrospective(..) => COPULA_IMPLICATION_RETROSPECTIVE,
            Term::EquivalencePredictive(..) => COPULA_EQUIVALENCE_PREDICTIVE,
            Term::EquivalenceConcurrent(..) => COPULA_EQUIVALENCE_CONCURRENT,
        }
    }

    /// The brackets of a term (see [`typst_brackets`]).
    fn brackets_str(&self, term: &Term) -> (b: (&'static str, &'static str))
        ensures
            b.0@ == typst_brackets(*term).0,
            b.1@ == typst_brackets(*term).1,
    {
        match term {
            Term::SetExtension(..) => (BRACKET_EXT_SET_LEFT, BRACKET_EXT_SET_RIGHT),
            Term::SetIntension(..) => (BRACKET_INT_SET_LEFT, BRACKET_INT_SET_RIGHT),
            _ => match term.get_category() {
                TermCategory::Compound => (BRACKET_COMPOUND_LEFT, BRACKET_COMPOUND_RIGHT),
                TermCategory::Statement => (BRACKET_STATEMENT_LEFT, BRACKET_STATEMENT_RIGHT),
                TermCategory::Atom => {
                    let none = "";
                    proof {
                        reveal_strlit("");
                    }
                    assert(none@ =~= Seq::<char>::empty());
                    (none, none)
                },
            },
        }
    }

    /// Appends a compound (see [`typst_compound`]).
    fn template_compound(out: &mut String, brackets: (&str, &str), connecter: &str, components: &Vec<String>)
        ensures
            final(out)@ == old(out)@ + typst_compound(
                (brackets.0@, brackets.1@),
                connecter@,
                texts(components@),
            ),
    {
        let no_space = "";
        proof {
            reveal_strlit("");
        }
        assert(no_space@ =~= Seq::<char>::empty());
        let ghost o0 = out@;
        push_str(out, brackets.0);
        let ghost o1 = out@;
        if connecter.unicode_len() == 0 {
            template_components(out, components, SEPARATOR_COMPOUND, no_space);
        } else if components.len() == 2 {
            template_components(out, components, connecter, no_space);
        } else {
            push_str(out, connecter);
            push_str(out, SEPARATOR_COMPOUND);
            template_components(out, components, SEPARATOR_COMPOUND, no_space);
        }
        push_str(out, brackets.1);
        proof {
            assert(out@ =~= o0 + typst_compound((brackets.0@, brackets.1@), connecter@, texts(components@)));
        }
    }

    /// The post-processed Typst text of the placeholder (see [`typst_placeholder`]).
    fn placeholder_text() -> (s: String)
        ensures
            s@ == typst_placeholder(),
    {
        let none = "";
        proof {
            reveal_strlit("");
        }
        assert(none@ =~= Seq::<char>::empty());
        let quoted = debug_str(none);
        let mut out = String::new();
        template_atom(&mut out, TERM_PREFIX_PLACEHOLDER, quoted.as_str());
        assert(out@ =~= TERM_PREFIX_PLACEHOLDER@ + debug_text_of_str(Seq::empty()));
        post_process_whitespace(&mut out);
        out
    }

    /// The post-processed Typst text of a term.
    fn typst_term(&self, term: &Term) -> (s: String)
        ensures
            s@ == typst_term_text(*term),
        decreases *term, 5nat,
    {
        let mut out = String::new();
        self.format_term_into(&mut out, term);
        post_process_whitespace(&mut out);
        out
    }

    /// The post-processed Typst texts of the terms, in order.
    fn typst_terms(&self, v: &Vec<Term>) -> (res: Vec<String>)
        ensures
            texts(res@) == typst_texts(v@),
        decreases v@, 0nat,
    {
        let mut res: Vec<String> = Vec::new();
        let mut i: usize = 0;
        while i < v.len()
            invariant
                i <= v.len(),
                texts(res@) == typst_texts(v@.subrange(0, i as int)),
            decreases v.len() - i,
        {
            let t = self.typst_term(&v[i]);
            let ghost prev = res@;
            res.push(t);
            proof {
                let sub = v@.subrange(0, i + 1);
                assert(sub.subrange(0, sub.len() - 1) =~= v@.subrange(0, i as int));
                assert(sub[sub.len() - 1] == v@[i as int]);
                assert(texts(res@) =~= texts(prev).push(t@));
            }
            i += 1;
        }
        proof {
            assert(v@.subrange(0, v@.len() as int) =~= v@);
        }
        res
    }

    /// Appends the Typst text of a term before post-processing (see [`typst_raw`]).
    fn format_term_into(&self, out: &mut String, term: &Term)
        ensures
            final(out)@ == old(out)@ + typst_raw(*term),
        decreases *term, 3nat,
    {
        let feature = self.feature_string(term);
        let brackets = self.brackets_str(term);
        match term {
            Term::SetExtension(v) | Term::SetIntension(v) | Term::IntersectionExtension(v)
            | Term::IntersectionIntension(v) | Term::Product(v) | Term::Conjunction(v)
            | Term::Disjunction(v) | Term::ConjunctionSequential(v) | Term::ConjunctionParallel(
                v,
            ) => {
                let items = self.typst_terms(v);
                Self::template_compound(out, brackets, feature, &items);
            },
            Term::ImageExtension(i, v) | Term::ImageIntension(i, v) => {
                let mut items = self.typst_terms(v);
                if *i <= items.len() {
                    let ghost prev = items@;
                    let placeholder = Self::placeholder_text();
                    items.insert(*i, placeholder);
                    proof {
                        assert(texts(items@) =~= texts(prev).insert(*i as int, typst_placeholder()));
                    }
                }
                Self::template_compound(out, brackets, feature, &items);
            },
            Term::Negation(a) => {
                let mut items: Vec<String> = Vec::new();
                items.push(self.typst_term(a));
                proof {
                    assert(texts(items@) =~= seq![typst_term_text(**a)]);
                }
                Self::template_compound(out, brackets, feature, &items);
            },
            Term::DifferenceExtension(a, b) | Term::DifferenceIntension(a, b) => {
                let mut items: Vec<String> = Vec::new();
                items.push(self.typst_term(a));
                items.push(self.typst_term(b));
                proof {
                    assert(texts(items@) =~= seq![typst_term_text(**a), typst_term_text(**b)]);
                }
                Self::template_compound(out, brackets, feature, &items);
            },
            Term::Inheritance(a, b) | Term::Similarity(a, b) | Term::Implication(a, b)
            | Term::Equivalence(a, b) | Term::ImplicationPredictive(a, b)
            | Term::ImplicationConcurrent(a, b) | Term::ImplicationRetrospective(a, b)
            | Term::EquivalencePredictive(a, b) | Term::EquivalenceConcurrent(a, b) => {
                let subject = self.typst_term(a);
                let predicate = self.typst_term(b);
                template_statement(
                    out,
                    brackets.0,
                    subject.as_str(),
                    feature,
                    predicate.as_str(),
                    SEPARATOR_STATEMENT,
                    brackets.1,
                );
            },
            _ => {
                let name = term.get_atom_name_unchecked();
                let quoted = debug_str(name.as_str());
                template_atom(out, feature, quoted.as_str());
            },
        }
    }

    /// Appends the Typst text of a punctuation before post-processing.
    fn format_punctuation_into(&self, out: &mut String, punctuation: &Punctuation)
        ensures
            final(out)@ == old(out)@ + typst_punctuation_raw(*punctuation),
    {
        push_str(
            out,
            match punctuation {
                Punctuation::Judgement => PUNCTUATION_JUDGEMENT,
                Punctuation::Goal => PUNCTUATION_GOAL,
                Punctuation::Question => PUNCTUATION_QUESTION,
                Punctuation::Quest => PUNCTUATION_QUEST,
            },
        );
    }

    /// Appends the Typst text of a stamp before post-processing.
    fn format_stamp_into(&self, out: &mut String, stamp: &Stamp)
        ensures
            final(out)@ == old(out)@ + typst_stamp_raw(*stamp),
    {
        let ghost o0 = out@;
        match stamp {
            Stamp::Eternal => push_str(out, STAMP_ETERNAL),
            Stamp::Past => push_str(out, STAMP_PAST),
            Stamp::Present => push_str(out, STAMP_PRESENT),
            Stamp::Future => push_str(out, STAMP_FUTURE),
            Stamp::Fixed(t) => {
                push_str(out, STAMP_FIXED);
                let time = isize_to_string(*t);
                push_str(out, time.as_str());
                assert(out@ =~= o0 + typst_stamp_raw(*stamp));
            },
        }
    }

    /// Appends numbers between brackets, joined by a separator.
    fn format_floats_into(out: &mut String, left: &str, right: &str, separator: &str, numbers: &Vec<String>)
        ensures
            final(out)@ == old(out)@ + left@ + joined(texts(numbers@), separator@, Seq::empty())
                + right@,
    {
        let no_space = "";
        proof {
            reveal_strlit("");
        }
        assert(no_space@ =~= Seq::<char>::empty());
        let ghost o0 = out@;
        push_str(out, left);
        template_components(out, numbers, separator, no_space);
        push_str(out, right);
        assert(out@ =~= o0 + left@ + joined(texts(numbers@), separator@, Seq::empty()) + right@);
    }

    /// Appends the Typst text of a truth value before post-processing.
    fn format_truth_into(&self, out: &mut String, truth: &Truth, numbers: &Vec<String>)
        ensures
            final(out)@ == old(out)@ + typst_truth_raw(*truth, texts(numbers@)),
    {
        match truth {
            Truth::Empty => {
                assert(old(out)@ + Seq::<char>::empty() =~= old(out)@);
            },
            _ => Self::format_floats_into(out, BRACKET_TRUTH_LEFT, BRACKET_TRUTH_RIGHT, SEPARATOR_TRUTH, numbers),
        }
    }

    /// The Typst text of a truth value whose numbers read `numbers` (nothing for the empty
    /// truth value).
    pub fn format_truth(&self, truth: &Truth, numbers: &Vec<String>) -> (s: String)
        requires
            numbers@.len() == truth_count(*truth),
        ensures
            s@ == whitespace_processed(typst_truth_raw(*truth, texts(numbers@))),
    {
        let mut out = String::new();
        self.format_truth_into(&mut out, truth, numbers);
        post_process_whitespace(&mut out);
        out
    }

    /// The Typst text of a budget whose numbers read `numbers`.
    pub fn format_budget(&self, budget: &Budget, numbers: &Vec<String>) -> (s: String)
        requires
            numbers@.len() == budget_count(*budget),
        ensures
            s@ == whitespace_processed(typst_budget_raw(texts(numbers@))),
    {
        let mut out = String::new();
        Self::format_floats_into(&mut out, BRACKET_BUDGET_LEFT, BRACKET_BUDGET_RIGHT, SEPARATOR_BUDGET, numbers);
        post_process_whitespace(&mut out);
        out
    }

    /// Appends the Typst text of a sentence before post-processing.
    fn format_sentence_into(&self, out: &mut String, sentence: &Sentence, truth_numbers: &Vec<String>)
        ensures
            final(out)@ == old(out)@ + typst_sentence_raw(*sentence, texts(truth_numbers@)),
    {
        let ghost o0 = out@;
        self.format_term_into(out, sentence.get_term());
        self.format_punctuation_into(out, sentence.get_punctuation());
        self.format_stamp_into(out, sentence.get_stamp());
        push_str(out, SEPARATOR_ITEM);
        let empty = Truth::Empty;
        let truth = match sentence.get_truth() {
            Some(t) => t,
            None => &empty,
        };
        self.format_truth_into(out, truth, truth_numbers);
        assert(out@ =~= o0 + typst_sentence_raw(*sentence, texts(truth_numbers@)));
    }

    /// The Typst text of a sentence whose truth numbers read `truth_numbers`.
    pub fn format_sentence(&self, sentence: &Sentence, truth_numbers: &Vec<String>) -> (s: String)
        requires
            truth_numbers@.len() == truth_count(sentence_truth(*sentence)),
        ensures
            s@ == whitespace_processed(typst_sentence_raw(*sentence, texts(truth_numbers@))),
    {
        let mut out = String::new();
        self.format_sentence_into(&mut out, sentence, truth_numbers);
        post_process_whitespace(&mut out);
        out
    }

    /// The Typst text of a task whose budget numbers read `budget_numbers` and truth
    /// numbers `truth_numbers`.
    pub fn format_task(&self, task: &Task, budget_numbers: &Vec<String>, truth_numbers: &Vec<String>) -> (s: String)
        requires
            budget_numbers@.len() == budget_count(task.1),
            truth_numbers@.len() == truth_count(sentence_truth(task.0)),
        ensures
            s@ == whitespace_processed(typst_task_raw(*task, texts(budget_numbers@), texts(truth_numbers@))),
    {
        let mut out = String::new();
        let sentence = task.get_sentence();
        Self::format_floats_into(&mut out, BRACKET_BUDGET_LEFT, BRACKET_BUDGET_RIGHT, SEPARATOR_BUDGET, budget_numbers);
        push_str(&mut out, SEPARATOR_ITEM);
        self.format_term_into(&mut out, sentence.get_term());
        self.format_punctuation_into(&mut out, sentence.get_punctuation());
        push_str(&mut out, SEPARATOR_ITEM);
        self.format_stamp_into(&mut out, sentence.get_stamp());
        push_str(&mut out, SEPARATOR_ITEM);
        let empty = Truth::Empty;
        let truth = match sentence.get_truth() {
            Some(t) => t,
            None => &empty,
        };
        self.format_truth_into(&mut out, truth, truth_numbers);
        assert(out@ =~= typst_task_raw(*task, texts(budget_numbers@), texts(truth_numbers@)));
        post_process_whitespace(&mut out);
        out
    }
}

/// A term formats to its post-processed Typst text (see [`typst_raw`]).
impl<'a> FormatTo<&'a FormatterTypst, String> for Term {
    open spec fn formats_to(&self, formatter: &'a FormatterTypst, target: String) -> bool {
        target@ == typst_term_text(*self)
    }

    fn format_to(&self, formatter: &'a FormatterTypst) -> (target: String) {
        formatter.typst_term(self)
    }
}

/// A punctuation formats to its post-processed Typst text.
impl<'a> FormatTo<&'a FormatterTypst, String> for Punctuation {
    open spec fn formats_to(&self, formatter: &'a FormatterTypst, target: String) -> bool {
        target@ == whitespace_processed(typst_punctuation_raw(*self))
    }

    fn format_to(&self, formatter: &'a FormatterTypst) -> (target: String) {
        let mut out = String::new();
        formatter.format_punctuation_into(&mut out, self);
        post_process_whitespace(&mut out);
        out
    }
}

/// A stamp formats to its post-processed Typst text.
impl<'a> FormatTo<&'a FormatterTypst, String> for Stamp {
    open spec fn formats_to(&self, formatter: &'a FormatterTypst, target: String) -> bool {
        target@ == whitespace_processed(typst_stamp_raw(*self))
    }

    fn format_to(&self, formatter: &'a FormatterTypst) -> (target: String) {
        let mut out = String::new();
        formatter.format_stamp_into(&mut out, self);
        post_process_whitespace(&mut out);
        out
    }
}

} // verus!
