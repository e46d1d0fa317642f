//! The formatter of enum Narsese: terms, stamps and punctuations to text under a format;
//! truth values and budgets with the texts of their numbers, which the caller renders.
use vstd::prelude::*;
use crate::conversion::string::common::{
    add_space_if_necessary_and_flush_buffer, joined, joined_lest_empty, lemma_joined_lest_empty_ends_with_last, template_atom,
    template_compound, template_compound_set, template_sentence, template_statement, texts,
};
use crate::conversion::string::impl_enum::format::NarseseFormat;
use crate::enum_narsese::sentence::{Punctuation, Sentence, Stamp, Truth};
use crate::enum_narsese::task::{Budget, Task};
use crate::enum_narsese::term::{atom_name, term_category, term_eq, Term};
use crate::api::TermCategory;
use crate::numeral::{isize_to_string, signed_decimal_text};
use crate::text::push_str;
use crate::api::{GetBudget, GetPunctuation, GetStamp, GetTerm, GetTruth};

verus! {

/// A compound: left bracket, connector, separator and space, the components, right
/// bracket.
pub open spec fn compound_text(f: NarseseFormat<&str>, connecter: Seq<char>, items: Seq<Seq<char>>) -> Seq<char> {
    f.compound.brackets.0@ + connecter + f.compound.separator@ + f.space.format_terms@ + joined(
        items,
        f.compound.separator@,
        f.space.format_terms@,
    ) + f.compound.brackets.1@
}

/// A set: left bracket, the components, right bracket.
pub open spec fn set_text(f: NarseseFormat<&str>, left: Seq<char>, right: Seq<char>, items: Seq<Seq<char>>) -> Seq<char> {
    left + joined(items, f.compound.separator@, f.space.format_terms@) + right
}

/// A statement: left bracket, subject, space, copula, space, predicate, right bracket.
pub open spec fn statement_text(f: NarseseFormat<&str>, subject: Seq<char>, copula: Seq<char>, predicate: Seq<char>) -> Seq<char> {
    f.statement.brackets.0@ + subject + f.space.format_terms@ + copula + f.space.format_terms@
        + predicate + f.statement.brackets.1@
}

/// The components of an image as read: the placeholder inserted at its index (when the
/// index is within reach).
pub open spec fn image_items(items: Seq<Seq<char>>, index: usize, placeholder: Seq<char>) -> Seq<Seq<char>> {
    if index <= items.len() {
        items.insert(index as int, placeholder)
    } else {
        items
    }
}

/// The text of a term under a format.
pub open spec fn term_text(f: NarseseFormat<&str>, t: Term) -> Seq<char>
    decreases t, 1nat,
{
    match t {
        Term::Word(..) => f.atom.prefix_word@ + atom_name(t),
        Term::Placeholder => f.atom.prefix_placeholder@ + atom_name(t),
        Term::VariableIndependent(..) => f.atom.prefix_variable_independent@ + atom_name(t),
        Term::VariableDependent(..) => f.atom.prefix_variable_dependent@ + atom_name(t),
        Term::VariableQuery(..) => f.atom.prefix_variable_query@ + atom_name(t),
        Term::Interval(..) => f.atom.prefix_interval@ + atom_name(t),
        Term::Operator(..) => f.atom.prefix_operator@ + atom_name(t),
        Term::SetExtension(v) => set_text(
            f,
            f.compound.brackets_set_extension.0@,
            f.compound.brackets_set_extension.1@,
            terms_text(f, v@),
        ),
        Term::SetIntension(v) => set_text(
            f,
            f.compound.brackets_set_intension.0@,
            f.compound.brackets_set_intension.1@,
            terms_text(f, v@),
        ),
        Term::IntersectionExtension(v) => compound_text(
            f,
            f.compound.connecter_intersection_extension@,
            terms_text(f, v@),
        ),
        Term::IntersectionIntension(v) => compound_text(
            f,
            f.compound.connecter_intersection_intension@,
            terms_text(f, v@),
        ),
        Term::DifferenceExtension(a, b) => compound_text(
            f,
            f.compound.connecter_difference_extension@,
            seq![term_text(f, *a), term_text(f, *b)],
        ),
        Term::DifferenceIntension(a, b) => compound_text(
            f,
            f.compound.connecter_difference_intension@,
            seq![term_text(f, *a), term_text(f, *b)],
        ),
        Term::Product(v) => compound_text(f, f.compound.connecter_product@, terms_text(f, v@)),
        Term::ImageExtension(i, v) => compound_text(
            f,
            f.compound.connecter_image_extension@,
            image_items(terms_text(f, v@), i, f.atom.prefix_placeholder@),
        ),
        Term::ImageIntension(i, v) => compound_text(
            f,
            f.compound.connecter_image_intension@,
            image_items(terms_text(f, v@), i, f.atom.prefix_placeholder@),
        ),
        Term::Conjunction(v) => compound_text(f, f.compound.connecter_conjunction@, terms_text(f, v@)),
        Term::Disjunction(v) => compound_text(f, f.compound.connecter_disjunction@, terms_text(f, v@)),
        Term::Negation(a) => compound_text(f, f.compound.connecter_negation@, seq![term_text(f, *a)]),
        Term::ConjunctionSequential(v) => compound_text(
            f,
            f.compound.connecter_conjunction_sequential@,
            terms_text(f, v@),
        ),
        Term::ConjunctionParallel(v) => compound_text(
            f,
            f.compound.connecter_conjunction_parallel@,
            terms_text(f, v@),
        ),
        Term::Inheritance(a, b) => statement_text(
            f,
            term_text(f, *a),
            f.statement.copula_inheritance@,
            term_text(f, *b),
        ),
        Term::Similarity(a, b) => statement_text(
            f,
            term_text(f, *a),
            f.statement.copula_similarity@,
            term_text(f, *b),
        ),
        Term::Implication(a, b) => statement_text(
            f,
            term_text(f, *a),
            f.statement.copula_implication@,
            term_text(f, *b),
        ),
        Term::Equivalence(a, b) => statement_text(
            f,
            term_text(f, *a),
            f.statement.copula_equivalence@,
            term_text(f, *b),
        ),
        Term::ImplicationPredictive(a, b) => statement_text(
            f,
            term_text(f, *a),
            f.statement.copula_implication_predictive@,
            term_text(f, *b),
        ),
        Term::ImplicationConcurrent(a, b) => statement_text(
            f,
            term_text(f, *a),
            f.statement.copula_implication_concurrent@,
            term_text(f, *b),
        ),
        Term::ImplicationRetrospective(a, b) => statement_text(
            f,
            term_text(f, *a),
            f.statement.copula_implication_retrospective@,
            term_text(f, *b),
        ),
        Term::EquivalencePredictive(a, b) => statement_text(
            f,
            term_text(f, *a),
            f.statement.copula_equivalence_predictive@,
            term_text(f, *b),
        ),
        Term::EquivalenceConcurrent(a, b) => statement_text(
            f,
            term_text(f, *a),
            f.statement.copula_equivalence_concurrent@,
            term_text(f, *b),
        ),
    }
}

/// The texts of terms under a format, in order.
pub open spec fn terms_text(f: NarseseFormat<&str>, s: Seq<Term>) -> Seq<Seq<char>>
    decreases s, 0nat,
{
    if s.len() == 0 {
        Seq::empty()
    } else {
        terms_text(f, s.subrange(0, s.len() - 1)).push(term_text(f, s[s.len() - 1]))
    }
}

/// The texts of terms: one for each term, in order.
pub proof fn lemma_terms_text(f: NarseseFormat<&str>, s: Seq<Term>)
    ensures
        terms_text(f, s).len() == s.len(),
        forall|i: int| 0 <= i < s.len() ==> #[trigger] terms_text(f, s)[i] == term_text(f, s[i]),
    decreases s.len(),
{
    if s.len() > 0 {
        lemma_terms_text(f, s.subrange(0, s.len() - 1));
    }
}

impl<'a> NarseseFormat<&'a str> {
    /// The text of a term (see [`term_text`]).
    pub fn format_term(&self, term: &Term) -> (s: String)
        ensures
            s@ == term_text(*self, *term),
        decreases *term, 5nat,
    {
        let mut out = String::new();
        self.format_term_into(&mut out, term);
        out
    }

    /// The texts of the terms, in order.
    fn format_terms(&self, v: &Vec<Term>) -> (res: Vec<String>)
        ensures
            texts(res@) == terms_text(*self, v@),
        decreases v@, 0nat,
    {
        let mut res: Vec<String> = Vec::new();
        let mut i: usize = 0;
        while i < v.len()
            invariant
                i <= v.len(),
                texts(res@) == terms_text(*self, v@.subrange(0, i as int)),
            decreases v.len() - i,
        {
            let t = self.format_term(&v[i]);
            let ghost prev = res@;
            res.push(t);
            proof {
                let sub = v@.subrange(0, i + 1);
                assert(sub.subrange(0, sub.len() - 1) =~= v@.subrange(0, i as int));
                assert(sub[sub.len() - 1] == v@[i as int]);
                assert(texts(res@) =~= texts(prev).push(t@));
            }
            i += 1;
        }
        proof {
            assert(v@.subrange(0, v@.len() as int) =~= v@);
        }
        res
    }

    /// Appends an atom: the prefix, then its name.
    fn format_atom(&self, out: &mut String, atom: &Term, prefix: &str)
        requires
            crate::enum_narsese::term::term_category(*atom)
                == crate::api::TermCategory::Atom,
        ensures
            final(out)@ == old(out)@ + prefix@ + atom_name(*atom),
    {
        let name = atom.get_atom_name_unchecked();
        template_atom(out, prefix, name.as_str());
    }

    /// Appends a set with the given brackets.
    fn format_set(&self, out: &mut String, components: &Vec<Term>, bracket_left: &str, bracket_right: &str)
        ensures
            final(out)@ == old(out)@ + set_text(
                *self,
                bracket_left@,
                bracket_right@,
                terms_text(*self, components@),
            ),
        decreases components@, 1nat,
    {
        let items = self.format_terms(components);
        template_compound_set(
            out,
            bracket_left,
            &items,
            self.compound.separator,
            self.space.format_terms,
            bracket_right,
        );
    }

    /// Appends a compound of the component texts with the given connector.
    fn format_compound(&self, out: &mut String, items: &Vec<String>, connecter: &str)
        ensures
            final(out)@ == old(out)@ + compound_text(*self, connecter@, texts(items@)),
    {
        template_compound(
            out,
            self.compound.brackets.0,
            connecter,
            items,
            self.compound.separator,
            self.space.format_terms,
            self.compound.brackets.1,
        );
    }

    /// Appends an image: the placeholder among the other components, at its index.
    fn format_image(&self, out: &mut String, index: usize, components: &Vec<Term>, connecter: &str)
        ensures
            final(out)@ == old(out)@ + compound_text(
                *self,
                connecter@,
                image_items(terms_text(*self, components@), index, self.atom.prefix_placeholder@),
            ),
        decreases components@, 1nat,
    {
        let mut items = self.format_terms(components);
        if index <= items.len() {
            let ghost prev = items@;
            let placeholder = self.atom.prefix_placeholder.to_string();
            items.insert(index, placeholder);
            proof {
                assert(placeholder@ =~= self.atom.prefix_placeholder@ + Seq::<char>::empty());
            }
            proof {
                assert(texts(items@) =~= texts(prev).insert(index as int, placeholder@));
            }
        }
        self.format_compound(out, &items, connecter);
    }

    /// Appends a statement of the subject and predicate texts with the given copula.
    fn format_statement(&self, out: &mut String, subject: &str, predicate: &str, copula: &str)
        ensures
            final(out)@ == old(out)@ + statement_text(*self, subject@, copula@, predicate@),
    {
        template_statement(
            out,
            self.statement.brackets.0,
            subject,
            copula,
            predicate,
            self.space.format_terms,
            self.statement.brackets.1,
        );
    }

    /// Appends the text of a term (see [`term_text`]).
    fn format_term_into(&self, out: &mut String, term: &Term)
        ensures
            final(out)@ == old(out)@ + term_text(*self, *term),
        decreases *term, 3nat,
    {
        match term {
            Term::Word(..) => self.format_atom(out, term, self.atom.prefix_word),
            Term::Placeholder => self.format_atom(out, term, self.atom.prefix_placeholder),
            Term::VariableIndependent(..) => self.format_atom(
                out,
                term,
                self.atom.prefix_variable_independent,
            ),
            Term::VariableDependent(..) => self.format_atom(
                out,
                term,
                self.atom.prefix_variable_dependent,
            ),
            Term::VariableQuery(..) => self.format_atom(out, term, self.atom.prefix_variable_query),
            Term::Interval(..) => self.format_atom(out, term, self.atom.prefix_interval),
            Term::Operator(..) => self.format_atom(out, term, self.atom.prefix_operator),
            Term::SetExtension(v) => self.format_set(
                out,
                v,
                self.compound.brackets_set_extension.0,
                self.compound.brackets_set_extension.1,
            ),
            Term::SetIntension(v) => self.format_set(
                out,
                v,
                self.compound.brackets_set_intension.0,
                self.compound.brackets_set_intension.1,
            ),
            Term::IntersectionExtension(v) => {
                let items = self.format_terms(v);
                self.format_compound(out, &items, self.compound.connecter_intersection_extension)
            },
            Term::IntersectionIntension(v) => {
                let items = self.format_terms(v);
                self.format_compound(out, &items, self.compound.connecter_intersection_intension)
            },
            Term::DifferenceExtension(a, b) => {
                let mut items: Vec<String> = Vec::new();
                items.push(self.format_term(a));
                items.push(self.format_term(b));
                proof {
                    assert(texts(items@) =~= seq![term_text(*self, **a), term_text(*self, **b)]);
                }
                self.format_compound(out, &items, self.compound.connecter_difference_extension)
            },
            Term::DifferenceIntension(a, b) => {
                let mut items: Vec<String> = Vec::new();
                items.push(self.format_term(a));
                items.push(self.format_term(b));
                proof {
                    assert(texts(items@) =~= seq![term_text(*self, **a), term_text(*self, **b)]);
                }
                self.format_compound(out, &items, self.compound.connecter_difference_intension)
            },
            Term::Product(v) => {
                let items = self.format_terms(v);
                self.format_compound(out, &items, self.compound.connecter_product)
            },
            Term::ImageExtension(i, v) => self.format_image(
                out,
                *i,
                v,
                self.compound.connecter_image_extension,
            ),
            Term::ImageIntension(i, v) => self.format_image(
                out,
                *i,
                v,
                self.compound.connecter_image_intension,
            ),
            Term::Conjunction(v) => {
                let items = self.format_terms(v);
                self.format_compound(out, &items, self.compound.connecter_conjunction)
            },
            Term::Disjunction(v) => {
                let items = self.format_terms(v);
                self.format_compound(out, &items, self.compound.connecter_disjunction)
            },
            Term::Negation(a) => {
                let mut items: Vec<String> = Vec::new();
                items.push(self.format_term(a));
                proof {
                    assert(texts(items@) =~= seq![term_text(*self, **a)]);
                }
                self.format_compound(out, &items, self.compound.connecter_negation)
            },
            Term::ConjunctionSequential(v) => {
                let items = self.format_terms(v);
                self.format_compound(out, &items, self.compound.connecter_conjunction_sequential)
            },
            Term::ConjunctionParallel(v) => {
                let items = self.format_terms(v);
                self.format_compound(out, &items, self.compound.connecter_conjunction_parallel)
            },
            Term::Inheritance(a, b) => {
                let subject = self.format_term(a);
                let predicate = self.format_term(b);
                self.format_statement(out, subject.as_str(), predicate.as_str(), self.statement.copula_inheritance)
            },
            Term::Similarity(a, b) => {
                let subject = self.format_term(a);
                let predicate = self.format_term(b);
                self.format_statement(out, subject.as_str(), predicate.as_str(), self.statement.copula_similarity)
            },
            Term::Implication(a, b) => {
                let subject = self.format_term(a);
                let predicate = self.format_term(b);
                self.format_statement(out, subject.as_str(), predicate.as_str(), self.statement.copula_implication)
            },
            Term::Equivalence(a, b) => {
                let subject = self.format_term(a);
                let predicate = self.format_term(b);
                self.format_statement(out, subject.as_str(), predicate.as_str(), self.statement.copula_equivalence)
            },
            Term::ImplicationPredictive(a, b) => {
                let subject = self.format_term(a);
                let predicate = self.format_term(b);
                self.format_statement(out, subject.as_str(), predicate.as_str(), self.statement.copula_implication_predictive)
            },
            Term::ImplicationConcurrent(a, b) => {
                let subject = self.format_term(a);
                let predicate = self.format_term(b);
                self.format_statement(out, subject.as_str(), predicate.as_str(), self.statement.copula_implication_concurrent)
            },
            Term::ImplicationRetrospective(a, b) => {
                let subject = self.format_term(a);
                let predicate = self.format_term(b);
                self.format_statement(out, subject.as_str(), predicate.as_str(), self.statement.copula_implication_retrospective)
            },
            Term::EquivalencePredictive(a, b) => {
                let subject = self.format_term(a);
                let predicate = self.format_term(b);
                self.format_statement(out, subject.as_str(), predicate.as_str(), self.statement.copula_equivalence_predictive)
            },
            Term::EquivalenceConcurrent(a, b) => {
                let subject = self.format_term(a);
                let predicate = self.format_term(b);
                self.format_statement(out, subject.as_str(), predicate.as_str(), self.statement.copula_equivalence_concurrent)
            },
        }
    }
}

// Sentences and tasks //

/// How many numbers a truth value holds.
pub open spec fn truth_count(t: Truth) -> nat {
    match t {
        Truth::Empty => 0,
        Truth::Single(..) => 1,
        Truth::Double(..) => 2,
    }
}

/// How many numbers a budget holds.
pub open spec fn budget_count(b: Budget) -> nat {
    match b {
        Budget::Empty => 0,
        Budget::Single(..) => 1,
        Budget::Double(..) => 2,
        Budget::Triple(..) => 3,
    }
}

/// The truth value of a sentence, empty for questions and quests.
pub open spec fn sentence_truth(s: Sentence) -> Truth {
    match s.truth_of() {
        Some(t) => t,
        None => Truth::Empty,
    }
}

/// Numbers between brackets, joined by a separator.
pub open spec fn floats_text(left: Seq<char>, right: Seq<char>, separator: Seq<char>, items: Seq<Seq<char>>) -> Seq<char> {
    left + joined(items, separator, Seq::empty()) + right
}

/// The text of a truth value whose numbers read `items`: nothing when it is empty.
pub open spec fn truth_text(f: NarseseFormat<&str>, t: Truth, items: Seq<Seq<char>>) -> Seq<char> {
    if t is Empty {
        Seq::empty()
    } else {
        floats_text(
            f.sentence.truth_brackets.0@,
            f.sentence.truth_brackets.1@,
            f.sentence.truth_separator@,
            items,
        )
    }
}

/// The text of a budget whose numbers read `items`: the brackets even when it is empty.
pub open spec fn budget_text(f: NarseseFormat<&str>, items: Seq<Seq<char>>) -> Seq<char> {
    floats_text(f.task.budget_brackets.0@, f.task.budget_brackets.1@, f.task.budget_separator@, items)
}

/// The text of a stamp: nothing when eternal.
pub open spec fn stamp_text(f: NarseseFormat<&str>, s: Stamp) -> Seq<char> {
    match s {
        Stamp::Eternal => Seq::empty(),
        Stamp::Past => f.sentence.stamp_brackets.0@ + f.sentence.stamp_past@ + f.sentence.stamp_brackets.1@,
        Stamp::Present => f.sentence.stamp_brackets.0@ + f.sentence.stamp_present@
            + f.sentence.stamp_brackets.1@,
        Stamp::Future => f.sentence.stamp_brackets.0@ + f.sentence.stamp_future@
            + f.sentence.stamp_brackets.1@,
        Stamp::Fixed(t) => f.sentence.stamp_brackets.0@ + f.sentence.stamp_fixed@
            + signed_decimal_text(t as int) + f.sentence.stamp_brackets.1@,
    }
}

/// The text of a punctuation.
pub open spec fn punctuation_text(f: NarseseFormat<&str>, p: Punctuation) -> Seq<char> {
    match p {
        Punctuation::Judgement => f.sentence.punctuation_judgement@,
        Punctuation::Goal => f.sentence.punctuation_goal@,
        Punctuation::Question => f.sentence.punctuation_question@,
        Punctuation::Quest => f.sentence.punctuation_quest@,
    }
}

/// The text of a sentence whose truth numbers read `truth_items`: the term, then the
/// punctuation, the stamp and the truth value, the last two after a space where they are
/// not empty.
pub open spec fn sentence_text(f: NarseseFormat<&str>, s: Sentence, truth_items: Seq<Seq<char>>) -> Seq<char> {
    term_text(f, s.term_of()) + joined_lest_empty(
        seq![
            punctuation_text(f, s.punctuation_of()),
            stamp_text(f, s.stamp_of()),
            truth_text(f, sentence_truth(s), truth_items),
        ],
        f.space.format_terms@,
    )
}

/// The text of a task: the budget, then the sentence after a space.
pub open spec fn task_text(f: NarseseFormat<&str>, t: Task, budget_items: Seq<Seq<char>>, truth_items: Seq<Seq<char>>) -> Seq<char> {
    let sentence = sentence_text(f, t.0, truth_items);
    budget_text(f, budget_items) + if sentence.len() == 0 {
        Seq::<char>::empty()
    } else {
        f.space.format_items@ + sentence
    }
}

/// Equal atoms are written alike in every format: the same prefix and the same name.
pub proof fn law_equal_atoms_format_alike(f: NarseseFormat<&str>, t: Term, u: Term)
    requires
        term_category(t) == TermCategory::Atom,
        term_eq(t, u),
    ensures
        term_text(f, t) == term_text(f, u),
{
}

/// A sentence with a truth value ends with it: the truth brackets around all the texts
/// of its numbers, joined by the truth separator.
pub proof fn law_sentence_ends_with_its_truth(f: NarseseFormat<&str>, s: Sentence, items: Seq<Seq<char>>)
    requires
        !(sentence_truth(s) is Empty),
    ensures
        ({
            let text = sentence_text(f, s, items);
            let truth = f.sentence.truth_brackets.0@ + joined(items, f.sentence.truth_separator@, Seq::empty())
                + f.sentence.truth_brackets.1@;
            text.len() >= truth.len() && text.subrange(text.len() - truth.len(), text.len() as int)
                == truth
        }),
{
    let parts = seq![
        punctuation_text(f, s.punctuation_of()),
        stamp_text(f, s.stamp_of()),
        truth_text(f, sentence_truth(s), items),
    ];
    lemma_joined_lest_empty_ends_with_last(parts, f.space.format_terms@);
    let j = joined_lest_empty(parts, f.space.format_terms@);
    let text = sentence_text(f, s, items);
    let t = parts.last();
    assert(text == term_text(f, s.term_of()) + j);
    assert(text.subrange(text.len() - t.len(), text.len() as int) =~= j.subrange(
        j.len() - t.len(),
        j.len() as int,
    ));
}

/// A task begins with its budget: the budget brackets around all the texts of its
/// numbers, joined by the budget separator; the sentence follows.
pub proof fn law_task_begins_with_its_budget(
    f: NarseseFormat<&str>,
    t: Task,
    budget_items: Seq<Seq<char>>,
    truth_items: Seq<Seq<char>>,
)
    ensures
        ({
            let text = task_text(f, t, budget_items, truth_items);
            let budget = f.task.budget_brackets.0@ + joined(budget_items, f.task.budget_separator@, Seq::empty())
                + f.task.budget_brackets.1@;
            text.len() >= budget.len() && text.subrange(0, budget.len() as int) == budget
        }),
{
    let text = task_text(f, t, budget_items, truth_items);
    let budget = budget_text(f, budget_items);
    assert(text.subrange(0, budget.len() as int) =~= budget);
}

impl<'a> NarseseFormat<&'a str> {
    /// Appends numbers between brackets, joined by a separator.
    fn format_floats(&self, out: &mut String, bracket_left: &str, bracket_right: &str, separator: &str, numbers: &Vec<String>)
        ensures
            final(out)@ == old(out)@ + floats_text(
                bracket_left@,
                bracket_right@,
                separator@,
                texts(numbers@),
            ),
    {
        let ghost o0 = out@;
        let no_space = "";
        proof {
            reveal_strlit("");
        }
        assert(no_space@ =~= Seq::<char>::empty());
        push_str(out, bracket_left);
        crate::conversion::string::common::template_components(out, numbers, separator, no_space);
        push_str(out, bracket_right);
        assert(out@ =~= o0 + floats_text(bracket_left@, bracket_right@, separator@, texts(numbers@)));
    }

    /// Appends the numbers of a truth value.
    fn format_floats_truth(&self, out: &mut String, numbers: &Vec<String>)
        ensures
            final(out)@ == old(out)@ + floats_text(
                self.sentence.truth_brackets.0@,
                self.sentence.truth_brackets.1@,
                self.sentence.truth_separator@,
                texts(numbers@),
            ),
    {
        self.format_floats(
            out,
            self.sentence.truth_brackets.0,
            self.sentence.truth_brackets.1,
            self.sentence.truth_separator,
            numbers,
        );
    }

    /// Appends the numbers of a budget.
    fn format_floats_budget(&self, out: &mut String, numbers: &Vec<String>)
        ensures
            final(out)@ == old(out)@ + budget_text(*self, texts(numbers@)),
    {
        self.format_floats(
            out,
            self.task.budget_brackets.0,
            self.task.budget_brackets.1,
            self.task.budget_separator,
            numbers,
        );
    }

    /// The text of a truth value whose numbers read `numbers` (see [`truth_text`]).
    pub fn format_truth(&self, truth: &Truth, numbers: &Vec<String>) -> (s: String)
        requires
            numbers@.len() == truth_count(*truth),
        ensures
            s@ == truth_text(*self, *truth, texts(numbers@)),
    {
        let mut out = String::new();
        self.format_truth_into(&mut out, truth, numbers);
        out
    }

    /// Appends the text of a truth value.
    fn format_truth_into(&self, out: &mut String, truth: &Truth, numbers: &Vec<String>)
        requires
            numbers@.len() == truth_count(*truth),
        ensures
            final(out)@ == old(out)@ + truth_text(*self, *truth, texts(numbers@)),
    {
        match truth {
            Truth::Empty => {
                assert(old(out)@ + Seq::<char>::empty() =~= old(out)@);
            },
            _ => self.format_floats_truth(out, numbers),
        }
    }

    /// The text of a stamp (see [`stamp_text`]).
    pub fn format_stamp(&self, stamp: &Stamp) -> (s: String)
        ensures
            s@ == stamp_text(*self, *stamp),
    {
        let mut out = String::new();
        self.format_stamp_into(&mut out, stamp);
        proof {
            assert(out@ =~= stamp_text(*self, *stamp));
        }
        out
    }

    /// Appends the text of a stamp.
    fn format_stamp_into(&self, out: &mut String, stamp: &Stamp)
        ensures
            final(out)@ == old(out)@ + stamp_text(*self, *stamp),
    {
        let ghost o0 = out@;
        if stamp.is_eternal() {
            assert(o0 + Seq::<char>::empty() =~= o0);
            return;
        }
        push_str(out, self.sentence.stamp_brackets.0);
        match stamp {
            Stamp::Past => push_str(out, self.sentence.stamp_past),
            Stamp::Present => push_str(out, self.sentence.stamp_present),
            Stamp::Future => push_str(out, self.sentence.stamp_future),
            Stamp::Fixed(time) => {
                push_str(out, self.sentence.stamp_fixed);
                let t = isize_to_string(*time);
                push_str(out, t.as_str());
            },
            Stamp::Eternal => {},
        }
        push_str(out, self.sentence.stamp_brackets.1);
        proof {
            assert(out@ =~= o0 + stamp_text(*self, *stamp));
        }
    }

    /// The text of the punctuation of a sentence.
    fn format_punctuation(&self, sentence: &Sentence) -> (s: &'a str)
        ensures
            s@ == punctuation_text(*self, sentence.punctuation_of()),
    {
        match sentence {
            Sentence::Judgement(..) => self.sentence.punctuation_judgement,
            Sentence::Goal(..) => self.sentence.punctuation_goal,
            Sentence::Question(..) => self.sentence.punctuation_question,
            Sentence::Quest(..) => self.sentence.punctuation_quest,
        }
    }

    /// The text of a sentence whose truth numbers read `truth_numbers` (see
    /// [`sentence_text`]).
    pub fn format_sentence(&self, sentence: &Sentence, truth_numbers: &Vec<String>) -> (s: String)
        requires
            truth_numbers@.len() == truth_count(sentence_truth(*sentence)),
        ensures
            s@ == sentence_text(*self, *sentence, texts(truth_numbers@)),
    {
        let mut out = String::new();
        self.format_sentence_into(&mut out, sentence, truth_numbers);
        out
    }

    /// Appends the text of a sentence.
    fn format_sentence_into(&self, out: &mut String, sentence: &Sentence, truth_numbers: &Vec<String>)
        requires
            truth_numbers@.len() == truth_count(sentence_truth(*sentence)),
        ensures
            final(out)@ == old(out)@ + sentence_text(*self, *sentence, texts(truth_numbers@)),
    {
        let term = self.format_term(sentence.get_term());
        let punctuation = self.format_punctuation(sentence);
        let stamp = self.format_stamp(sentence.get_stamp());
        let empty = Truth::Empty;
        let truth_ref = match sentence.get_truth() {
            Some(t) => t,
            None => &empty,
        };
        let truth = self.format_truth(truth_ref, truth_numbers);
        template_sentence(
            out,
            term.as_str(),
            punctuation,
            stamp.as_str(),
            truth.as_str(),
            self.space.format_terms,
        );
    }

    /// The text of a budget whose numbers read `numbers` (see [`budget_text`]).
    pub fn format_budget(&self, budget: &Budget, numbers: &Vec<String>) -> (s: String)
        requires
            numbers@.len() == budget_count(*budget),
        ensures
            s@ == budget_text(*self, texts(numbers@)),
    {
        let mut out = String::new();
        self.format_floats_budget(&mut out, numbers);
        out
    }

    /// The text of a task whose budget numbers read `budget_numbers` and truth numbers
    /// `truth_numbers` (see [`task_text`]).
    pub fn format_task(&self, task: &Task, budget_numbers: &Vec<String>, truth_numbers: &Vec<String>) -> (s: String)
        requires
            budget_numbers@.len() == budget_count(task.1),
            truth_numbers@.len() == truth_count(sentence_truth(task.0)),
        ensures
            s@ == task_text(*self, *task, texts(budget_numbers@), texts(truth_numbers@)),
    {
        let mut out = String::new();
        let mut buffer = String::new();
        self.format_floats_budget(&mut out, budget_numbers);
        self.format_sentence_into(&mut buffer, task.get_sentence(), truth_numbers);
        add_space_if_necessary_and_flush_buffer(&mut out, &mut buffer, self.space.format_items);
        out
    }
}

} // verus!
