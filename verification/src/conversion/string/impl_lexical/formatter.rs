//! The formatter of lexical Narsese: terms, sentences and tasks to text under a format.
//! Truth values and budgets are written compactly: their strings joined by the separator
//! alone.
use vstd::prelude::*;
use crate::api::{FormatTo, NarseseValue};
use crate::conversion::string::common::{
    add_space_if_necessary_and_flush_buffer, joined, joined_lest_empty, lemma_joined_lest_empty_ends_with_last, template_atom,
    template_compound, template_compound_set, template_components, template_sentence,
    template_statement, texts,
};
use crate::conversion::string::impl_lexical::format::NarseseFormat;
use crate::lexical::sentence::Sentence;
use crate::lexical::task::Task;
use crate::lexical::term::Term;
use crate::lexical::Narsese;
use crate::text::push_str;

verus! {

/// A compound: left bracket, connector, separator and space, the components, right
/// bracket.
pub open spec fn compound_text(f: NarseseFormat, connecter: Seq<char>, items: Seq<Seq<char>>) -> Seq<char> {
    f.compound.brackets.0@ + connecter + f.compound.separator@ + f.space.format_terms@ + joined(
        items,
        f.compound.separator@,
        f.space.format_terms@,
    ) + f.compound.brackets.1@
}

/// A set: its own brackets around the components.
pub open spec fn set_text(f: NarseseFormat, left: Seq<char>, right: Seq<char>, items: Seq<Seq<char>>) -> Seq<char> {
    left + joined(items, f.compound.separator@, f.space.format_terms@) + right
}

/// A statement: left bracket, subject, space, copula, space, predicate, right bracket.
pub open spec fn statement_text(f: NarseseFormat, subject: Seq<char>, copula: Seq<char>, predicate: Seq<char>) -> Seq<char> {
    f.statement.brackets.0@ + subject + f.space.format_terms@ + copula + f.space.format_terms@
        + predicate + f.statement.brackets.1@
}

/// The text of a lexical term under a format.
pub open spec fn term_text(f: NarseseFormat, t: Term) -> Seq<char>
    decreases t, 1nat,
{
    match t {
        Term::Atom { prefix, name } => prefix@ + name@,
        Term::Compound { connecter, terms } => compound_text(f, connecter@, terms_text(f, terms@)),
        Term::TermSet { left_bracket, terms, right_bracket } => set_text(
            f,
            left_bracket@,
            right_bracket@,
            terms_text(f, terms@),
        ),
        Term::Statement { copula, subject, predicate } => statement_text(
            f,
            term_text(f, *subject),
            copula@,
            term_text(f, *predicate),
        ),
    }
}

/// The texts of lexical terms under a format, in order.
pub open spec fn terms_text(f: NarseseFormat, s: Seq<Term>) -> Seq<Seq<char>>
    decreases s, 0nat,
{
    if s.len() == 0 {
        Seq::empty()
    } else {
        terms_text(f, s.subrange(0, s.len() - 1)).push(term_text(f, s[s.len() - 1]))
    }
}

/// A truth value: nothing when it has no strings, else its strings joined by the
/// separator, within the brackets.
pub open spec fn truth_text(f: NarseseFormat, truth: Seq<Seq<char>>) -> Seq<char> {
    if truth.len() == 0 {
        Seq::empty()
    } else {
        f.sentence.truth_brackets.0@ + joined(truth, f.sentence.truth_separator@, Seq::empty())
            + f.sentence.truth_brackets.1@
    }
}

/// A budget: its strings joined by the separator, within the brackets (also when it has
/// none).
pub open spec fn budget_text(f: NarseseFormat, budget: Seq<Seq<char>>) -> Seq<char> {
    f.task.budget_brackets.0@ + joined(budget, f.task.budget_separator@, Seq::empty())
        + f.task.budget_brackets.1@
}

/// A sentence: the term, then punctuation, stamp and truth value separated by the item
/// space where they are not empty.
pub open spec fn sentence_text(f: NarseseFormat, s: Sentence) -> Seq<char> {
    term_text(f, s.term) + joined_lest_empty(
        seq![s.punctuation@, s.stamp@, truth_text(f, texts(s.truth@))],
        f.space.format_items@,
    )
}

/// A task: the budget, then the item space and the sentence where the sentence's text is
/// not empty.
pub open spec fn task_text(f: NarseseFormat, t: Task) -> Seq<char> {
    let s = sentence_text(f, t.sentence);
    budget_text(f, texts(t.budget@)) + if s.len() == 0 {
        Seq::empty()
    } else {
        f.space.format_items@ + s
    }
}

/// A term, a sentence or a task.
pub open spec fn narsese_text(f: NarseseFormat, n: Narsese) -> Seq<char> {
    match n {
        NarseseValue::Term(t) => term_text(f, t),
        NarseseValue::Sentence(s) => sentence_text(f, s),
        NarseseValue::Task(t) => task_text(f, t),
    }
}

/// A sentence with a truth value of at least one string ends with that truth value: the
/// truth brackets around all its strings, joined by the truth separator.
pub proof fn law_sentence_ends_with_its_truth(f: NarseseFormat, s: Sentence)
    requires
        s.truth@.len() > 0,
    ensures
        ({
            let text = sentence_text(f, s);
            let truth = f.sentence.truth_brackets.0@ + joined(
                texts(s.truth@),
                f.sentence.truth_separator@,
                Seq::empty(),
            ) + f.sentence.truth_brackets.1@;
            text.len() >= truth.len() && text.subrange(text.len() - truth.len(), text.len() as int)
                == truth
        }),
{
    let items = seq![s.punctuation@, s.stamp@, truth_text(f, texts(s.truth@))];
    assert(texts(s.truth@).len() == s.truth@.len());
    lemma_joined_lest_empty_ends_with_last(items, f.space.format_items@);
    let j = joined_lest_empty(items, f.space.format_items@);
    let text = sentence_text(f, s);
    let t = items.last();
    assert(text == term_text(f, s.term) + j);
    assert(text.subrange(text.len() - t.len(), text.len() as int) =~= j.subrange(
        j.len() - t.len(),
        j.len() as int,
    ));
}

/// A task begins with its budget: the budget brackets around all its strings, joined by
/// the budget separator; the sentence follows.
pub proof fn law_task_begins_with_its_budget(f: NarseseFormat, t: Task)
    ensures
        ({
            let text = task_text(f, t);
            let budget = f.task.budget_brackets.0@ + joined(texts(t.budget@), f.task.budget_separator@, Seq::empty())
                + f.task.budget_brackets.1@;
            text.len() >= budget.len() && text.subrange(0, budget.len() as int) == budget
        }),
{
    let text = task_text(f, t);
    let budget = budget_text(f, texts(t.budget@));
    assert(text.subrange(0, budget.len() as int) =~= budget);
}

impl NarseseFormat {
    /// Appends the text of a term.
    fn format_term_into(&self, out: &mut String, term: &Term)
        ensures
            final(out)@ == old(out)@ + term_text(*self, *term),
        decreases *term, 2nat,
    {
        match term {
            Term::Atom { prefix, name } => template_atom(out, prefix.as_str(), name.as_str()),
            Term::Compound { connecter, terms } => {
                let items = self.format_terms(terms);
                template_compound(
                    out,
                    self.compound.brackets.0.as_str(),
                    connecter.as_str(),
                    &items,
                    self.compound.separator.as_str(),
                    self.space.format_terms.as_str(),
                    self.compound.brackets.1.as_str(),
                );
            },
            Term::TermSet { left_bracket, terms, right_bracket } => {
                let items = self.format_terms(terms);
                template_compound_set(
                    out,
                    left_bracket.as_str(),
                    &items,
                    self.compound.separator.as_str(),
                    self.space.format_terms.as_str(),
                    right_bracket.as_str(),
                );
            },
            Term::Statement { copula, subject, predicate } => {
                let s = self.format_term(subject);
                let p = self.format_term(predicate);
                template_statement(
                    out,
                    self.statement.brackets.0.as_str(),
                    s.as_str(),
                    copula.as_str(),
                    p.as_str(),
                    self.space.format_terms.as_str(),
                    self.statement.brackets.1.as_str(),
                );
            },
        }
    }

    /// The text of a term (see [`term_text`]).
    pub fn format_term(&self, term: &Term) -> (s: String)
        ensures
            s@ == term_text(*self, *term),
        decreases *term, 3nat,
    {
        let mut out = String::new();
        self.format_term_into(&mut out, term);
        out
    }

    /// The texts of the terms, in order.
    fn format_terms(&self, v: &Vec<Term>) -> (res: Vec<String>)
        ensures
            texts(res@) == terms_text(*self, v@),
        decreases v@, 0nat,
    {
        let mut res: Vec<String> = Vec::new();
        let mut i: usize = 0;
        while i < v.len()
            invariant
                i <= v.len(),
                texts(res@) == terms_text(*self, v@.subrange(0, i as int)),
            decreases v.len() - i,
        {
            let t = self.format_term(&v[i]);
            let ghost prev = res@;
            res.push(t);
            proof {
                let sub = v@.subrange(0, i + 1);
                assert(sub.subrange(0, sub.len() - 1) =~= v@.subrange(0, i as int));
                assert(sub[sub.len() - 1] == v@[i as int]);
                assert(texts(res@) =~= texts(prev).push(t@));
            }
            i += 1;
        }
        proof {
            assert(v@.subrange(0, v@.len() as int) =~= v@);
        }
        res
    }

    /// Appends the text of a truth value.
    fn format_truth_into(&self, out: &mut String, truth: &Vec<String>)
        ensures
            final(out)@ == old(out)@ + truth_text(*self, texts(truth@)),
    {
        if truth.len() == 0 {
            assert(texts(truth@).len() == 0);
            assert(out@ =~= old(out)@ + truth_text(*self, texts(truth@)));
            return;
        }
        push_str(out, self.sentence.truth_brackets.0.as_str());
        template_components(out, truth, self.sentence.truth_separator.as_str(), "");
        push_str(out, self.sentence.truth_brackets.1.as_str());
        proof {
            reveal_strlit("");
            assert(""@ =~= Seq::<char>::empty());
        }
    }

    /// The text of a truth value (see [`truth_text`]).
    pub fn format_truth(&self, truth: &Vec<String>) -> (s: String)
        ensures
            s@ == truth_text(*self, texts(truth@)),
    {
        let mut out = String::new();
        self.format_truth_into(&mut out, truth);
        out
    }

    /// Appends the text of a sentence.
    fn format_sentence_into(&self, out: &mut String, sentence: &Sentence)
        ensures
            final(out)@ == old(out)@ + sentence_text(*self, *sentence),
    {
        let term = self.format_term(&sentence.term);
        let truth = self.format_truth(&sentence.truth);
        template_sentence(
            out,
            term.as_str(),
            sentence.punctuation.as_str(),
            sentence.stamp.as_str(),
            truth.as_str(),
            self.space.format_items.as_str(),
        );
    }

    /// The text of a sentence (see [`sentence_text`]).
    pub fn format_sentence(&self, sentence: &Sentence) -> (s: String)
        ensures
            s@ == sentence_text(*self, *sentence),
    {
        let mut out = String::new();
        self.format_sentence_into(&mut out, sentence);
        out
    }

    /// Appends the text of a budget.
    fn format_budget_into(&self, out: &mut String, budget: &Vec<String>)
        ensures
            final(out)@ == old(out)@ + budget_text(*self, texts(budget@)),
    {
        push_str(out, self.task.budget_brackets.0.as_str());
        template_components(out, budget, self.task.budget_separator.as_str(), "");
        push_str(out, self.task.budget_brackets.1.as_str());
        proof {
            reveal_strlit("");
            assert(""@ =~= Seq::<char>::empty());
        }
    }

    /// The text of a budget (see [`budget_text`]).
    pub fn format_budget(&self, budget: &Vec<String>) -> (s: String)
        ensures
            s@ == budget_text(*self, texts(budget@)),
    {
        let mut out = String::new();
        self.format_budget_into(&mut out, budget);
        out
    }

    /// Appends the text of a task.
    fn format_task_into(&self, out: &mut String, task: &Task)
        ensures
            final(out)@ == old(out)@ + task_text(*self, *task),
    {
        let mut buffer = String::new();
        self.format_budget_into(out, &task.budget);
        self.format_sentence_into(&mut buffer, &task.sentence);
        add_space_if_necessary_and_flush_buffer(out, &mut buffer, self.space.format_items.as_str());
    }

    /// The text of a task (see [`task_text`]).
    pub fn format_task(&self, task: &Task) -> (s: String)
        ensures
            s@ == task_text(*self, *task),
    {
        let mut out = String::new();
        self.format_task_into(&mut out, task);
        out
    }

    /// The text of a term, a sentence or a task (see [`narsese_text`]).
    pub fn format_narsese(&self, narsese: &Narsese) -> (s: String)
        ensures
            s@ == narsese_text(*self, *narsese),
    {
        let mut out = String::new();
        match narsese {
            NarseseValue::Term(t) => self.format_term_into(&mut out, t),
            NarseseValue::Sentence(s) => self.format_sentence_into(&mut out, s),
            NarseseValue::Task(t) => self.format_task_into(&mut out, t),
        }
        out
    }
}

/// A lexical term formats to its text (see [`term_text`]).
impl<'a> FormatTo<&'a NarseseFormat, String> for Term {
    open spec fn formats_to(&self, formatter: &'a NarseseFormat, target: String) -> bool {
        target@ == term_text(*formatter, *self)
    }

    fn format_to(&self, formatter: &'a NarseseFormat) -> (target: String) {
        formatter.format_term(self)
    }
}

/// A lexical truth value formats to its text (see [`truth_text`]).
impl<'a> FormatTo<&'a NarseseFormat, String> for Vec<String> {
    open spec fn formats_to(&self, formatter: &'a NarseseFormat, target: String) -> bool {
        target@ == truth_text(*formatter, texts(self@))
    }

    fn format_to(&self, formatter: &'a NarseseFormat) -> (target: String) {
        formatter.format_truth(self)
    }
}

/// A lexical sentence formats to its text (see [`sentence_text`]).
impl<'a> FormatTo<&'a NarseseFormat, String> for Sentence {
    open spec fn formats_to(&self, formatter: &'a NarseseFormat, target: String) -> bool {
        target@ == sentence_text(*formatter, *self)
    }

    fn format_to(&self, formatter: &'a NarseseFormat) -> (target: String) {
        formatter.format_sentence(self)
    }
}

/// A lexical task formats to its text (see [`task_text`]).
impl<'a> FormatTo<&'a NarseseFormat, String> for Task {
    open spec fn formats_to(&self, formatter: &'a NarseseFormat, target: String) -> bool {
        target@ == task_text(*formatter, *self)
    }

    fn format_to(&self, formatter: &'a NarseseFormat) -> (target: String) {
        formatter.format_task(self)
    }
}

impl NarseseFormat {
    /// What the format makes of any value that it formats.
    pub fn format<'a, T: FormatTo<&'a NarseseFormat, String>>(&'a self, from: &T) -> (s: String)
        ensures
            from.formats_to(self, s),
    {
        from.format_to(self)
    }
}

} // verus!
