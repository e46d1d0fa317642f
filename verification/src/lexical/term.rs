//! Lexical terms: atoms with a prefix, compounds with a connector, sets with brackets,
//! statements with a copula, all kept as strings.
use vstd::prelude::*;

verus! {

/// A lexical term.
#[derive(Debug, PartialEq, Eq, Hash)]
pub enum Term {
    /// An atom: prefix and name
    Atom { prefix: String, name: String },
    /// A compound: connector and components
    Compound { connecter: String, terms: Vec<Term> },
    /// A set: brackets and components
    TermSet { left_bracket: String, terms: Vec<Term>, right_bracket: String },
    /// A statement: copula, subject and predicate
    Statement { copula: String, subject: Box<Term>, predicate: Box<Term> },
}

impl Term {
    /// An atom.
    pub fn new_atom(prefix: &str, name: &str) -> (t: Term)
        ensures
            t matches Term::Atom { prefix: p, name: n } && p@ == prefix@ && n@ == name@,
    {
        Term::Atom { prefix: prefix.to_string(), name: name.to_string() }
    }

    /// A compound.
    pub fn new_compound(connecter: &str, terms: Vec<Term>) -> (t: Term)
        ensures
            t matches Term::Compound { connecter: c, terms: ts } && c@ == connecter@ && ts@
                == terms@,
    {
        Term::Compound { connecter: connecter.to_string(), terms }
    }

    /// A set.
    pub fn new_set(left_bracket: &str, terms: Vec<Term>, right_bracket: &str) -> (t: Term)
        ensures
            t matches Term::TermSet { left_bracket: l, terms: ts, right_bracket: r } && l@
                == left_bracket@ && ts@ == terms@ && r@ == right_bracket@,
    {
        Term::TermSet {
            left_bracket: left_bracket.to_string(),
            terms,
            right_bracket: right_bracket.to_string(),
        }
    }

    /// A statement, copula first.
    pub fn new_statement(copula: &str, subject: Term, predicate: Term) -> (t: Term)
        ensures
            t matches Term::Statement { copula: c, subject: s, predicate: p } && c@ == copula@
                && *s == subject && *p == predicate,
    {
        Term::Statement {
            copula: copula.to_string(),
            subject: Box::new(subject),
            predicate: Box::new(predicate),
        }
    }

    /// A statement, copula between subject and predicate.
    pub fn new_statement_infix(subject: Term, copula: &str, predicate: Term) -> (t: Term)
        ensures
            t matches Term::Statement { copula: c, subject: s, predicate: p } && c@ == copula@
                && *s == subject && *p == predicate,
    {
        Term::new_statement(copula, subject, predicate)
    }
}

/// A lexical term as a value of specifications: its strings as character sequences.
pub enum TermView {
    /// An atom: prefix and name
    Atom { prefix: Seq<char>, name: Seq<char> },
    /// A compound: connector and components
    Compound { connecter: Seq<char>, terms: Seq<TermView> },
    /// A set: brackets and components
    TermSet { left_bracket: Seq<char>, terms: Seq<TermView>, right_bracket: Seq<char> },
    /// A statement: copula, subject and predicate
    Statement { copula: Seq<char>, subject: Box<TermView>, predicate: Box<TermView> },
}

/// The view of a lexical term.
pub open spec fn term_view(t: Term) -> TermView
    decreases t, 1nat,
{
    match t {
        Term::Atom { prefix, name } => TermView::Atom { prefix: prefix@, name: name@ },
        Term::Compound { connecter, terms } => TermView::Compound {
            connecter: connecter@,
            terms: terms_view(terms@),
        },
        Term::TermSet { left_bracket, terms, right_bracket } => TermView::TermSet {
            left_bracket: left_bracket@,
            terms: terms_view(terms@),
            right_bracket: right_bracket@,
        },
        Term::Statement { copula, subject, predicate } => TermView::Statement {
            copula: copula@,
            subject: Box::new(term_view(*subject)),
            predicate: Box::new(term_view(*predicate)),
        },
    }
}

/// The views of lexical terms, in order.
pub open spec fn terms_view(s: Seq<Term>) -> Seq<TermView>
    decreases s, 0nat,
{
    if s.len() == 0 {
        Seq::empty()
    } else {
        terms_view(s.subrange(0, s.len() - 1)).push(term_view(s[s.len() - 1]))
    }
}

/// The views of terms: one for each term, in order.
pub proof fn lemma_terms_view(s: Seq<Term>)
    ensures
        terms_view(s).len() == s.len(),
        forall|i: int| 0 <= i < s.len() ==> #[trigger] terms_view(s)[i] == term_view(s[i]),
    decreases s.len(),
{
    if s.len() > 0 {
        lemma_terms_view(s.subrange(0, s.len() - 1));
    }
}

impl View for Term {
    type V = TermView;

    open spec fn view(&self) -> TermView {
        term_view(*self)
    }
}

/// A copy of a lexical term, part by part.
fn deep_clone(t: &Term) -> (res: Term)
    ensures
        res@ == t@,
    decreases *t,
{
    match t {
        Term::Atom { prefix, name } => {
            Term::Atom { prefix: prefix.clone(), name: name.clone() }
        },
        Term::Compound { connecter, terms } => Term::Compound {
            connecter: connecter.clone(),
            terms: clone_terms(terms),
        },
        Term::TermSet { left_bracket, terms, right_bracket } => Term::TermSet {
            left_bracket: left_bracket.clone(),
            terms: clone_terms(terms),
            right_bracket: right_bracket.clone(),
        },
        Term::Statement { copula, subject, predicate } => Term::Statement {
            copula: copula.clone(),
            subject: Box::new(deep_clone(subject)),
            predicate: Box::new(deep_clone(predicate)),
        },
    }
}

/// Copies of the terms, in order.
fn clone_terms(v: &Vec<Term>) -> (res: Vec<Term>)
    ensures
        terms_view(res@) == terms_view(v@),
    decreases v@,
{
    let mut res: Vec<Term> = Vec::new();
    let mut i: usize = 0;
    while i < v.len()
        invariant
            i <= v.len(),
            res@.len() == i,
            terms_view(res@) == terms_view(v@.subrange(0, i as int)),
        decreases v.len() - i,
    {
        let ghost prev = res@;
        res.push(deep_clone(&v[i]));
        proof {
            let sub = v@.subrange(0, i + 1);
            assert(sub.subrange(0, i as int) =~= v@.subrange(0, i as int));
            assert(res@.subrange(0, i as int) =~= prev);
            assert(terms_view(res@) == terms_view(prev).push(term_view(res@[i as int])));
            assert(terms_view(sub) == terms_view(v@.subrange(0, i as int)).push(term_view(v@[i as int])));
        }
        i += 1;
    }
    proof {
        assert(v@.subrange(0, v@.len() as int) =~= v@);
    }
    res
}

impl Clone for Term {
    fn clone(&self) -> (res: Self)
        ensures
            res@ == self@,
    {
        deep_clone(self)
    }
}

} // verus!
