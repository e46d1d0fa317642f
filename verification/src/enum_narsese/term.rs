//! Terms of enum Narsese: one variant per kind of term.
use vstd::prelude::*;
use crate::api::{ExtractTerms, GetCapacity, GetCategory, GetTerm, TermCapacity, TermCategory};
use crate::numeral::{decimal_text, parse_usize, spec_parse_usize, usize_to_string};
use crate::text::{chars_of, push_str};

verus! {

/// The reference to an inner term.
pub type TermRefType = Box<Term>;

/// Unordered components: no two of them are equal (see [`term_eq`]).
pub type TermSetType = Vec<Term>;

/// Ordered components, repetitions allowed.
pub type TermVecType = Vec<Term>;

/// A Narsese term.
#[derive(Debug, Hash)]
pub enum Term {
    // Atoms
    /// Word
    Word(String),
    /// Placeholder of an image
    Placeholder,
    /// Independent variable
    VariableIndependent(String),
    /// Dependent variable
    VariableDependent(String),
    /// Query variable
    VariableQuery(String),
    /// Interval
    Interval(usize),
    /// Operator
    Operator(String),
    // Compounds
    /// Extensional set
    SetExtension(TermSetType),
    /// Intensional set
    SetIntension(TermSetType),
    /// Extensional intersection
    IntersectionExtension(TermSetType),
    /// Intensional intersection
    IntersectionIntension(TermSetType),
    /// Extensional difference
    DifferenceExtension(TermRefType, TermRefType),
    /// Intensional difference
    DifferenceIntension(TermRefType, TermRefType),
    /// Product
    Product(TermVecType),
    /// Extensional image: index of the placeholder, other components
    ImageExtension(usize, TermVecType),
    /// Intensional image: index of the placeholder, other components
    ImageIntension(usize, TermVecType),
    /// Conjunction
    Conjunction(TermSetType),
    /// Disjunction
    Disjunction(TermSetType),
    /// Negation
    Negation(TermRefType),
    /// Sequential conjunction
    ConjunctionSequential(TermVecType),
    /// Parallel conjunction
    ConjunctionParallel(TermSetType),
    // Statements
    /// Inheritance
    Inheritance(TermRefType, TermRefType),
    /// Similarity
    Similarity(TermRefType, TermRefType),
    /// Implication
    Implication(TermRefType, TermRefType),
    /// Equivalence
    Equivalence(TermRefType, TermRefType),
    /// Predictive implication
    ImplicationPredictive(TermRefType, TermRefType),
    /// Concurrent implication
    ImplicationConcurrent(TermRefType, TermRefType),
    /// Retrospective implication
    ImplicationRetrospective(TermRefType, TermRefType),
    /// Predictive equivalence
    EquivalencePredictive(TermRefType, TermRefType),
    /// Concurrent equivalence
    EquivalenceConcurrent(TermRefType, TermRefType),
}

// Equality //

/// Equality of terms: atoms by name, sets as sets, sequences element by element;
/// statements by kind and components, in either order for those whose components form
/// a set (similarity, equivalence and concurrent equivalence).
pub open spec fn term_eq(a: Term, b: Term) -> bool
    decreases a, 0nat,
{
    match (a, b) {
        (Term::Word(x), Term::Word(y)) => x@ == y@,
        (Term::Placeholder, Term::Placeholder) => true,
        (Term::VariableIndependent(x), Term::VariableIndependent(y)) => x@ == y@,
        (Term::VariableDependent(x), Term::VariableDependent(y)) => x@ == y@,
        (Term::VariableQuery(x), Term::VariableQuery(y)) => x@ == y@,
        (Term::Interval(x), Term::Interval(y)) => x == y,
        (Term::Operator(x), Term::Operator(y)) => x@ == y@,
        (Term::SetExtension(x), Term::SetExtension(y)) => set_eq(x@, y@),
        (Term::SetIntension(x), Term::SetIntension(y)) => set_eq(x@, y@),
        (Term::IntersectionExtension(x), Term::IntersectionExtension(y)) => set_eq(x@, y@),
        (Term::IntersectionIntension(x), Term::IntersectionIntension(y)) => set_eq(x@, y@),
        (Term::DifferenceExtension(x1, x2), Term::DifferenceExtension(y1, y2)) => term_eq(*x1, *y1)
            && term_eq(*x2, *y2),
        (Term::DifferenceIntension(x1, x2), Term::DifferenceIntension(y1, y2)) => term_eq(*x1, *y1)
            && term_eq(*x2, *y2),
        (Term::Product(x), Term::Product(y)) => seq_eq(x@, y@),
        (Term::ImageExtension(i, x), Term::ImageExtension(j, y)) => i == j && seq_eq(x@, y@),
        (Term::ImageIntension(i, x), Term::ImageIntension(j, y)) => i == j && seq_eq(x@, y@),
        (Term::Conjunction(x), Term::Conjunction(y)) => set_eq(x@, y@),
        (Term::Disjunction(x), Term::Disjunction(y)) => set_eq(x@, y@),
        (Term::Negation(x), Term::Negation(y)) => term_eq(*x, *y),
        (Term::ConjunctionSequential(x), Term::ConjunctionSequential(y)) => seq_eq(x@, y@),
        (Term::ConjunctionParallel(x), Term::ConjunctionParallel(y)) => set_eq(x@, y@),
        (Term::Inheritance(x1, x2), Term::Inheritance(y1, y2)) => term_eq(*x1, *y1) && term_eq(
            *x2,
            *y2,
        ),
        (Term::Similarity(x1, x2), Term::Similarity(y1, y2)) => (term_eq(*x1, *y1) && term_eq(
            *x2,
            *y2,
        )) || (term_eq(*x1, *y2) && term_eq(*x2, *y1)),
        (Term::Implication(x1, x2), Term::Implication(y1, y2)) => term_eq(*x1, *y1) && term_eq(
            *x2,
            *y2,
        ),
        (Term::Equivalence(x1, x2), Term::Equivalence(y1, y2)) => (term_eq(*x1, *y1) && term_eq(
            *x2,
            *y2,
        )) || (term_eq(*x1, *y2) && term_eq(*x2, *y1)),
        (Term::ImplicationPredictive(x1, x2), Term::ImplicationPredictive(y1, y2)) => term_eq(*x1, *y1)
            && term_eq(*x2, *y2),
        (Term::ImplicationConcurrent(x1, x2), Term::ImplicationConcurrent(y1, y2)) => term_eq(*x1, *y1)
            && term_eq(*x2, *y2),
        (Term::ImplicationRetrospective(x1, x2), Term::ImplicationRetrospective(y1, y2)) => term_eq(
            *x1,
            *y1,
        ) && term_eq(*x2, *y2),
        (Term::EquivalencePredictive(x1, x2), Term::EquivalencePredictive(y1, y2)) => term_eq(*x1, *y1)
            && term_eq(*x2, *y2),
        (Term::EquivalenceConcurrent(x1, x2), Term::EquivalenceConcurrent(y1, y2)) => (term_eq(*x1, *y1)
            && term_eq(*x2, *y2)) || (term_eq(*x1, *y2) && term_eq(*x2, *y1)),
        _ => false,
    }
}

/// Ordered components are equal: same length, equal element by element.
pub open spec fn seq_eq(xs: Seq<Term>, ys: Seq<Term>) -> bool
    decreases xs, 0nat,
{
    xs.len() == ys.len() && forall|i: int|
        #![trigger xs[i]]
        0 <= i < xs.len() ==> term_eq(xs[i], ys[i])
}

/// Unordered components are equal: same size, and each of the first has an equal in the
/// second.
pub open spec fn set_eq(xs: Seq<Term>, ys: Seq<Term>) -> bool
    decreases xs, 0nat,
{
    xs.len() == ys.len() && forall|i: int|
        #![trigger xs[i]]
        0 <= i < xs.len() ==> seq_contains(ys, xs[i])
}

/// Some element of `s` equals `t`.
pub open spec fn seq_contains(s: Seq<Term>, t: Term) -> bool
    decreases t, 1nat,
{
    exists|j: int| #![trigger s[j]] 0 <= j < s.len() && term_eq(t, s[j])
}

/// `s` with `t` added unless an equal term is already there.
pub open spec fn set_insert(s: Seq<Term>, t: Term) -> Seq<Term> {
    if seq_contains(s, t) {
        s
    } else {
        s.push(t)
    }
}

/// The set built by adding the terms of `ts` in order to an empty one.
pub open spec fn set_of(ts: Seq<Term>) -> Seq<Term> {
    set_extend(Seq::empty(), ts)
}

/// `s` extended by the terms of `ts`, each added unless an equal term is already there.
pub open spec fn set_extend(s: Seq<Term>, ts: Seq<Term>) -> Seq<Term>
    decreases ts.len(),
{
    if ts.len() == 0 {
        s
    } else {
        set_insert(set_extend(s, ts.drop_last()), ts.last())
    }
}

/// No two elements are equal.
pub open spec fn no_duplicates(s: Seq<Term>) -> bool {
    forall|i: int, j: int|
        #![trigger s[i], s[j]]
        0 <= i < j < s.len() ==> !term_eq(s[j], s[i])
}

impl Term {
    /// Whether the terms are equal (see [`term_eq`]).
    pub fn equals(&self, other: &Term) -> (res: bool)
        ensures
            res == term_eq(*self, *other),
        decreases *self, 0nat,
    {
        match (self, other) {
            (Term::Word(x), Term::Word(y)) => *x == *y,
            (Term::Placeholder, Term::Placeholder) => true,
            (Term::VariableIndependent(x), Term::VariableIndependent(y)) => *x == *y,
            (Term::VariableDependent(x), Term::VariableDependent(y)) => *x == *y,
            (Term::VariableQuery(x), Term::VariableQuery(y)) => *x == *y,
            (Term::Interval(x), Term::Interval(y)) => *x == *y,
            (Term::Operator(x), Term::Operator(y)) => *x == *y,
            (Term::SetExtension(x), Term::SetExtension(y)) => set_equals(x, y),
            (Term::SetIntension(x), Term::SetIntension(y)) => set_equals(x, y),
            (Term::IntersectionExtension(x), Term::IntersectionExtension(y)) => set_equals(x, y),
            (Term::IntersectionIntension(x), Term::IntersectionIntension(y)) => set_equals(x, y),
            (Term::DifferenceExtension(x1, x2), Term::DifferenceExtension(y1, y2)) => x1.equals(y1)
                && x2.equals(y2),
            (Term::DifferenceIntension(x1, x2), Term::DifferenceIntension(y1, y2)) => x1.equals(y1)
                && x2.equals(y2),
            (Term::Product(x), Term::Product(y)) => seq_equals(x, y),
            (Term::ImageExtension(i, x), Term::ImageExtension(j, y)) => *i == *j && seq_equals(x, y),
            (Term::ImageIntension(i, x), Term::ImageIntension(j, y)) => *i == *j && seq_equals(x, y),
            (Term::Conjunction(x), Term::Conjunction(y)) => set_equals(x, y),
            (Term::Disjunction(x), Term::Disjunction(y)) => set_equals(x, y),
            (Term::Negation(x), Term::Negation(y)) => x.equals(y),
            (Term::ConjunctionSequential(x), Term::ConjunctionSequential(y)) => seq_equals(x, y),
            (Term::ConjunctionParallel(x), Term::ConjunctionParallel(y)) => set_equals(x, y),
            (Term::Inheritance(x1, x2), Term::Inheritance(y1, y2)) => x1.equals(y1) && x2.equals(y2),
            (Term::Similarity(x1, x2), Term::Similarity(y1, y2)) => (x1.equals(y1) && x2.equals(y2))
                || (x1.equals(y2) && x2.equals(y1)),
            (Term::Implication(x1, x2), Term::Implication(y1, y2)) => x1.equals(y1) && x2.equals(y2),
            (Term::Equivalence(x1, x2), Term::Equivalence(y1, y2)) => (x1.equals(y1) && x2.equals(y2))
                || (x1.equals(y2) && x2.equals(y1)),
            (Term::ImplicationPredictive(x1, x2), Term::ImplicationPredictive(y1, y2)) => x1.equals(y1)
                && x2.equals(y2),
            (Term::ImplicationConcurrent(x1, x2), Term::ImplicationConcurrent(y1, y2)) => x1.equals(y1)
                && x2.equals(y2),
            (Term::ImplicationRetrospective(x1, x2), Term::ImplicationRetrospective(y1, y2)) => x1.equals(
                y1,
            ) && x2.equals(y2),
            (Term::EquivalencePredictive(x1, x2), Term::EquivalencePredictive(y1, y2)) => x1.equals(y1)
                && x2.equals(y2),
            (Term::EquivalenceConcurrent(x1, x2), Term::EquivalenceConcurrent(y1, y2)) => (x1.equals(y1)
                && x2.equals(y2)) || (x1.equals(y2) && x2.equals(y1)),
            _ => false,
        }
    }
}

/// Whether the ordered components are equal (see [`seq_eq`]).
fn seq_equals(xs: &Vec<Term>, ys: &Vec<Term>) -> (res: bool)
    ensures
        res == seq_eq(xs@, ys@),
    decreases xs@, 0nat,
{
    if xs.len() != ys.len() {
        return false;
    }
    let mut i: usize = 0;
    while i < xs.len()
        invariant
            i <= xs.len() == ys.len(),
            forall|k: int| #![trigger xs@[k]] 0 <= k < i ==> term_eq(xs@[k], ys@[k]),
        decreases xs.len() - i,
    {
        if !xs[i].equals(&ys[i]) {
            return false;
        }
        i += 1;
    }
    true
}

/// Whether the unordered components are equal (see [`set_eq`]).
fn set_equals(xs: &Vec<Term>, ys: &Vec<Term>) -> (res: bool)
    ensures
        res == set_eq(xs@, ys@),
    decreases xs@, 0nat,
{
    if xs.len() != ys.len() {
        return false;
    }
    let mut i: usize = 0;
    while i < xs.len()
        invariant
            i <= xs.len() == ys.len(),
            forall|k: int| #![trigger xs@[k]] 0 <= k < i ==> seq_contains(ys@, xs@[k]),
        decreases xs.len() - i,
    {
        if !contains_term(ys, &xs[i]) {
            return false;
        }
        i += 1;
    }
    true
}

/// Whether some element of `s` equals `t` (see [`seq_contains`]).
fn contains_term(s: &Vec<Term>, t: &Term) -> (res: bool)
    ensures
        res == seq_contains(s@, *t),
    decreases *t, 1nat,
{
    let mut j: usize = 0;
    while j < s.len()
        invariant
            j <= s.len(),
            forall|k: int| #![trigger s@[k]] 0 <= k < j ==> !term_eq(*t, s@[k]),
        decreases s.len() - j,
    {
        if t.equals(&s[j]) {
            return true;
        }
        j += 1;
    }
    false
}

/// `b` is a copy of `a`: the same kind of term, with the same names and numbers, and
/// components that are copies of those of `a`, in the same order.
pub open spec fn copied(a: Term, b: Term) -> bool
    decreases a, 1nat,
{
    match (a, b) {
        (Term::Word(x), Term::Word(y)) => x@ == y@,
        (Term::VariableIndependent(x), Term::VariableIndependent(y)) => x@ == y@,
        (Term::VariableDependent(x), Term::VariableDependent(y)) => x@ == y@,
        (Term::VariableQuery(x), Term::VariableQuery(y)) => x@ == y@,
        (Term::Operator(x), Term::Operator(y)) => x@ == y@,
        (Term::Placeholder, Term::Placeholder) => true,
        (Term::Interval(x), Term::Interval(y)) => x == y,
        (Term::SetExtension(x), Term::SetExtension(y)) => copied_all(x@, y@),
        (Term::SetIntension(x), Term::SetIntension(y)) => copied_all(x@, y@),
        (Term::IntersectionExtension(x), Term::IntersectionExtension(y)) => copied_all(x@, y@),
        (Term::IntersectionIntension(x), Term::IntersectionIntension(y)) => copied_all(x@, y@),
        (Term::Product(x), Term::Product(y)) => copied_all(x@, y@),
        (Term::Conjunction(x), Term::Conjunction(y)) => copied_all(x@, y@),
        (Term::Disjunction(x), Term::Disjunction(y)) => copied_all(x@, y@),
        (Term::ConjunctionSequential(x), Term::ConjunctionSequential(y)) => copied_all(x@, y@),
        (Term::ConjunctionParallel(x), Term::ConjunctionParallel(y)) => copied_all(x@, y@),
        (Term::ImageExtension(i, x), Term::ImageExtension(j, y)) => i == j && copied_all(x@, y@),
        (Term::ImageIntension(i, x), Term::ImageIntension(j, y)) => i == j && copied_all(x@, y@),
        (Term::Negation(x), Term::Negation(y)) => copied(*x, *y),
        (Term::DifferenceExtension(x1, x2), Term::DifferenceExtension(y1, y2)) => copied(*x1, *y1) && copied(*x2, *y2),
        (Term::DifferenceIntension(x1, x2), Term::DifferenceIntension(y1, y2)) => copied(*x1, *y1) && copied(*x2, *y2),
        (Term::Inheritance(x1, x2), Term::Inheritance(y1, y2)) => copied(*x1, *y1) && copied(*x2, *y2),
        (Term::Similarity(x1, x2), Term::Similarity(y1, y2)) => copied(*x1, *y1) && copied(*x2, *y2),
        (Term::Implication(x1, x2), Term::Implication(y1, y2)) => copied(*x1, *y1) && copied(*x2, *y2),
        (Term::Equivalence(x1, x2), Term::Equivalence(y1, y2)) => copied(*x1, *y1) && copied(*x2, *y2),
        (Term::ImplicationPredictive(x1, x2), Term::ImplicationPredictive(y1, y2)) => copied(*x1, *y1) && copied(*x2, *y2),
        (Term::ImplicationConcurrent(x1, x2), Term::ImplicationConcurrent(y1, y2)) => copied(*x1, *y1) && copied(*x2, *y2),
        (Term::ImplicationRetrospective(x1, x2), Term::ImplicationRetrospective(y1, y2)) => copied(*x1, *y1) && copied(*x2, *y2),
        (Term::EquivalencePredictive(x1, x2), Term::EquivalencePredictive(y1, y2)) => copied(*x1, *y1) && copied(*x2, *y2),
        (Term::EquivalenceConcurrent(x1, x2), Term::EquivalenceConcurrent(y1, y2)) => copied(*x1, *y1) && copied(*x2, *y2),
        _ => false,
    }
}

/// Each term of `ys` is a copy of the term of `xs` at its place.
pub open spec fn copied_all(xs: Seq<Term>, ys: Seq<Term>) -> bool
    decreases xs, 0nat,
{
    xs.len() == ys.len() && forall|i: int| #![trigger xs[i]] 0 <= i < xs.len() ==> copied(xs[i], ys[i])
}

/// A copy of a term, component by component.
fn deep_clone(t: &Term) -> (res: Term)
    ensures
        copied(*t, res),
    decreases *t,
{
    match t {
        Term::Word(x) => Term::Word(x.clone()),
        Term::Placeholder => Term::Placeholder,
        Term::VariableIndependent(x) => Term::VariableIndependent(x.clone()),
        Term::VariableDependent(x) => Term::VariableDependent(x.clone()),
        Term::VariableQuery(x) => Term::VariableQuery(x.clone()),
        Term::Interval(x) => Term::Interval(*x),
        Term::Operator(x) => Term::Operator(x.clone()),
        Term::SetExtension(x) => Term::SetExtension(clone_terms(x)),
        Term::SetIntension(x) => Term::SetIntension(clone_terms(x)),
        Term::IntersectionExtension(x) => Term::IntersectionExtension(clone_terms(x)),
        Term::IntersectionIntension(x) => Term::IntersectionIntension(clone_terms(x)),
        Term::DifferenceExtension(x, y) => Term::DifferenceExtension(
            Box::new(deep_clone(x)),
            Box::new(deep_clone(y)),
        ),
        Term::DifferenceIntension(x, y) => Term::DifferenceIntension(
            Box::new(deep_clone(x)),
            Box::new(deep_clone(y)),
        ),
        Term::Product(x) => Term::Product(clone_terms(x)),
        Term::ImageExtension(i, x) => Term::ImageExtension(*i, clone_terms(x)),
        Term::ImageIntension(i, x) => Term::ImageIntension(*i, clone_terms(x)),
        Term::Conjunction(x) => Term::Conjunction(clone_terms(x)),
        Term::Disjunction(x) => Term::Disjunction(clone_terms(x)),
        Term::Negation(x) => Term::Negation(Box::new(deep_clone(x))),
        Term::ConjunctionSequential(x) => Term::ConjunctionSequential(clone_terms(x)),
        Term::ConjunctionParallel(x) => Term::ConjunctionParallel(clone_terms(x)),
        Term::Inheritance(x, y) => Term::Inheritance(Box::new(deep_clone(x)), Box::new(deep_clone(y))),
        Term::Similarity(x, y) => Term::Similarity(Box::new(deep_clone(x)), Box::new(deep_clone(y))),
        Term::Implication(x, y) => Term::Implication(Box::new(deep_clone(x)), Box::new(deep_clone(y))),
        Term::Equivalence(x, y) => Term::Equivalence(Box::new(deep_clone(x)), Box::new(deep_clone(y))),
        Term::ImplicationPredictive(x, y) => Term::ImplicationPredictive(
            Box::new(deep_clone(x)),
            Box::new(deep_clone(y)),
        ),
        Term::ImplicationConcurrent(x, y) => Term::ImplicationConcurrent(
            Box::new(deep_clone(x)),
            Box::new(deep_clone(y)),
        ),
        Term::ImplicationRetrospective(x, y) => Term::ImplicationRetrospective(
            Box::new(deep_clone(x)),
            Box::new(deep_clone(y)),
        ),
        Term::EquivalencePredictive(x, y) => Term::EquivalencePredictive(
            Box::new(deep_clone(x)),
            Box::new(deep_clone(y)),
        ),
        Term::EquivalenceConcurrent(x, y) => Term::EquivalenceConcurrent(
            Box::new(deep_clone(x)),
            Box::new(deep_clone(y)),
        ),
    }
}

/// Copies of the terms, in order.
fn clone_terms(v: &Vec<Term>) -> (res: Vec<Term>)
    ensures
        copied_all(v@, res@),
    decreases v@,
{
    let mut res: Vec<Term> = Vec::new();
    let mut i: usize = 0;
    while i < v.len()
        invariant
            i <= v.len(),
            res@.len() == i,
            forall|k: int| 0 <= k < i ==> copied(v@[k], #[trigger] res@[k]),
        decreases v.len() - i,
    {
        res.push(deep_clone(&v[i]));
        i += 1;
    }
    res
}

/// Adds `t` to the set unless an equal term is already there.
fn insert_term(set: &mut Vec<Term>, t: Term)
    ensures
        final(set)@ == set_insert(old(set)@, t),
{
    if !contains_term(set, &t) {
        set.push(t);
    }
}

/// Adds the terms in order, each unless an equal term is already in the set.
fn extend_set(set: &mut Vec<Term>, terms: Vec<Term>)
    ensures
        final(set)@ == set_extend(old(set)@, terms@),
{
    let ghost ts = terms@;
    let ghost s0 = set@;
    for t in it: terms.into_iter()
        invariant
            it.seq() == ts,
            set@ == set_extend(s0, ts.take(it.index() as int)),
    {
        proof {
            assert(ts.take(it.index() + 1).drop_last() =~= ts.take(it.index() as int));
        }
        insert_term(set, t);
    }
    proof {
        assert(ts.take(ts.len() as int) =~= ts);
    }
}

impl Clone for Term {
    fn clone(&self) -> (res: Self)
        ensures
            copied(*self, res),
    {
        deep_clone(self)
    }
}



// Categories, capacities, names and components //

/// The category of a term.
pub open spec fn term_category(t: Term) -> TermCategory {
    match t {
        Term::Word(..) | Term::Placeholder | Term::VariableIndependent(..)
        | Term::VariableDependent(..) | Term::VariableQuery(..) | Term::Interval(..)
        | Term::Operator(..) => TermCategory::Atom,
        Term::SetExtension(..) | Term::SetIntension(..) | Term::IntersectionExtension(..)
        | Term::IntersectionIntension(..) | Term::DifferenceExtension(..)
        | Term::DifferenceIntension(..) | Term::Product(..) | Term::ImageExtension(..)
        | Term::ImageIntension(..) | Term::Conjunction(..) | Term::Disjunction(..)
        | Term::Negation(..) | Term::ConjunctionSequential(..)
        | Term::ConjunctionParallel(..) => TermCategory::Compound,
        _ => TermCategory::Statement,
    }
}

/// The capacity of a term.
pub open spec fn term_capacity(t: Term) -> TermCapacity {
    match t {
        Term::Word(..) | Term::Placeholder | Term::VariableIndependent(..)
        | Term::VariableDependent(..) | Term::VariableQuery(..) | Term::Interval(..)
        | Term::Operator(..) => TermCapacity::Atom,
        Term::Negation(..) => TermCapacity::Unary,
        Term::DifferenceExtension(..) | Term::DifferenceIntension(..) | Term::Inheritance(..)
        | Term::Implication(..) | Term::ImplicationPredictive(..)
        | Term::ImplicationConcurrent(..) | Term::ImplicationRetrospective(..)
        | Term::EquivalencePredictive(..) => TermCapacity::BinaryVec,
        Term::Similarity(..) | Term::Equivalence(..) | Term::EquivalenceConcurrent(..) => {
            TermCapacity::BinarySet
        },
        Term::Product(..) | Term::ImageExtension(..) | Term::ImageIntension(..)
        | Term::ConjunctionSequential(..) => TermCapacity::Vec,
        _ => TermCapacity::SetMany,
    }
}

/// Whether the term is an atom that carries a name (words, variables, operators).
pub open spec fn is_named_atom(t: Term) -> bool {
    t is Word || t is VariableIndependent || t is VariableDependent || t is VariableQuery
        || t is Operator
}

/// The name of an atom: its own name, nothing for the placeholder, the decimal text of
/// an interval.
pub open spec fn atom_name(t: Term) -> Seq<char> {
    match t {
        Term::Word(n) => n@,
        Term::VariableIndependent(n) => n@,
        Term::VariableDependent(n) => n@,
        Term::VariableQuery(n) => n@,
        Term::Operator(n) => n@,
        Term::Interval(i) => decimal_text(i as nat),
        _ => Seq::empty(),
    }
}

/// `new` is `old`, a named atom, of the same kind, under the name `name`.
pub open spec fn renamed(old: Term, new: Term, name: Seq<char>) -> bool {
    match (old, new) {
        (Term::Word(_), Term::Word(n)) => n@ == name,
        (Term::VariableIndependent(_), Term::VariableIndependent(n)) => n@ == name,
        (Term::VariableDependent(_), Term::VariableDependent(n)) => n@ == name,
        (Term::VariableQuery(_), Term::VariableQuery(n)) => n@ == name,
        (Term::Operator(_), Term::Operator(n)) => n@ == name,
        _ => false,
    }
}

/// The components of a term: an atom is its own component, a statement has its subject
/// and predicate, a compound its components in their stored order.
pub open spec fn components(t: Term) -> Seq<Term> {
    match t {
        Term::SetExtension(v) => v@,
        Term::SetIntension(v) => v@,
        Term::IntersectionExtension(v) => v@,
        Term::IntersectionIntension(v) => v@,
        Term::DifferenceExtension(a, b) => seq![*a, *b],
        Term::DifferenceIntension(a, b) => seq![*a, *b],
        Term::Product(v) => v@,
        Term::ImageExtension(_, v) => v@,
        Term::ImageIntension(_, v) => v@,
        Term::Conjunction(v) => v@,
        Term::Disjunction(v) => v@,
        Term::Negation(a) => seq![*a],
        Term::ConjunctionSequential(v) => v@,
        Term::ConjunctionParallel(v) => v@,
        Term::Inheritance(a, b) => seq![*a, *b],
        Term::Similarity(a, b) => seq![*a, *b],
        Term::Implication(a, b) => seq![*a, *b],
        Term::Equivalence(a, b) => seq![*a, *b],
        Term::ImplicationPredictive(a, b) => seq![*a, *b],
        Term::ImplicationConcurrent(a, b) => seq![*a, *b],
        Term::ImplicationRetrospective(a, b) => seq![*a, *b],
        Term::EquivalencePredictive(a, b) => seq![*a, *b],
        Term::EquivalenceConcurrent(a, b) => seq![*a, *b],
        _ => seq![t],
    }
}

/// The terms inside a term (see [`ExtractTerms`]): its components, with the placeholder
/// of an image at its index (where the index fits).
pub open spec fn extracted_terms(t: Term) -> Seq<Term> {
    match t {
        Term::ImageExtension(i, v) => if i <= v@.len() {
            image_terms(i as int, v@)
        } else {
            v@
        },
        Term::ImageIntension(i, v) => if i <= v@.len() {
            image_terms(i as int, v@)
        } else {
            v@
        },
        _ => components(t),
    }
}

/// The terms behind a sequence of references.
pub open spec fn deref_all(rs: Seq<&Term>) -> Seq<Term> {
    rs.map_values(|r: &Term| *r)
}

/// The errors of changing a term in place.
#[derive(Debug, Clone, Copy, PartialEq, Eq, Structural)]
pub enum TermError {
    /// The new name of an interval is not a number.
    InvalidInterval,
    /// The term is no atom, so it has no name.
    NotAnAtom,
    /// The term has a fixed number of components.
    FixedCapacity,
}

impl TermError {
    /// The message that describes the error.
    pub fn message(&self) -> (s: &'static str)
        ensures
            s@ == match *self {
                TermError::InvalidInterval => "尝试在间隔中设置无效的数值"@,
                TermError::NotAnAtom => "尝试在非原子词项中设置词项名"@,
                TermError::FixedCapacity => "尝试为容量固定的词项添加词项"@,
            },
    {
        match self {
            TermError::InvalidInterval => "尝试在间隔中设置无效的数值",
            TermError::NotAnAtom => "尝试在非原子词项中设置词项名",
            TermError::FixedCapacity => "尝试为容量固定的词项添加词项",
        }
    }
}

/// Whether the index of the placeholder fits the other components of an image: it may
/// stand anywhere from before the first to after the last.
pub fn test_term_vec_for_image(placeholder_index: usize, vec: &TermVecType) -> (valid: bool)
    ensures
        valid == (placeholder_index <= vec@.len()),
{
    placeholder_index <= vec.len()
}

/// The components of an image, checked against the index of its placeholder.
pub fn new_term_vec_for_image(placeholder_index: usize, terms: Vec<Term>) -> (vec: TermVecType)
    requires
        placeholder_index <= terms@.len(),
    ensures
        vec@ == terms@,
{
    terms
}

/// A new reference to an inner term.
pub fn new_term_ref_type(term: Term) -> (r: TermRefType)
    ensures
        *r == term,
{
    Box::new(term)
}

/// A new empty set of terms.
pub fn new_term_set_type() -> (s: TermSetType)
    ensures
        s@ == Seq::<Term>::empty(),
{
    Vec::new()
}

/// A new empty sequence of terms.
pub fn new_term_vec_type() -> (v: TermVecType)
    ensures
        v@ == Seq::<Term>::empty(),
{
    Vec::new()
}

/// The set of the terms, the first of equal terms kept, in their order.
fn term_set_from(terms: Vec<Term>) -> (set: TermSetType)
    ensures
        set@ == set_of(terms@),
        no_duplicates(set@),
{
    let mut set = new_term_set_type();
    extend_set(&mut set, terms);
    proof {
        lemma_set_extend_no_duplicates(Seq::empty(), terms@);
    }
    set
}

/// Adding a term to a set keeps it free of duplicates.
pub proof fn lemma_set_insert_no_duplicates(s: Seq<Term>, t: Term)
    requires
        no_duplicates(s),
    ensures
        no_duplicates(set_insert(s, t)),
{
    if !seq_contains(s, t) {
        let r = s.push(t);
        assert forall|i: int, j: int| 0 <= i < j < r.len() implies !term_eq(r[j], r[i]) by {
            if j == s.len() {
                assert(r[i] == s[i]);
                if term_eq(t, s[i]) {
                    assert(seq_contains(s, t));
                }
            } else {
                assert(r[i] == s[i] && r[j] == s[j]);
            }
        }
    }
}

/// Extending a set keeps it free of duplicates.
pub proof fn lemma_set_extend_no_duplicates(s: Seq<Term>, ts: Seq<Term>)
    requires
        no_duplicates(s),
    ensures
        no_duplicates(set_extend(s, ts)),
    decreases ts.len(),
{
    if ts.len() > 0 {
        lemma_set_extend_no_duplicates(s, ts.drop_last());
        lemma_set_insert_no_duplicates(set_extend(s, ts.drop_last()), ts.last());
    }
}

// Constructors //

impl Term {
    /// A word.
    pub fn new_word(word: &str) -> (t: Term)
        ensures
            t matches Term::Word(n) && n@ == word@,
    {
        Term::Word(word.to_string())
    }

    /// The placeholder of an image.
    pub fn new_placeholder() -> (t: Term)
        ensures
            t is Placeholder,
    {
        Term::Placeholder
    }

    /// An independent variable.
    pub fn new_variable_independent(name: &str) -> (t: Term)
        ensures
            t matches Term::VariableIndependent(n) && n@ == name@,
    {
        Term::VariableIndependent(name.to_string())
    }

    /// A dependent variable.
    pub fn new_variable_dependent(name: &str) -> (t: Term)
        ensures
            t matches Term::VariableDependent(n) && n@ == name@,
    {
        Term::VariableDependent(name.to_string())
    }

    /// A query variable.
    pub fn new_variable_query(name: &str) -> (t: Term)
        ensures
            t matches Term::VariableQuery(n) && n@ == name@,
    {
        Term::VariableQuery(name.to_string())
    }

    /// An interval.
    pub fn new_interval(interval: usize) -> (t: Term)
        ensures
            t == Term::Interval(interval),
    {
        Term::Interval(interval)
    }

    /// An operator.
    pub fn new_operator(operator: &str) -> (t: Term)
        ensures
            t matches Term::Operator(n) && n@ == operator@,
    {
        Term::Operator(operator.to_string())
    }

    /// An extensional set of the terms, each kept once.
    pub fn new_set_extension(terms: Vec<Term>) -> (t: Term)
        ensures
            t matches Term::SetExtension(v) && v@ == set_of(terms@) && no_duplicates(v@),
    {
        Term::SetExtension(term_set_from(terms))
    }

    /// An intensional set of the terms, each kept once.
    pub fn new_set_intension(terms: Vec<Term>) -> (t: Term)
        ensures
            t matches Term::SetIntension(v) && v@ == set_of(terms@) && no_duplicates(v@),
    {
        Term::SetIntension(term_set_from(terms))
    }

    /// An extensional intersection of the terms, each kept once.
    pub fn new_intersection_extension(terms: Vec<Term>) -> (t: Term)
        ensures
            t matches Term::IntersectionExtension(v) && v@ == set_of(terms@) && no_duplicates(
                v@,
            ),
    {
        Term::IntersectionExtension(term_set_from(terms))
    }

    /// An intensional intersection of the terms, each kept once.
    pub fn new_intersection_intension(terms: Vec<Term>) -> (t: Term)
        ensures
            t matches Term::IntersectionIntension(v) && v@ == set_of(terms@) && no_duplicates(
                v@,
            ),
    {
        Term::IntersectionIntension(term_set_from(terms))
    }

    /// An extensional difference.
    pub fn new_difference_extension(left: Term, right: Term) -> (t: Term)
        ensures
            t == Term::DifferenceExtension(Box::new(left), Box::new(right)),
    {
        Term::DifferenceExtension(new_term_ref_type(left), new_term_ref_type(right))
    }

    /// An intensional difference.
    pub fn new_difference_intension(left: Term, right: Term) -> (t: Term)
        ensures
            t == Term::DifferenceIntension(Box::new(left), Box::new(right)),
    {
        Term::DifferenceIntension(new_term_ref_type(left), new_term_ref_type(right))
    }

    /// A product of the terms, in order.
    pub fn new_product(terms: Vec<Term>) -> (t: Term)
        ensures
            t matches Term::Product(v) && v@ == terms@,
    {
        Term::Product(terms)
    }

    /// An extensional image with its placeholder at `placeholder_index` among the terms.
    pub fn new_image_extension(placeholder_index: usize, terms: Vec<Term>) -> (t: Term)
        requires
            placeholder_index <= terms@.len(),
        ensures
            t matches Term::ImageExtension(i, v) && i == placeholder_index && v@ == terms@,
    {
        Term::ImageExtension(placeholder_index, new_term_vec_for_image(placeholder_index, terms))
    }

    /// An intensional image with its placeholder at `placeholder_index` among the terms.
    pub fn new_image_intension(placeholder_index: usize, terms: Vec<Term>) -> (t: Term)
        requires
            placeholder_index <= terms@.len(),
        ensures
            t matches Term::ImageIntension(i, v) && i == placeholder_index && v@ == terms@,
    {
        Term::ImageIntension(placeholder_index, new_term_vec_for_image(placeholder_index, terms))
    }

    /// A conjunction of the terms, each kept once.
    pub fn new_conjunction(terms: Vec<Term>) -> (t: Term)
        ensures
            t matches Term::Conjunction(v) && v@ == set_of(terms@) && no_duplicates(v@),
    {
        Term::Conjunction(term_set_from(terms))
    }

    /// A disjunction of the terms, each kept once.
    pub fn new_disjunction(terms: Vec<Term>) -> (t: Term)
        ensures
            t matches Term::Disjunction(v) && v@ == set_of(terms@) && no_duplicates(v@),
    {
        Term::Disjunction(term_set_from(terms))
    }

    /// A negation.
    pub fn new_negation(term: Term) -> (t: Term)
        ensures
            t == Term::Negation(Box::new(term)),
    {
        Term::Negation(new_term_ref_type(term))
    }

    /// A sequential conjunction of the terms, in order.
    pub fn new_conjunction_sequential(terms: Vec<Term>) -> (t: Term)
        ensures
            t matches Term::ConjunctionSequential(v) && v@ == terms@,
    {
        Term::ConjunctionSequential(terms)
    }

    /// A parallel conjunction of the terms, each kept once.
    pub fn new_conjunction_parallel(terms: Vec<Term>) -> (t: Term)
        ensures
            t matches Term::ConjunctionParallel(v) && v@ == set_of(terms@) && no_duplicates(v@),
    {
        Term::ConjunctionParallel(term_set_from(terms))
    }

    /// An inheritance `<S --> P>`.
    pub fn new_inheritance(subject: Term, predicate: Term) -> (t: Term)
        ensures
            t == Term::Inheritance(Box::new(subject), Box::new(predicate)),
    {
        Term::Inheritance(new_term_ref_type(subject), new_term_ref_type(predicate))
    }

    /// A similarity `<S <-> P>`.
    pub fn new_similarity(subject: Term, predicate: Term) -> (t: Term)
        ensures
            t == Term::Similarity(Box::new(subject), Box::new(predicate)),
    {
        Term::Similarity(new_term_ref_type(subject), new_term_ref_type(predicate))
    }

    /// An implication `<S ==> P>`.
    pub fn new_implication(subject: Term, predicate: Term) -> (t: Term)
        ensures
            t == Term::Implication(Box::new(subject), Box::new(predicate)),
    {
        Term::Implication(new_term_ref_type(subject), new_term_ref_type(predicate))
    }

    /// An equivalence `<S <=> P>`.
    pub fn new_equivalence(subject: Term, predicate: Term) -> (t: Term)
        ensures
            t == Term::Equivalence(Box::new(subject), Box::new(predicate)),
    {
        Term::Equivalence(new_term_ref_type(subject), new_term_ref_type(predicate))
    }

    /// An instance `{S} --> P`.
    pub fn new_instance(subject: Term, predicate: Term) -> (t: Term)
        ensures
            t matches Term::Inheritance(s, p) && *p == predicate && (*s matches Term::SetExtension(
                v,
            ) && v@ == seq![subject]),
    {
        let set = Term::new_set_extension(single_term(subject));
        proof {
            lemma_set_of_single(subject);
        }
        Term::new_inheritance(set, predicate)
    }

    /// A property `S --> [P]`.
    pub fn new_property(subject: Term, predicate: Term) -> (t: Term)
        ensures
            t matches Term::Inheritance(s, p) && *s == subject && (*p matches Term::SetIntension(
                v,
            ) && v@ == seq![predicate]),
    {
        let set = Term::new_set_intension(single_term(predicate));
        proof {
            lemma_set_of_single(predicate);
        }
        Term::new_inheritance(subject, set)
    }

    /// An instance property `{S} --> [P]`.
    pub fn new_instance_property(subject: Term, predicate: Term) -> (t: Term)
        ensures
            t matches Term::Inheritance(s, p) && (*s matches Term::SetExtension(v) && v@ == seq![
                subject,
            ]) && (*p matches Term::SetIntension(w) && w@ == seq![predicate]),
    {
        proof {
            lemma_set_of_single(subject);
            lemma_set_of_single(predicate);
        }
        Term::new_inheritance(
            Term::new_set_extension(single_term(subject)),
            Term::new_set_intension(single_term(predicate)),
        )
    }

    /// A predictive implication `A =/> C`.
    pub fn new_implication_predictive(antecedent: Term, consequent: Term) -> (t: Term)
        ensures
            t == Term::ImplicationPredictive(Box::new(antecedent), Box::new(consequent)),
    {
        Term::ImplicationPredictive(new_term_ref_type(antecedent), new_term_ref_type(consequent))
    }

    /// A concurrent implication `A =|> C`.
    pub fn new_implication_concurrent(antecedent: Term, consequent: Term) -> (t: Term)
        ensures
            t == Term::ImplicationConcurrent(Box::new(antecedent), Box::new(consequent)),
    {
        Term::ImplicationConcurrent(new_term_ref_type(antecedent), new_term_ref_type(consequent))
    }

    /// A retrospective implication `A =\> C`.
    pub fn new_implication_retrospective(antecedent: Term, consequent: Term) -> (t: Term)
        ensures
            t == Term::ImplicationRetrospective(Box::new(antecedent), Box::new(consequent)),
    {
        Term::ImplicationRetrospective(
            new_term_ref_type(antecedent),
            new_term_ref_type(consequent),
        )
    }

    /// A predictive equivalence `A </> C`.
    pub fn new_equivalence_predictive(antecedent: Term, consequent: Term) -> (t: Term)
        ensures
            t == Term::EquivalencePredictive(Box::new(antecedent), Box::new(consequent)),
    {
        Term::EquivalencePredictive(new_term_ref_type(antecedent), new_term_ref_type(consequent))
    }

    /// A concurrent equivalence `A <|> C`.
    pub fn new_equivalence_concurrent(antecedent: Term, consequent: Term) -> (t: Term)
        ensures
            t == Term::EquivalenceConcurrent(Box::new(antecedent), Box::new(consequent)),
    {
        Term::EquivalenceConcurrent(new_term_ref_type(antecedent), new_term_ref_type(consequent))
    }

    /// A retrospective equivalence `A <\> C`, held as the predictive one `C </> A`.
    pub fn new_equivalence_retrospective(antecedent: Term, consequent: Term) -> (t: Term)
        ensures
            t == Term::EquivalencePredictive(Box::new(consequent), Box::new(antecedent)),
    {
        Term::new_equivalence_predictive(consequent, antecedent)
    }
}

/// A sequence of one term.
fn single_term(t: Term) -> (v: Vec<Term>)
    ensures
        v@ == seq![t],
{
    let mut v = Vec::new();
    v.push(t);
    v
}

/// A set built from one term holds that term.
pub proof fn lemma_set_of_single(t: Term)
    ensures
        set_of(seq![t]) == seq![t],
{
    let ts = seq![t];
    let e = Seq::<Term>::empty();
    assert(ts.drop_last() =~= e);
    assert(set_extend(e, e) == e);
    assert(ts.last() == t);
    assert(set_extend(e, ts) == set_insert(set_extend(e, ts.drop_last()), ts.last()));
    assert(!seq_contains(e, t));
    assert(e.push(t) =~= ts);
}

// Images //

/// No term of `s` before position `n` is the placeholder.
pub open spec fn no_placeholder_before(s: Seq<Term>, n: int) -> bool {
    forall|i: int| 0 <= i < n && i < s.len() ==> !(#[trigger] s[i] is Placeholder)
}

/// What [`Term::to_terms_with_image`] finds among `terms`: the position of the first
/// placeholder, if there is one.
pub open spec fn image_split(terms: Seq<Term>, index: Option<usize>) -> bool {
    match index {
        Some(p) => p < terms.len() && terms[p as int] is Placeholder && no_placeholder_before(
            terms,
            p as int,
        ),
        None => no_placeholder_before(terms, terms.len() as int),
    }
}

/// The terms other than the placeholder found at `index`, in order.
pub open spec fn image_rest(terms: Seq<Term>, index: Option<usize>) -> Seq<Term> {
    match index {
        Some(p) => terms.remove(p as int),
        None => terms,
    }
}

/// The terms of an image, read in order: the placeholder stands at its index among the
/// other components.
pub open spec fn image_terms(index: int, others: Seq<Term>) -> Seq<Term> {
    others.insert(index, Term::Placeholder)
}

impl Term {
    /// Moves the terms into `target`, all but the first placeholder, whose position among
    /// `terms` is returned; `None` when there is no placeholder.
    pub fn to_terms_with_image(terms: Vec<Term>, target: &mut Vec<Term>) -> (index: Option<usize>)
        ensures
            image_split(terms@, index),
            final(target)@ == old(target)@ + image_rest(terms@, index),
    {
        let ghost ts = terms@;
        let ghost t0 = target@;
        let mut placeholder_index: Option<usize> = None;
        let mut i: usize = 0;
        assert(ts.len() == terms.len());
        for term in it: terms.into_iter()
            invariant
                it.seq() == ts,
                i == it.index(),
                i <= ts.len() <= usize::MAX,
                image_split(ts.take(i as int), placeholder_index),
                target@ == t0 + image_rest(ts.take(i as int), placeholder_index),
        {
            assert(i < ts.len());
            let ghost before = ts.take(i as int);
            let ghost after = ts.take(i + 1);
            proof {
                assert(after =~= before.push(ts[i as int]));
            }
            let is_placeholder = matches!(term, Term::Placeholder);
            if is_placeholder && placeholder_index.is_none() {
                placeholder_index = Some(i);
                proof {
                    assert(after.remove(i as int) =~= before);
                }
            } else {
                target.push(term);
                proof {
                    match placeholder_index {
                        Some(p) => {
                            assert(after.remove(p as int) =~= before.remove(p as int).push(
                                ts[i as int],
                            ));
                        },
                        None => {},
                    }
                }
            }
            i += 1;
        }
        proof {
            assert(ts.take(ts.len() as int) =~= ts);
        }
        placeholder_index
    }

    /// The extensional image whose placeholder is the first one among `terms`; `None`
    /// when there is none.
    pub fn to_image_extension_with_placeholder(terms: Vec<Term>) -> (res: Option<Term>)
        ensures
            match res {
                Some(t) => t matches Term::ImageExtension(p, v) && image_split(terms@, Some(p))
                    && v@ == terms@.remove(p as int),
                None => image_split(terms@, None),
            },
    {
        let mut vec: Vec<Term> = Vec::new();
        let found = Term::to_terms_with_image(terms, &mut vec);
        match found {
            Some(placeholder_index) => {
                assert(vec@ =~= terms@.remove(placeholder_index as int));
                Some(Term::new_image_extension(placeholder_index, vec))
            },
            None => None,
        }
    }

    /// The intensional image whose placeholder is the first one among `terms`; `None`
    /// when there is none.
    pub fn to_image_intension_with_placeholder(terms: Vec<Term>) -> (res: Option<Term>)
        ensures
            match res {
                Some(t) => t matches Term::ImageIntension(p, v) && image_split(terms@, Some(p))
                    && v@ == terms@.remove(p as int),
                None => image_split(terms@, None),
            },
    {
        let mut vec: Vec<Term> = Vec::new();
        let found = Term::to_terms_with_image(terms, &mut vec);
        match found {
            Some(placeholder_index) => {
                assert(vec@ =~= terms@.remove(placeholder_index as int));
                Some(Term::new_image_intension(placeholder_index, vec))
            },
            None => None,
        }
    }
}

/// Reading an image back gives the terms it was built from: the placeholder returns to
/// the place where it was found.
pub proof fn law_image_round_trip(terms: Seq<Term>, p: usize)
    requires
        image_split(terms, Some(p)),
    ensures
        image_terms(p as int, image_rest(terms, Some(p))) == terms,
{
    assert(terms.remove(p as int).insert(p as int, Term::Placeholder) =~= terms);
}

// Kinds, names and components //

impl Term {
    /// The category of the term.
    pub fn get_category(&self) -> (c: TermCategory)
        ensures
            c == term_category(*self),
    {
        match self {
            Term::Word(..) | Term::Placeholder | Term::VariableIndependent(..)
            | Term::VariableDependent(..) | Term::VariableQuery(..) | Term::Interval(..)
            | Term::Operator(..) => TermCategory::Atom,
            Term::SetExtension(..) | Term::SetIntension(..) | Term::IntersectionExtension(..)
            | Term::IntersectionIntension(..) | Term::DifferenceExtension(..)
            | Term::DifferenceIntension(..) | Term::Product(..) | Term::ImageExtension(..)
            | Term::ImageIntension(..) | Term::Conjunction(..) | Term::Disjunction(..)
            | Term::Negation(..) | Term::ConjunctionSequential(..)
            | Term::ConjunctionParallel(..) => TermCategory::Compound,
            Term::Inheritance(..) | Term::Similarity(..) | Term::Implication(..)
            | Term::Equivalence(..) | Term::ImplicationPredictive(..)
            | Term::ImplicationConcurrent(..) | Term::ImplicationRetrospective(..)
            | Term::EquivalencePredictive(..) | Term::EquivalenceConcurrent(..) => {
                TermCategory::Statement
            },
        }
    }

    /// The capacity of the term.
    pub fn get_capacity(&self) -> (c: TermCapacity)
        ensures
            c == term_capacity(*self),
    {
        match self {
            Term::Word(..) | Term::Placeholder | Term::VariableIndependent(..)
            | Term::VariableDependent(..) | Term::VariableQuery(..) | Term::Interval(..)
            | Term::Operator(..) => TermCapacity::Atom,
            Term::Negation(..) => TermCapacity::Unary,
            Term::DifferenceExtension(..) | Term::DifferenceIntension(..) | Term::Inheritance(..)
            | Term::Implication(..) | Term::ImplicationPredictive(..)
            | Term::ImplicationConcurrent(..) | Term::ImplicationRetrospective(..)
            | Term::EquivalencePredictive(..) => TermCapacity::BinaryVec,
            Term::Similarity(..) | Term::Equivalence(..) | Term::EquivalenceConcurrent(..) => {
                TermCapacity::BinarySet
            },
            Term::Product(..) | Term::ImageExtension(..) | Term::ImageIntension(..)
            | Term::ConjunctionSequential(..) => TermCapacity::Vec,
            Term::SetExtension(..) | Term::SetIntension(..) | Term::IntersectionExtension(..)
            | Term::IntersectionIntension(..) | Term::Conjunction(..) | Term::Disjunction(..)
            | Term::ConjunctionParallel(..) => TermCapacity::SetMany,
        }
    }

    /// Whether the term is an atom.
    pub fn is_atom(&self) -> (b: bool)
        ensures
            b == (term_category(*self) == TermCategory::Atom),
    {
        self.get_category() == TermCategory::Atom
    }

    /// Whether the term is a compound term.
    pub fn is_compound(&self) -> (b: bool)
        ensures
            b == (term_category(*self) == TermCategory::Compound),
    {
        self.get_category() == TermCategory::Compound
    }

    /// Whether the term is a statement.
    pub fn is_statement(&self) -> (b: bool)
        ensures
            b == (term_category(*self) == TermCategory::Statement),
    {
        self.get_category() == TermCategory::Statement
    }

    /// The name of an atom (see [`atom_name`]).
    pub fn get_atom_name_unchecked(&self) -> (name: String)
        requires
            term_category(*self) == TermCategory::Atom,
        ensures
            name@ == atom_name(*self),
    {
        match self {
            Term::Word(name) => name.clone(),
            Term::VariableIndependent(name) => name.clone(),
            Term::VariableDependent(name) => name.clone(),
            Term::VariableQuery(name) => name.clone(),
            Term::Operator(name) => name.clone(),
            Term::Interval(interval) => usize_to_string(*interval),
            _ => String::new(),
        }
    }

    /// The name of the term if it is an atom (see [`atom_name`]), else `None`.
    pub fn get_atom_name(&self) -> (name: Option<String>)
        ensures
            match name {
                Some(n) => term_category(*self) == TermCategory::Atom && n@ == atom_name(*self),
                None => term_category(*self) != TermCategory::Atom,
            },
    {
        if self.is_atom() {
            Some(self.get_atom_name_unchecked())
        } else {
            None
        }
    }

    /// Gives an atom a new name. Named atoms take it as it is; the placeholder stays as it
    /// is; an interval takes the number that the name denotes, and fails if it denotes
    /// none; other terms fail.
    pub fn set_atom_name(&mut self, new_name: &str) -> (res: Result<(), TermError>)
        ensures
            is_named_atom(*old(self)) ==> res is Ok && renamed(*old(self), *final(self), new_name@),
            *old(self) is Placeholder ==> res is Ok && *final(self) == *old(self),
            *old(self) is Interval ==> match spec_parse_usize(new_name@) {
                Some(n) => res is Ok && *final(self) == Term::Interval(n),
                None => res == Err::<(), TermError>(TermError::InvalidInterval) && *final(self)
                    == *old(self),
            },
            term_category(*old(self)) != TermCategory::Atom ==> res == Err::<(), TermError>(
                TermError::NotAnAtom,
            ) && *final(self) == *old(self),
    {
        let mut old = Term::Placeholder;
        std::mem::swap(&mut old, self);
        match old {
            Term::Word(_) => {
                *self = Term::Word(new_name.to_string());
                Ok(())
            },
            Term::VariableIndependent(_) => {
                *self = Term::VariableIndependent(new_name.to_string());
                Ok(())
            },
            Term::VariableDependent(_) => {
                *self = Term::VariableDependent(new_name.to_string());
                Ok(())
            },
            Term::VariableQuery(_) => {
                *self = Term::VariableQuery(new_name.to_string());
                Ok(())
            },
            Term::Operator(_) => {
                *self = Term::Operator(new_name.to_string());
                Ok(())
            },
            Term::Placeholder => Ok(()),
            Term::Interval(interval) => {
                let chars = chars_of(new_name);
                match parse_usize(chars.as_slice()) {
                    Some(n) => {
                        *self = Term::Interval(n);
                        Ok(())
                    },
                    None => {
                        *self = Term::Interval(interval);
                        Err(TermError::InvalidInterval)
                    },
                }
            },
            other => {
                *self = other;
                Err(TermError::NotAnAtom)
            },
        }
    }

    /// The components of the term (see [`components`]).
    pub fn get_components(&self) -> (res: Vec<&Term>)
        ensures
            deref_all(res@) == components(*self),
    {
        let mut res: Vec<&Term> = Vec::new();
        match self {
            Term::SetExtension(v) | Term::SetIntension(v) | Term::IntersectionExtension(v)
            | Term::IntersectionIntension(v) | Term::Product(v) | Term::ImageExtension(_, v)
            | Term::ImageIntension(_, v) | Term::Conjunction(v) | Term::Disjunction(v)
            | Term::ConjunctionSequential(v) | Term::ConjunctionParallel(v) => {
                push_refs(&mut res, v);
            },
            Term::Negation(a) => {
                res.push(&**a);
            },
            Term::DifferenceExtension(a, b) | Term::DifferenceIntension(a, b)
            | Term::Inheritance(a, b) | Term::Similarity(a, b) | Term::Implication(a, b)
            | Term::Equivalence(a, b) | Term::ImplicationPredictive(a, b)
            | Term::ImplicationConcurrent(a, b) | Term::ImplicationRetrospective(a, b)
            | Term::EquivalencePredictive(a, b) | Term::EquivalenceConcurrent(a, b) => {
                res.push(&**a);
                res.push(&**b);
            },
            _ => {
                res.push(self);
            },
        }
        proof {
            assert(deref_all(res@) =~= components(*self));
        }
        res
    }

    /// The components of a compound term (see [`components`]); `None` for other terms.
    pub fn get_compound_components(&self) -> (res: Option<Vec<&Term>>)
        ensures
            match res {
                Some(v) => term_category(*self) == TermCategory::Compound && deref_all(v@)
                    == components(*self),
                None => term_category(*self) != TermCategory::Compound,
            },
    {
        if self.is_compound() {
            Some(self.get_components())
        } else {
            None
        }
    }
}

/// Appends references to the terms, in order.
fn push_refs<'a>(res: &mut Vec<&'a Term>, v: &'a Vec<Term>)
    ensures
        deref_all(final(res)@) == deref_all(old(res)@) + v@,
{
    let ghost r0 = res@;
    let mut i: usize = 0;
    while i < v.len()
        invariant
            i <= v.len(),
            deref_all(res@) == deref_all(r0) + v@.take(i as int),
        decreases v.len() - i,
    {
        let ghost prev = res@;
        res.push(&v[i]);
        proof {
            assert(deref_all(res@) =~= deref_all(prev).push(v@[i as int]));
            assert(v@.take(i + 1) =~= v@.take(i as int).push(v@[i as int]));
            assert(deref_all(res@) =~= deref_all(r0) + v@.take(i + 1));
        }
        i += 1;
    }
    proof {
        assert(v@.take(v.len() as int) =~= v@);
    }
}

// Adding components //

/// `new` is the compound `old` with the terms `ts` added: appended to ordered components,
/// inserted into unordered ones unless an equal term is there.
pub open spec fn pushed(old: Term, new: Term, ts: Seq<Term>) -> bool {
    match (old, new) {
        (Term::Product(v), Term::Product(w)) => w@ == v@ + ts,
        (Term::ImageExtension(i, v), Term::ImageExtension(j, w)) => i == j && w@ == v@ + ts,
        (Term::ImageIntension(i, v), Term::ImageIntension(j, w)) => i == j && w@ == v@ + ts,
        (Term::ConjunctionSequential(v), Term::ConjunctionSequential(w)) => w@ == v@ + ts,
        (Term::SetExtension(v), Term::SetExtension(w)) => w@ == set_extend(v@, ts),
        (Term::SetIntension(v), Term::SetIntension(w)) => w@ == set_extend(v@, ts),
        (Term::IntersectionExtension(v), Term::IntersectionExtension(w)) => w@ == set_extend(
            v@,
            ts,
        ),
        (Term::IntersectionIntension(v), Term::IntersectionIntension(w)) => w@ == set_extend(
            v@,
            ts,
        ),
        (Term::Conjunction(v), Term::Conjunction(w)) => w@ == set_extend(v@, ts),
        (Term::Disjunction(v), Term::Disjunction(w)) => w@ == set_extend(v@, ts),
        (Term::ConjunctionParallel(v), Term::ConjunctionParallel(w)) => w@ == set_extend(
            v@,
            ts,
        ),
        _ => false,
    }
}

/// Appends the terms, in order.
fn append_terms(vec: &mut Vec<Term>, terms: Vec<Term>)
    ensures
        final(vec)@ == old(vec)@ + terms@,
{
    let mut terms = terms;
    vec.append(&mut terms);
}

impl Term {
    /// Adds components to a compound of many components (see [`pushed`]); terms with a
    /// fixed number of components stay as they are and give an error.
    pub fn push_components(&mut self, terms: Vec<Term>) -> (res: Result<(), TermError>)
        ensures
            match term_capacity(*old(self)) {
                TermCapacity::Vec | TermCapacity::SetMany => res is Ok && pushed(
                    *old(self),
                    *final(self),
                    terms@,
                ),
                _ => res == Err::<(), TermError>(TermError::FixedCapacity) && *final(self) == *old(
                    self,
                ),
            },
    {
        let mut old = Term::Placeholder;
        std::mem::swap(&mut old, self);
        match old {
            Term::Product(mut v) => {
                append_terms(&mut v, terms);
                *self = Term::Product(v);
                Ok(())
            },
            Term::ImageExtension(i, mut v) => {
                append_terms(&mut v, terms);
                *self = Term::ImageExtension(i, v);
                Ok(())
            },
            Term::ImageIntension(i, mut v) => {
                append_terms(&mut v, terms);
                *self = Term::ImageIntension(i, v);
                Ok(())
            },
            Term::ConjunctionSequential(mut v) => {
                append_terms(&mut v, terms);
                *self = Term::ConjunctionSequential(v);
                Ok(())
            },
            Term::SetExtension(mut v) => {
                extend_set(&mut v, terms);
                *self = Term::SetExtension(v);
                Ok(())
            },
            Term::SetIntension(mut v) => {
                extend_set(&mut v, terms);
                *self = Term::SetIntension(v);
                Ok(())
            },
            Term::IntersectionExtension(mut v) => {
                extend_set(&mut v, terms);
                *self = Term::IntersectionExtension(v);
                Ok(())
            },
            Term::IntersectionIntension(mut v) => {
                extend_set(&mut v, terms);
                *self = Term::IntersectionIntension(v);
                Ok(())
            },
            Term::Conjunction(mut v) => {
                extend_set(&mut v, terms);
                *self = Term::Conjunction(v);
                Ok(())
            },
            Term::Disjunction(mut v) => {
                extend_set(&mut v, terms);
                *self = Term::Disjunction(v);
                Ok(())
            },
            Term::ConjunctionParallel(mut v) => {
                extend_set(&mut v, terms);
                *self = Term::ConjunctionParallel(v);
                Ok(())
            },
            other => {
                *self = other;
                Err(TermError::FixedCapacity)
            },
        }
    }
}

// Equality as an operator //

impl PartialEq for Term {
    fn eq(&self, other: &Self) -> (res: bool) {
        self.equals(other)
    }
}

impl Eq for Term {
}

impl vstd::std_specs::cmp::PartialEqSpecImpl for Term {
    open spec fn obeys_eq_spec() -> bool {
        true
    }

    open spec fn eq_spec(&self, other: &Term) -> bool {
        term_eq(*self, *other)
    }
}

/// The category of a term (see [`term_category`]).
impl GetCategory for Term {
    open spec fn spec_category(&self) -> TermCategory {
        term_category(*self)
    }

    fn get_category(&self) -> (c: TermCategory) {
        Term::get_category(self)
    }
}

/// The capacity of a term (see [`term_capacity`]).
impl GetCapacity for Term {
    open spec fn spec_capacity(&self) -> TermCapacity {
        term_capacity(*self)
    }

    fn get_capacity(&self) -> (c: TermCapacity) {
        Term::get_capacity(self)
    }
}

impl ExtractTerms for Term {
    type Term = Term;

    open spec fn extracted(&self) -> Seq<Term> {
        extracted_terms(*self)
    }

    /// The atom itself; the components of a compound, an image's placeholder put back at
    /// its index; the subject and predicate of a statement.
    fn extract_terms_to_vec(self) -> (terms: Vec<Term>) {
        let ghost t = self;
        match self {
            Term::ImageExtension(i, mut v) | Term::ImageIntension(i, mut v) => {
                if i <= v.len() {
                    v.insert(i, Term::Placeholder);
                }
                v
            },
            Term::SetExtension(v) | Term::SetIntension(v) | Term::IntersectionExtension(v)
            | Term::IntersectionIntension(v) | Term::Product(v) | Term::Conjunction(v)
            | Term::Disjunction(v) | Term::ConjunctionSequential(v) | Term::ConjunctionParallel(
                v,
            ) => v,
            Term::Negation(a) => vec![*a],
            Term::DifferenceExtension(a, b) | Term::DifferenceIntension(a, b)
            | Term::Inheritance(a, b) | Term::Similarity(a, b) | Term::Implication(a, b)
            | Term::Equivalence(a, b) | Term::ImplicationPredictive(a, b)
            | Term::ImplicationConcurrent(a, b) | Term::ImplicationRetrospective(a, b)
            | Term::EquivalencePredictive(a, b) | Term::EquivalenceConcurrent(a, b) => vec![*a, *b],
            atom => vec![atom],
        }
    }
}

impl GetTerm<Term> for Term {
    open spec fn term_of(&self) -> Term {
        *self
    }

    fn get_term(&self) -> (t: &Term) {
        self
    }
}

// Reading an image //

/// Reads the terms of an image in order: the placeholder at its index, the other
/// components around it.
pub struct ImageIterator<'a> {
    raw_components: &'a Vec<Term>,
    next_raw: usize,
    now_index: usize,
    placeholder_index: usize,
}

impl<'a> ImageIterator<'a> {
    /// The components still to come, the placeholder included where it is still ahead.
    pub closed spec fn remaining(&self) -> Seq<Term> {
        let rest = self.raw_components@.skip(self.next_raw as int);
        if self.now_index <= self.placeholder_index && self.placeholder_index - self.now_index
            <= rest.len() {
            rest.insert(self.placeholder_index - self.now_index, Term::Placeholder)
        } else {
            rest
        }
    }

    /// The iterator's state is consistent: it has read as many raw components as it has
    /// read terms, less the placeholder once it is past it.
    pub closed spec fn wf(&self) -> bool {
        &&& self.next_raw <= self.raw_components@.len() < usize::MAX
        &&& if self.now_index <= self.placeholder_index {
            self.next_raw == self.now_index
        } else {
            self.next_raw + 1 == self.now_index
        }
    }

    /// An iterator over the components `raw_components` of an image with its placeholder
    /// at `placeholder_index`.
    pub fn new(raw_components: &'a Vec<Term>, placeholder_index: usize) -> (it: Self)
        requires
            raw_components@.len() < usize::MAX,
        ensures
            it.wf(),
            it.remaining() == (if placeholder_index <= raw_components@.len() {
                image_terms(placeholder_index as int, raw_components@)
            } else {
                raw_components@
            }),
    {
        let it = ImageIterator { raw_components, next_raw: 0, now_index: 0, placeholder_index };
        proof {
            assert(raw_components@.skip(0) =~= raw_components@);
        }
        it
    }

    /// The next term: the placeholder at its index, else the next other component;
    /// `None` when no term is left.
    pub fn next(&mut self) -> (item: Option<&'a Term>)
        requires
            old(self).wf(),
        ensures
            final(self).wf(),
            match item {
                Some(t) => old(self).remaining().len() > 0 && *t == old(self).remaining()[0]
                    && final(self).remaining() == old(self).remaining().drop_first(),
                None => old(self).remaining().len() == 0 && *final(self) == *old(self),
            },
    {
        if self.now_index == self.placeholder_index && self.next_raw == self.now_index {
            self.now_index = self.now_index + 1;
            let ghost rest = self.raw_components@.skip(self.next_raw as int);
            proof {
                assert(rest.insert(0, Term::Placeholder).drop_first() =~= rest);
            }
            Some(&Term::Placeholder)
        } else {
            if self.next_raw < self.raw_components.len() {
                let t = &self.raw_components[self.next_raw];
                let ghost rest = self.raw_components@.skip(self.next_raw as int);
                self.next_raw = self.next_raw + 1;
                self.now_index = self.now_index + 1;
                proof {
                    let rest2 = self.raw_components@.skip(self.next_raw as int);
                    assert(rest.drop_first() =~= rest2);
                    if self.now_index <= self.placeholder_index && self.placeholder_index
                        - self.now_index + 1 <= rest.len() {
                        let k = self.placeholder_index - self.now_index;
                        assert(rest.insert(k + 1, Term::Placeholder).drop_first() =~= rest2.insert(
                            k,
                            Term::Placeholder,
                        ));
                    }
                }
                Some(t)
            } else {
                None
            }
        }
    }

    /// All the terms still to come, in order.
    pub fn collect_terms(self) -> (res: Vec<&'a Term>)
        requires
            self.wf(),
        ensures
            deref_all(res@) == self.remaining(),
    {
        let mut it = self;
        let ghost all = self.remaining();
        let mut res: Vec<&'a Term> = Vec::new();
        loop
            invariant
                it.wf(),
                all == self.remaining(),
                deref_all(res@) + it.remaining() == all,
            decreases it.remaining().len(),
        {
            let ghost before = it.remaining();
            let ghost r0 = res@;
            match it.next() {
                Some(t) => {
                    res.push(t);
                    proof {
                        assert(deref_all(res@) =~= deref_all(r0).push(before[0]));
                        assert(deref_all(res@) + it.remaining() =~= deref_all(r0) + before);
                    }
                },
                None => {
                    proof {
                        assert(deref_all(res@) =~= all);
                    }
                    return res;
                },
            }
        }
    }
}

// Laws //

/// Every term equals itself.
pub proof fn law_eq_reflexive(t: Term)
    ensures
        term_eq(t, t),
    decreases t,
{
    match t {
        Term::SetExtension(v) => lemma_set_eq_reflexive(v@),
        Term::SetIntension(v) => lemma_set_eq_reflexive(v@),
        Term::IntersectionExtension(v) => lemma_set_eq_reflexive(v@),
        Term::IntersectionIntension(v) => lemma_set_eq_reflexive(v@),
        Term::Conjunction(v) => lemma_set_eq_reflexive(v@),
        Term::Disjunction(v) => lemma_set_eq_reflexive(v@),
        Term::ConjunctionParallel(v) => lemma_set_eq_reflexive(v@),
        Term::Product(v) => lemma_seq_eq_reflexive(v@),
        Term::ImageExtension(_, v) => lemma_seq_eq_reflexive(v@),
        Term::ImageIntension(_, v) => lemma_seq_eq_reflexive(v@),
        Term::ConjunctionSequential(v) => lemma_seq_eq_reflexive(v@),
        Term::Negation(a) => law_eq_reflexive(*a),
        Term::DifferenceExtension(a, b) | Term::DifferenceIntension(a, b)
        | Term::Inheritance(a, b) | Term::Similarity(a, b) | Term::Implication(a, b)
        | Term::Equivalence(a, b) | Term::ImplicationPredictive(a, b)
        | Term::ImplicationConcurrent(a, b) | Term::ImplicationRetrospective(a, b)
        | Term::EquivalencePredictive(a, b) | Term::EquivalenceConcurrent(a, b) => {
            law_eq_reflexive(*a);
            law_eq_reflexive(*b);
        },
        _ => {},
    }
}

/// Ordered components equal themselves.
proof fn lemma_seq_eq_reflexive(s: Seq<Term>)
    ensures
        seq_eq(s, s),
    decreases s, 0nat,
{
    assert forall|i: int| #![trigger s[i]] 0 <= i < s.len() implies term_eq(s[i], s[i]) by {
        law_eq_reflexive(s[i]);
    }
}

/// Unordered components equal themselves.
proof fn lemma_set_eq_reflexive(s: Seq<Term>)
    ensures
        set_eq(s, s),
    decreases s, 0nat,
{
    assert forall|i: int| #![trigger s[i]] 0 <= i < s.len() implies seq_contains(s, s[i]) by {
        law_eq_reflexive(s[i]);
    }
}

/// A copy of a term (what `clone` gives) equals the term.
pub proof fn law_copy_equal(a: Term, b: Term)
    requires
        copied(a, b),
    ensures
        term_eq(a, b),
    decreases a,
{
    match (a, b) {
        (Term::SetExtension(x), Term::SetExtension(y)) => lemma_copied_set_eq(x@, y@),
        (Term::SetIntension(x), Term::SetIntension(y)) => lemma_copied_set_eq(x@, y@),
        (Term::IntersectionExtension(x), Term::IntersectionExtension(y)) => lemma_copied_set_eq(x@, y@),
        (Term::IntersectionIntension(x), Term::IntersectionIntension(y)) => lemma_copied_set_eq(x@, y@),
        (Term::Conjunction(x), Term::Conjunction(y)) => lemma_copied_set_eq(x@, y@),
        (Term::Disjunction(x), Term::Disjunction(y)) => lemma_copied_set_eq(x@, y@),
        (Term::ConjunctionParallel(x), Term::ConjunctionParallel(y)) => lemma_copied_set_eq(x@, y@),
        (Term::Product(x), Term::Product(y)) => lemma_copied_seq_eq(x@, y@),
        (Term::ImageExtension(_, x), Term::ImageExtension(_, y)) => lemma_copied_seq_eq(x@, y@),
        (Term::ImageIntension(_, x), Term::ImageIntension(_, y)) => lemma_copied_seq_eq(x@, y@),
        (Term::ConjunctionSequential(x), Term::ConjunctionSequential(y)) => lemma_copied_seq_eq(x@, y@),
        (Term::Negation(x), Term::Negation(y)) => law_copy_equal(*x, *y),
        (Term::DifferenceExtension(x1, x2), Term::DifferenceExtension(y1, y2))
        | (Term::DifferenceIntension(x1, x2), Term::DifferenceIntension(y1, y2))
        | (Term::Inheritance(x1, x2), Term::Inheritance(y1, y2))
        | (Term::Similarity(x1, x2), Term::Similarity(y1, y2))
        | (Term::Implication(x1, x2), Term::Implication(y1, y2))
        | (Term::Equivalence(x1, x2), Term::Equivalence(y1, y2))
        | (Term::ImplicationPredictive(x1, x2), Term::ImplicationPredictive(y1, y2))
        | (Term::ImplicationConcurrent(x1, x2), Term::ImplicationConcurrent(y1, y2))
        | (Term::ImplicationRetrospective(x1, x2), Term::ImplicationRetrospective(y1, y2))
        | (Term::EquivalencePredictive(x1, x2), Term::EquivalencePredictive(y1, y2))
        | (Term::EquivalenceConcurrent(x1, x2), Term::EquivalenceConcurrent(y1, y2)) => {
            law_copy_equal(*x1, *y1);
            law_copy_equal(*x2, *y2);
        },
        _ => {},
    }
}

/// Copies of ordered components equal them.
proof fn lemma_copied_seq_eq(xs: Seq<Term>, ys: Seq<Term>)
    requires
        copied_all(xs, ys),
    ensures
        seq_eq(xs, ys),
    decreases xs, 0nat,
{
    assert forall|i: int| #![trigger xs[i]] 0 <= i < xs.len() implies term_eq(xs[i], ys[i]) by {
        law_copy_equal(xs[i], ys[i]);
    }
}

/// Copies of unordered components equal them.
proof fn lemma_copied_set_eq(xs: Seq<Term>, ys: Seq<Term>)
    requires
        copied_all(xs, ys),
    ensures
        set_eq(xs, ys),
    decreases xs, 0nat,
{
    assert forall|i: int| #![trigger xs[i]] 0 <= i < xs.len() implies seq_contains(ys, xs[i]) by {
        law_copy_equal(xs[i], ys[i]);
    }
}

/// Similarity, equivalence and concurrent equivalence are symmetric: with subject and
/// predicate swapped they are equal to what they were.
pub proof fn law_symmetric_statements(a: Term, b: Term)
    ensures
        term_eq(
            Term::Similarity(Box::new(a), Box::new(b)),
            Term::Similarity(Box::new(b), Box::new(a)),
        ),
        term_eq(
            Term::Equivalence(Box::new(a), Box::new(b)),
            Term::Equivalence(Box::new(b), Box::new(a)),
        ),
        term_eq(
            Term::EquivalenceConcurrent(Box::new(a), Box::new(b)),
            Term::EquivalenceConcurrent(Box::new(b), Box::new(a)),
        ),
{
    law_eq_reflexive(a);
    law_eq_reflexive(b);
}

/// Category and capacity agree: exactly the atoms have the atomic capacity, statements
/// have two components, and every term is an atom, a compound or a statement.
pub proof fn law_category_capacity(t: Term)
    ensures
        (term_category(t) == TermCategory::Atom) == (term_capacity(t) == TermCapacity::Atom),
        term_category(t) == TermCategory::Statement ==> (term_capacity(t)
            == TermCapacity::BinaryVec || term_capacity(t) == TermCapacity::BinarySet),
        term_category(t) == TermCategory::Atom || term_category(t) == TermCategory::Compound
            || term_category(t) == TermCategory::Statement,
        term_capacity(t) == TermCapacity::Atom ==> components(t) == seq![t],
{
}

/// After an atom is renamed, its name is the new name.
pub proof fn law_rename_then_read(old: Term, new: Term, name: Seq<char>)
    requires
        renamed(old, new, name),
    ensures
        term_category(new) == TermCategory::Atom,
        atom_name(new) == name,
{
}

/// A set built from terms holds each of them that equals itself, and nothing but them.
pub proof fn law_set_of_members(ts: Seq<Term>)
    ensures
        forall|i: int|
            0 <= i < ts.len() && term_eq(ts[i], ts[i]) ==> seq_contains(
                set_of(ts),
                #[trigger] ts[i],
            ),
        forall|j: int|
            0 <= j < set_of(ts).len() ==> exists|i: int|
                0 <= i < ts.len() && #[trigger] set_of(ts)[j] == ts[i],
{
    lemma_set_extend_members(Seq::empty(), ts);
}

/// Extending a set keeps what it held, adds each new term unless an equal one is there,
/// and adds nothing else.
pub proof fn lemma_set_extend_members(s: Seq<Term>, ts: Seq<Term>)
    ensures
        s.len() <= set_extend(s, ts).len(),
        forall|j: int| 0 <= j < s.len() ==> set_extend(s, ts)[j] == s[j],
        forall|i: int|
            0 <= i < ts.len() && term_eq(ts[i], ts[i]) ==> seq_contains(
                set_extend(s, ts),
                #[trigger] ts[i],
            ),
        forall|j: int|
            s.len() <= j < set_extend(s, ts).len() ==> exists|i: int|
                0 <= i < ts.len() && #[trigger] set_extend(s, ts)[j] == ts[i],
    decreases ts.len(),
{
    if ts.len() > 0 {
        let prev = set_extend(s, ts.drop_last());
        lemma_set_extend_members(s, ts.drop_last());
        let t = ts.last();
        let r = set_insert(prev, t);
        assert(r == set_extend(s, ts));
        assert forall|i: int| 0 <= i < ts.len() && term_eq(ts[i], ts[i]) implies seq_contains(
            r,
            #[trigger] ts[i],
        ) by {
            if i < ts.len() - 1 {
                assert(ts[i] == ts.drop_last()[i]);
                assert(seq_contains(prev, ts[i]));
                let k = choose|k: int| 0 <= k < prev.len() && term_eq(ts[i], prev[k]);
                assert(r[k] == prev[k]);
            } else if !seq_contains(prev, t) {
                assert(r[prev.len() as int] == t);
            }
        }
        assert forall|j: int| s.len() <= j < r.len() implies exists|i: int|
            0 <= i < ts.len() && #[trigger] r[j] == ts[i] by {
            if j < prev.len() {
                let i = choose|i: int| 0 <= i < ts.drop_last().len() && prev[j] == ts.drop_last()[i];
                assert(r[j] == ts[i]);
            } else {
                assert(r[j] == ts[ts.len() - 1]);
            }
        }
    }
}


// Symmetry and transitivity of equality //

/// Every set-like compound inside the term (sets, intersections, conjunctions and
/// disjunctions but the sequential one), at any depth, holds no two equal components, as
/// the constructors build them.
pub open spec fn sets_distinct(t: Term) -> bool
    decreases t, 1nat,
{
    match t {
        Term::SetExtension(v) => no_duplicates(v@) && all_sets_distinct(v@),
        Term::SetIntension(v) => no_duplicates(v@) && all_sets_distinct(v@),
        Term::IntersectionExtension(v) => no_duplicates(v@) && all_sets_distinct(v@),
        Term::IntersectionIntension(v) => no_duplicates(v@) && all_sets_distinct(v@),
        Term::Conjunction(v) => no_duplicates(v@) && all_sets_distinct(v@),
        Term::Disjunction(v) => no_duplicates(v@) && all_sets_distinct(v@),
        Term::ConjunctionParallel(v) => no_duplicates(v@) && all_sets_distinct(v@),
        Term::Product(v) => all_sets_distinct(v@),
        Term::ConjunctionSequential(v) => all_sets_distinct(v@),
        Term::ImageExtension(_, v) => all_sets_distinct(v@),
        Term::ImageIntension(_, v) => all_sets_distinct(v@),
        Term::Negation(a) => sets_distinct(*a),
        Term::DifferenceExtension(a, b) => sets_distinct(*a) && sets_distinct(*b),
        Term::DifferenceIntension(a, b) => sets_distinct(*a) && sets_distinct(*b),
        Term::Inheritance(a, b) => sets_distinct(*a) && sets_distinct(*b),
        Term::Implication(a, b) => sets_distinct(*a) && sets_distinct(*b),
        Term::Similarity(a, b) => sets_distinct(*a) && sets_distinct(*b),
        Term::Equivalence(a, b) => sets_distinct(*a) && sets_distinct(*b),
        Term::ImplicationPredictive(a, b) => sets_distinct(*a) && sets_distinct(*b),
        Term::ImplicationConcurrent(a, b) => sets_distinct(*a) && sets_distinct(*b),
        Term::ImplicationRetrospective(a, b) => sets_distinct(*a) && sets_distinct(*b),
        Term::EquivalencePredictive(a, b) => sets_distinct(*a) && sets_distinct(*b),
        Term::EquivalenceConcurrent(a, b) => sets_distinct(*a) && sets_distinct(*b),
        _ => true,
    }
}

/// Each term of the sequence has distinct sets (see [`sets_distinct`]).
pub open spec fn all_sets_distinct(s: Seq<Term>) -> bool
    decreases s, 0nat,
{
    forall|i: int| #![trigger s[i]] 0 <= i < s.len() ==> sets_distinct(s[i])
}

/// Some number of `0..n` is taken to `j`.
spec fn reaches(n: int, f: spec_fn(int) -> int, j: int) -> bool {
    exists|i: int| 0 <= i < n && #[trigger] f(i) == j
}

/// A map of `0..n` into itself that takes no two numbers to one reaches every number.
proof fn lemma_pigeonhole(n: int, f: spec_fn(int) -> int)
    requires
        0 <= n,
        forall|i: int| 0 <= i < n ==> 0 <= #[trigger] f(i) < n,
        forall|i: int, k: int| 0 <= i < n && 0 <= k < n && #[trigger] f(i) == #[trigger] f(k) ==> i == k,
    ensures
        forall|j: int| 0 <= j < n ==> #[trigger] reaches(n, f, j),
{
    let range = vstd::set_lib::set_int_range(0, n);
    vstd::set_lib::lemma_int_range(0, n);
    let image = range.map(f);
    assert(vstd::relations::injective_on(f, range));
    vstd::set_lib::lemma_map_size(range, image, f);
    assert(image.subset_of(range));
    vstd::set_lib::lemma_subset_equality(image, range);
    assert forall|j: int| 0 <= j < n implies #[trigger] reaches(n, f, j) by {
        assert(range.contains(j));
        assert(image.contains(j));
    }
}

/// Equality of terms with distinct sets is symmetric.
proof fn lemma_eq_sym(a: Term, b: Term)
    requires
        sets_distinct(a),
        sets_distinct(b),
    ensures
        term_eq(a, b) ==> term_eq(b, a),
    decreases a, 2nat,
{
    match (a, b) {
        (Term::SetExtension(x), Term::SetExtension(y))
        | (Term::SetIntension(x), Term::SetIntension(y))
        | (Term::IntersectionExtension(x), Term::IntersectionExtension(y))
        | (Term::IntersectionIntension(x), Term::IntersectionIntension(y))
        | (Term::Conjunction(x), Term::Conjunction(y))
        | (Term::Disjunction(x), Term::Disjunction(y))
        | (Term::ConjunctionParallel(x), Term::ConjunctionParallel(y)) => lemma_set_eq_sym(x@, y@),
        (Term::Product(x), Term::Product(y))
        | (Term::ConjunctionSequential(x), Term::ConjunctionSequential(y))
        | (Term::ImageExtension(_, x), Term::ImageExtension(_, y))
        | (Term::ImageIntension(_, x), Term::ImageIntension(_, y)) => lemma_seq_eq_sym(x@, y@),
        (Term::Negation(x), Term::Negation(y)) => lemma_eq_sym(*x, *y),
        (Term::DifferenceExtension(x1, x2), Term::DifferenceExtension(y1, y2))
        | (Term::DifferenceIntension(x1, x2), Term::DifferenceIntension(y1, y2))
        | (Term::Inheritance(x1, x2), Term::Inheritance(y1, y2))
        | (Term::Implication(x1, x2), Term::Implication(y1, y2))
        | (Term::Similarity(x1, x2), Term::Similarity(y1, y2))
        | (Term::Equivalence(x1, x2), Term::Equivalence(y1, y2))
        | (Term::ImplicationPredictive(x1, x2), Term::ImplicationPredictive(y1, y2))
        | (Term::ImplicationConcurrent(x1, x2), Term::ImplicationConcurrent(y1, y2))
        | (Term::ImplicationRetrospective(x1, x2), Term::ImplicationRetrospective(y1, y2))
        | (Term::EquivalencePredictive(x1, x2), Term::EquivalencePredictive(y1, y2))
        | (Term::EquivalenceConcurrent(x1, x2), Term::EquivalenceConcurrent(y1, y2)) => {
            lemma_eq_sym(*x1, *y1);
            lemma_eq_sym(*x2, *y2);
            lemma_eq_sym(*x1, *y2);
            lemma_eq_sym(*x2, *y1);
        },
        _ => {},
    }
}

/// Equality of terms with distinct sets is transitive, `a` standing first, in the middle
/// or last.
proof fn lemma_eq_trans(a: Term, b: Term, c: Term)
    requires
        sets_distinct(a),
        sets_distinct(b),
        sets_distinct(c),
    ensures
        term_eq(a, b) && term_eq(b, c) ==> term_eq(a, c),
        term_eq(b, a) && term_eq(a, c) ==> term_eq(b, c),
        term_eq(b, c) && term_eq(c, a) ==> term_eq(b, a),
    decreases a, 2nat,
{
    match (a, b, c) {
        (Term::SetExtension(x), Term::SetExtension(y), Term::SetExtension(z))
        | (Term::SetIntension(x), Term::SetIntension(y), Term::SetIntension(z))
        | (Term::IntersectionExtension(x), Term::IntersectionExtension(y), Term::IntersectionExtension(z))
        | (Term::IntersectionIntension(x), Term::IntersectionIntension(y), Term::IntersectionIntension(z))
        | (Term::Conjunction(x), Term::Conjunction(y), Term::Conjunction(z))
        | (Term::Disjunction(x), Term::Disjunction(y), Term::Disjunction(z))
        | (Term::ConjunctionParallel(x), Term::ConjunctionParallel(y), Term::ConjunctionParallel(z)) => lemma_set_eq_trans(x@, y@, z@),
        (Term::Product(x), Term::Product(y), Term::Product(z))
        | (Term::ConjunctionSequential(x), Term::ConjunctionSequential(y), Term::ConjunctionSequential(z))
        | (Term::ImageExtension(_, x), Term::ImageExtension(_, y), Term::ImageExtension(_, z))
        | (Term::ImageIntension(_, x), Term::ImageIntension(_, y), Term::ImageIntension(_, z)) => {
            lemma_seq_eq_trans(x@, y@, z@)
        },
        (Term::Negation(x), Term::Negation(y), Term::Negation(z)) => lemma_eq_trans(*x, *y, *z),
        (Term::DifferenceExtension(x1, x2), Term::DifferenceExtension(y1, y2), Term::DifferenceExtension(z1, z2))
        | (Term::DifferenceIntension(x1, x2), Term::DifferenceIntension(y1, y2), Term::DifferenceIntension(z1, z2))
        | (Term::Inheritance(x1, x2), Term::Inheritance(y1, y2), Term::Inheritance(z1, z2))
        | (Term::Implication(x1, x2), Term::Implication(y1, y2), Term::Implication(z1, z2))
        | (Term::ImplicationPredictive(x1, x2), Term::ImplicationPredictive(y1, y2), Term::ImplicationPredictive(z1, z2))
        | (Term::ImplicationConcurrent(x1, x2), Term::ImplicationConcurrent(y1, y2), Term::ImplicationConcurrent(z1, z2))
        | (Term::ImplicationRetrospective(x1, x2), Term::ImplicationRetrospective(y1, y2), Term::ImplicationRetrospective(z1, z2))
        | (Term::EquivalencePredictive(x1, x2), Term::EquivalencePredictive(y1, y2), Term::EquivalencePredictive(z1, z2)) => {
            lemma_eq_trans(*x1, *y1, *z1);
            lemma_eq_trans(*x2, *y2, *z2);
        },
        (Term::Similarity(x1, x2), Term::Similarity(y1, y2), Term::Similarity(z1, z2))
        | (Term::Equivalence(x1, x2), Term::Equivalence(y1, y2), Term::Equivalence(z1, z2))
        | (Term::EquivalenceConcurrent(x1, x2), Term::EquivalenceConcurrent(y1, y2), Term::EquivalenceConcurrent(z1, z2)) => {
            lemma_eq_trans(*x1, *y1, *z1);
            lemma_eq_trans(*x1, *y1, *z2);
            lemma_eq_trans(*x1, *y2, *z1);
            lemma_eq_trans(*x1, *y2, *z2);
            lemma_eq_trans(*x2, *y1, *z1);
            lemma_eq_trans(*x2, *y1, *z2);
            lemma_eq_trans(*x2, *y2, *z1);
            lemma_eq_trans(*x2, *y2, *z2);
        },
        _ => {},
    }
}

/// Ordered components with distinct sets: their equality is symmetric.
proof fn lemma_seq_eq_sym(xs: Seq<Term>, ys: Seq<Term>)
    requires
        all_sets_distinct(xs),
        all_sets_distinct(ys),
    ensures
        seq_eq(xs, ys) ==> seq_eq(ys, xs),
    decreases xs, 0nat,
{
    if seq_eq(xs, ys) {
        assert forall|i: int| #![trigger ys[i]] 0 <= i < ys.len() implies term_eq(ys[i], xs[i]) by {
            lemma_eq_sym(xs[i], ys[i]);
        }
    }
}

/// Ordered components with distinct sets: their equality is transitive.
proof fn lemma_seq_eq_trans(xs: Seq<Term>, ys: Seq<Term>, zs: Seq<Term>)
    requires
        all_sets_distinct(xs),
        all_sets_distinct(ys),
        all_sets_distinct(zs),
    ensures
        seq_eq(xs, ys) && seq_eq(ys, zs) ==> seq_eq(xs, zs),
        seq_eq(ys, xs) && seq_eq(xs, zs) ==> seq_eq(ys, zs),
        seq_eq(ys, zs) && seq_eq(zs, xs) ==> seq_eq(ys, xs),
    decreases xs, 0nat,
{
    assert forall|i: int| 0 <= i < xs.len() && i < ys.len() && i < zs.len() implies {
        &&& term_eq(#[trigger] xs[i], ys[i]) && term_eq(ys[i], zs[i]) ==> term_eq(xs[i], zs[i])
        &&& term_eq(ys[i], xs[i]) && term_eq(xs[i], zs[i]) ==> term_eq(ys[i], zs[i])
        &&& term_eq(ys[i], zs[i]) && term_eq(zs[i], xs[i]) ==> term_eq(ys[i], xs[i])
    } by {
        lemma_eq_trans(xs[i], ys[i], zs[i]);
    }
}

/// Unordered components with distinct sets: their equality is symmetric (each term of
/// the second has its equal in the first, by counting).
proof fn lemma_set_eq_sym(xs: Seq<Term>, ys: Seq<Term>)
    requires
        no_duplicates(xs),
        all_sets_distinct(xs),
        all_sets_distinct(ys),
    ensures
        set_eq(xs, ys) ==> set_eq(ys, xs),
    decreases xs, 0nat,
{
    if set_eq(xs, ys) {
        let n = xs.len() as int;
        let f = |i: int| choose|j: int| 0 <= j < ys.len() && term_eq(xs[i], #[trigger] ys[j]);
        assert forall|i: int| 0 <= i < n implies 0 <= #[trigger] f(i) < n && term_eq(xs[i], ys[f(i)]) by {
            assert(seq_contains(ys, xs[i]));
        }
        assert forall|i: int, k: int| 0 <= i < n && 0 <= k < n && #[trigger] f(i) == #[trigger] f(k) implies i == k by {
            if i != k {
                let j = f(i);
                assert(term_eq(xs[i], ys[j]));
                assert(term_eq(xs[k], ys[j]));
                lemma_eq_sym(xs[k], ys[j]);
                lemma_eq_trans(xs[i], ys[j], xs[k]);
                lemma_eq_sym(xs[i], xs[k]);
                if i < k {
                    assert(!term_eq(xs[k], xs[i]));
                } else {
                    assert(!term_eq(xs[i], xs[k]));
                }
            }
        }
        lemma_pigeonhole(n, f);
        assert forall|j: int| #![trigger ys[j]] 0 <= j < ys.len() implies seq_contains(xs, ys[j]) by {
            assert(reaches(n, f, j));
            let i = choose|i: int| 0 <= i < n && #[trigger] f(i) == j;
            assert(term_eq(xs[i], ys[j]));
            lemma_eq_sym(xs[i], ys[j]);
            assert(term_eq(ys[j], xs[i]));
        }
    }
}

/// Unordered components with distinct sets: their equality is transitive.
proof fn lemma_set_eq_trans(xs: Seq<Term>, ys: Seq<Term>, zs: Seq<Term>)
    requires
        all_sets_distinct(xs),
        all_sets_distinct(ys),
        all_sets_distinct(zs),
    ensures
        set_eq(xs, ys) && set_eq(ys, zs) ==> set_eq(xs, zs),
        set_eq(ys, xs) && set_eq(xs, zs) ==> set_eq(ys, zs),
        set_eq(ys, zs) && set_eq(zs, xs) ==> set_eq(ys, xs),
    decreases xs, 1nat,
{
    lemma_set_eq_trans_first(xs, ys, zs);
    lemma_set_eq_trans_middle(xs, ys, zs);
    lemma_set_eq_trans_last(xs, ys, zs);
}

/// Transitivity of unordered equality, `xs` first.
proof fn lemma_set_eq_trans_first(xs: Seq<Term>, ys: Seq<Term>, zs: Seq<Term>)
    requires
        all_sets_distinct(xs),
        all_sets_distinct(ys),
        all_sets_distinct(zs),
    ensures
        set_eq(xs, ys) && set_eq(ys, zs) ==> set_eq(xs, zs),
    decreases xs, 0nat,
{
    if set_eq(xs, ys) && set_eq(ys, zs) {
        assert forall|i: int| #![trigger xs[i]] 0 <= i < xs.len() implies seq_contains(zs, xs[i]) by {
            assert(seq_contains(ys, xs[i]));
            let j = choose|j: int| 0 <= j < ys.len() && term_eq(xs[i], #[trigger] ys[j]);
            assert(seq_contains(zs, ys[j]));
            let k = choose|k: int| 0 <= k < zs.len() && term_eq(ys[j], #[trigger] zs[k]);
            lemma_eq_trans(xs[i], ys[j], zs[k]);
            assert(term_eq(xs[i], zs[k]));
        }
    }
}

/// Transitivity of unordered equality, `xs` in the middle.
proof fn lemma_set_eq_trans_middle(xs: Seq<Term>, ys: Seq<Term>, zs: Seq<Term>)
    requires
        all_sets_distinct(xs),
        all_sets_distinct(ys),
        all_sets_distinct(zs),
    ensures
        set_eq(ys, xs) && set_eq(xs, zs) ==> set_eq(ys, zs),
    decreases xs, 0nat,
{
    if set_eq(ys, xs) && set_eq(xs, zs) {
        assert forall|j: int| #![trigger ys[j]] 0 <= j < ys.len() implies seq_contains(zs, ys[j]) by {
            assert(seq_contains(xs, ys[j]));
            let i = choose|i: int| 0 <= i < xs.len() && term_eq(ys[j], #[trigger] xs[i]);
            assert(seq_contains(zs, xs[i]));
            let k = choose|k: int| 0 <= k < zs.len() && term_eq(xs[i], #[trigger] zs[k]);
            lemma_eq_trans(xs[i], ys[j], zs[k]);
            assert(term_eq(ys[j], zs[k]));
        }
    }
}

/// Transitivity of unordered equality, `xs` last.
proof fn lemma_set_eq_trans_last(xs: Seq<Term>, ys: Seq<Term>, zs: Seq<Term>)
    requires
        all_sets_distinct(xs),
        all_sets_distinct(ys),
        all_sets_distinct(zs),
    ensures
        set_eq(ys, zs) && set_eq(zs, xs) ==> set_eq(ys, xs),
    decreases xs, 0nat,
{
    if set_eq(ys, zs) && set_eq(zs, xs) {
        assert forall|j: int| #![trigger ys[j]] 0 <= j < ys.len() implies seq_contains(xs, ys[j]) by {
            assert(seq_contains(zs, ys[j]));
            let k = choose|k: int| 0 <= k < zs.len() && term_eq(ys[j], #[trigger] zs[k]);
            assert(seq_contains(xs, zs[k]));
            let i = choose|i: int| 0 <= i < xs.len() && term_eq(zs[k], #[trigger] xs[i]);
            lemma_eq_trans(xs[i], ys[j], zs[k]);
            assert(term_eq(ys[j], xs[i]));
        }
    }
}

/// The set that the constructors build of terms with distinct sets has distinct sets
/// itself: so do all terms built by the constructors from atoms.
pub proof fn law_set_of_sets_distinct(ts: Seq<Term>)
    requires
        all_sets_distinct(ts),
    ensures
        no_duplicates(set_of(ts)),
        all_sets_distinct(set_of(ts)),
{
    lemma_set_extend_no_duplicates(Seq::empty(), ts);
    law_set_of_members(ts);
    assert forall|j: int| #![trigger set_of(ts)[j]] 0 <= j < set_of(ts).len() implies sets_distinct(
        set_of(ts)[j],
    ) by {
        let i = choose|i: int| 0 <= i < ts.len() && #[trigger] set_of(ts)[j] == ts[i];
        assert(sets_distinct(ts[i]));
    }
}

/// Equality is symmetric on terms whose sets hold no two equal components (see
/// [`sets_distinct`]).
pub proof fn law_eq_symmetric(a: Term, b: Term)
    requires
        sets_distinct(a),
        sets_distinct(b),
    ensures
        term_eq(a, b) ==> term_eq(b, a),
{
    lemma_eq_sym(a, b);
}

/// Equality is transitive on terms whose sets hold no two equal components (see
/// [`sets_distinct`]).
pub proof fn law_eq_transitive(a: Term, b: Term, c: Term)
    requires
        sets_distinct(a),
        sets_distinct(b),
        sets_distinct(c),
    ensures
        term_eq(a, b) && term_eq(b, c) ==> term_eq(a, c),
{
    lemma_eq_trans(a, b, c);
}


// Copies and sets //

/// A copy of a term with distinct sets has distinct sets.
proof fn lemma_copy_sets_distinct(a: Term, b: Term)
    requires
        sets_distinct(a),
        copied(a, b),
    ensures
        sets_distinct(b),
    decreases a,
{
    match (a, b) {
        (Term::SetExtension(x), Term::SetExtension(y))
        | (Term::SetIntension(x), Term::SetIntension(y))
        | (Term::IntersectionExtension(x), Term::IntersectionExtension(y))
        | (Term::IntersectionIntension(x), Term::IntersectionIntension(y))
        | (Term::Conjunction(x), Term::Conjunction(y))
        | (Term::Disjunction(x), Term::Disjunction(y))
        | (Term::ConjunctionParallel(x), Term::ConjunctionParallel(y)) => {
            assert(copied_all(x@, y@));
            assert(no_duplicates(x@) && all_sets_distinct(x@));
            lemma_copied_all_sets_distinct(x@, y@);
            assert forall|i: int, j: int| #![trigger y@[i], y@[j]] 0 <= i < j < y@.len() implies !term_eq(
                y@[j],
                y@[i],
            ) by {
                assert(copied(x@[i], y@[i]));
                assert(copied(x@[j], y@[j]));
                assert(sets_distinct(x@[i]) && sets_distinct(x@[j]));
                assert(sets_distinct(y@[i]) && sets_distinct(y@[j]));
                law_copy_equal(x@[i], y@[i]);
                law_copy_equal(x@[j], y@[j]);
                lemma_eq_sym(x@[i], y@[i]);
                if term_eq(y@[j], y@[i]) {
                    lemma_eq_trans(y@[j], x@[j], y@[i]);
                    lemma_eq_sym(x@[j], y@[j]);
                    lemma_eq_trans(x@[j], y@[j], y@[i]);
                    lemma_eq_trans(y@[i], x@[j], x@[i]);
                    lemma_eq_trans(x@[j], y@[i], x@[i]);
                    assert(!term_eq(x@[j], x@[i]));
                }
            }
        },
        (Term::Product(x), Term::Product(y))
        | (Term::ConjunctionSequential(x), Term::ConjunctionSequential(y))
        | (Term::ImageExtension(_, x), Term::ImageExtension(_, y))
        | (Term::ImageIntension(_, x), Term::ImageIntension(_, y)) => {
            lemma_copied_all_sets_distinct(x@, y@);
        },
        (Term::Negation(x), Term::Negation(y)) => lemma_copy_sets_distinct(*x, *y),
        (Term::DifferenceExtension(x1, x2), Term::DifferenceExtension(y1, y2))
        | (Term::DifferenceIntension(x1, x2), Term::DifferenceIntension(y1, y2))
        | (Term::Inheritance(x1, x2), Term::Inheritance(y1, y2))
        | (Term::Similarity(x1, x2), Term::Similarity(y1, y2))
        | (Term::Implication(x1, x2), Term::Implication(y1, y2))
        | (Term::Equivalence(x1, x2), Term::Equivalence(y1, y2))
        | (Term::ImplicationPredictive(x1, x2), Term::ImplicationPredictive(y1, y2))
        | (Term::ImplicationConcurrent(x1, x2), Term::ImplicationConcurrent(y1, y2))
        | (Term::ImplicationRetrospective(x1, x2), Term::ImplicationRetrospective(y1, y2))
        | (Term::EquivalencePredictive(x1, x2), Term::EquivalencePredictive(y1, y2))
        | (Term::EquivalenceConcurrent(x1, x2), Term::EquivalenceConcurrent(y1, y2)) => {
            lemma_copy_sets_distinct(*x1, *y1);
            lemma_copy_sets_distinct(*x2, *y2);
        },
        _ => {},
    }
}

/// Copies of components with distinct sets have distinct sets.
proof fn lemma_copied_all_sets_distinct(xs: Seq<Term>, ys: Seq<Term>)
    requires
        all_sets_distinct(xs),
        copied_all(xs, ys),
    ensures
        all_sets_distinct(ys),
    decreases xs, 0nat,
{
    assert forall|i: int| #![trigger ys[i]] 0 <= i < ys.len() implies sets_distinct(ys[i]) by {
        lemma_copy_sets_distinct(xs[i], ys[i]);
    }
}

/// Copies compare as the terms they copy: two copies are equal exactly when the terms
/// are (for terms whose sets hold no two equal components, see [`sets_distinct`]).
pub proof fn law_copies_compare_alike(a: Term, a1: Term, b: Term, b1: Term)
    requires
        sets_distinct(a),
        sets_distinct(b),
        copied(a, a1),
        copied(b, b1),
    ensures
        term_eq(a1, b1) == term_eq(a, b),
{
    lemma_copy_sets_distinct(a, a1);
    lemma_copy_sets_distinct(b, b1);
    law_copy_equal(a, a1);
    law_copy_equal(b, b1);
    lemma_eq_sym(a, a1);
    lemma_eq_sym(b, b1);
    lemma_eq_trans(a, a1, b1);
    lemma_eq_trans(a1, a, b1);
    lemma_eq_trans(b1, a1, b);
    lemma_eq_trans(a, b, b1);
    lemma_eq_trans(a1, a, b);
    lemma_eq_trans(b, a1, a);
    lemma_eq_trans(a1, b1, b);
    lemma_eq_sym(a1, b1);
    lemma_eq_sym(a, b);
    lemma_eq_trans(b, a1, b1);
    lemma_eq_trans(a, a1, b);
}

/// Inheritance keeps its order: subject first, then predicate; of copies of `a` and `b`,
/// the inheritance from `a` to `b` equals the one from `b` to `a` only where `a` and `b`
/// are equal.
pub proof fn law_inheritance_keeps_order(a: Term, b: Term, a1: Term, b1: Term, a2: Term, b2: Term)
    requires
        sets_distinct(a),
        sets_distinct(b),
        copied(a, a1),
        copied(b, b1),
        copied(a, a2),
        copied(b, b2),
    ensures
        components(Term::Inheritance(Box::new(a), Box::new(b))) == seq![a, b],
        term_eq(
            Term::Inheritance(Box::new(a1), Box::new(b1)),
            Term::Inheritance(Box::new(b2), Box::new(a2)),
        ) == term_eq(a, b),
{
    law_copies_compare_alike(a, a1, b, b2);
    law_copies_compare_alike(b, b1, a, a2);
    lemma_eq_sym(a, b);
    lemma_eq_sym(b, a);
}

/// Numbers `0..n` taken into `0..m` with no two to one: `n` is at most `m`.
proof fn lemma_injection_bound(n: int, m: int, f: spec_fn(int) -> int)
    requires
        0 <= n,
        0 <= m,
        forall|i: int| 0 <= i < n ==> 0 <= #[trigger] f(i) < m,
        forall|i: int, k: int| 0 <= i < n && 0 <= k < n && #[trigger] f(i) == #[trigger] f(k) ==> i == k,
    ensures
        n <= m,
{
    let range = vstd::set_lib::set_int_range(0, n);
    let target = vstd::set_lib::set_int_range(0, m);
    vstd::set_lib::lemma_int_range(0, n);
    vstd::set_lib::lemma_int_range(0, m);
    let image = range.map(f);
    assert(vstd::relations::injective_on(f, range));
    vstd::set_lib::lemma_map_size(range, image, f);
    assert(image.subset_of(target));
    vstd::set_lib::lemma_len_subset(image, target);
}

/// Each term of a set without duplicates has an equal in another set: the first is no
/// larger.
proof fn lemma_covered_set_len(xs: Seq<Term>, ys: Seq<Term>)
    requires
        no_duplicates(xs),
        all_sets_distinct(xs),
        all_sets_distinct(ys),
        forall|i: int| 0 <= i < xs.len() ==> seq_contains(ys, #[trigger] xs[i]),
    ensures
        xs.len() <= ys.len(),
{
    let n = xs.len() as int;
    let f = |i: int| choose|j: int| 0 <= j < ys.len() && term_eq(xs[i], #[trigger] ys[j]);
    assert forall|i: int| 0 <= i < n implies 0 <= #[trigger] f(i) < ys.len() && term_eq(xs[i], ys[f(i)]) by {
        assert(seq_contains(ys, xs[i]));
    }
    assert forall|i: int, k: int| 0 <= i < n && 0 <= k < n && #[trigger] f(i) == #[trigger] f(k) implies i == k by {
        if i != k {
            let j = f(i);
            assert(term_eq(xs[i], ys[j]));
            assert(term_eq(xs[k], ys[j]));
            lemma_eq_sym(xs[k], ys[j]);
            lemma_eq_trans(xs[i], ys[j], xs[k]);
            lemma_eq_sym(xs[i], xs[k]);
            if i < k {
                assert(!term_eq(xs[k], xs[i]));
            } else {
                assert(!term_eq(xs[i], xs[k]));
            }
        }
    }
    lemma_injection_bound(n, ys.len() as int, f);
}

/// Each term of `xs` has an equal in the set built from `ys` where it has one in `ys`.
proof fn lemma_covered_by_set_of(xs: Seq<Term>, ys: Seq<Term>)
    requires
        all_sets_distinct(xs),
        all_sets_distinct(ys),
        forall|i: int| 0 <= i < xs.len() ==> seq_contains(ys, #[trigger] xs[i]),
    ensures
        forall|i: int| 0 <= i < set_of(xs).len() ==> seq_contains(set_of(ys), #[trigger] set_of(xs)[i]),
{
    law_set_of_members(xs);
    law_set_of_members(ys);
    law_set_of_sets_distinct(ys);
    assert forall|i: int| 0 <= i < set_of(xs).len() implies seq_contains(set_of(ys), #[trigger] set_of(xs)[i]) by {
        let k = choose|k: int| 0 <= k < xs.len() && #[trigger] set_of(xs)[i] == xs[k];
        assert(seq_contains(ys, xs[k]));
        let l = choose|l: int| 0 <= l < ys.len() && term_eq(xs[k], #[trigger] ys[l]);
        law_eq_reflexive(ys[l]);
        assert(seq_contains(set_of(ys), ys[l]));
        let m = choose|m: int| 0 <= m < set_of(ys).len() && term_eq(ys[l], #[trigger] set_of(ys)[m]);
        lemma_eq_trans(xs[k], ys[l], set_of(ys)[m]);
        assert(term_eq(set_of(xs)[i], set_of(ys)[m]));
    }
}

/// Sets ignore order and repetition: built from terms that each have an equal among the
/// others, two sets are equal (for terms whose sets hold no two equal components, see
/// [`sets_distinct`]), and each holds no two equal terms.
pub proof fn law_sets_ignore_order(xs: Seq<Term>, ys: Seq<Term>)
    requires
        all_sets_distinct(xs),
        all_sets_distinct(ys),
        forall|i: int| 0 <= i < xs.len() ==> seq_contains(ys, #[trigger] xs[i]),
        forall|j: int| 0 <= j < ys.len() ==> seq_contains(xs, #[trigger] ys[j]),
    ensures
        set_eq(set_of(xs), set_of(ys)),
        no_duplicates(set_of(xs)),
        no_duplicates(set_of(ys)),
{
    law_set_of_sets_distinct(xs);
    law_set_of_sets_distinct(ys);
    lemma_covered_by_set_of(xs, ys);
    lemma_covered_by_set_of(ys, xs);
    lemma_covered_set_len(set_of(xs), set_of(ys));
    lemma_covered_set_len(set_of(ys), set_of(xs));
}


/// Images are equal only with their placeholders at the same place: two extensional (or
/// two intensional) images with different placeholder indices, or with different numbers
/// of components, differ.
pub proof fn law_images_differ_by_placeholder(i: usize, x: TermVecType, j: usize, y: TermVecType)
    ensures
        term_eq(Term::ImageExtension(i, x), Term::ImageExtension(j, y)) ==> i == j && x@.len()
            == y@.len(),
        term_eq(Term::ImageIntension(i, x), Term::ImageIntension(j, y)) ==> i == j && x@.len()
            == y@.len(),
        term_eq(Term::ImageExtension(i, x), Term::ImageIntension(j, y)) == false,
{
    if term_eq(Term::ImageExtension(i, x), Term::ImageExtension(j, y)) {
        assert(seq_eq(x@, y@));
    }
    if term_eq(Term::ImageIntension(i, x), Term::ImageIntension(j, y)) {
        assert(seq_eq(x@, y@));
    }
}


/// Equal terms are alike: of one category and one capacity, with as many components;
/// atoms of one name; ordered components equal place by place; the two components of a
/// symmetric statement equal in one order or the other; each component of a set-like
/// term equal to one of the other's.
pub proof fn law_equal_terms_alike(t: Term, u: Term)
    ensures
        term_eq(t, u) ==> term_category(t) == term_category(u) && term_capacity(t) == term_capacity(u)
            && components(t).len() == components(u).len(),
        term_eq(t, u) && term_category(t) == TermCategory::Atom ==> atom_name(t) == atom_name(u),
        term_eq(t, u) && (term_capacity(t) == TermCapacity::Unary || term_capacity(t)
            == TermCapacity::BinaryVec || term_capacity(t) == TermCapacity::Vec) ==> forall|i: int|
            0 <= i < components(t).len() ==> term_eq(
                #[trigger] components(t)[i],
                components(u)[i],
            ),
        term_eq(t, u) && term_capacity(t) == TermCapacity::BinarySet ==> (term_eq(
            components(t)[0],
            components(u)[0],
        ) && term_eq(components(t)[1], components(u)[1])) || (term_eq(
            components(t)[0],
            components(u)[1],
        ) && term_eq(components(t)[1], components(u)[0])),
        term_eq(t, u) && term_capacity(t) == TermCapacity::SetMany ==> forall|i: int|
            0 <= i < components(t).len() ==> seq_contains(components(u), #[trigger] components(t)[i]),
{
    if term_eq(t, u) {
        match (t, u) {
            (Term::SetExtension(x), Term::SetExtension(y))
            | (Term::SetIntension(x), Term::SetIntension(y))
            | (Term::IntersectionExtension(x), Term::IntersectionExtension(y))
            | (Term::IntersectionIntension(x), Term::IntersectionIntension(y))
            | (Term::Conjunction(x), Term::Conjunction(y))
            | (Term::Disjunction(x), Term::Disjunction(y))
            | (Term::ConjunctionParallel(x), Term::ConjunctionParallel(y)) => {
                assert(set_eq(x@, y@));
            },
            (Term::Product(x), Term::Product(y))
            | (Term::ConjunctionSequential(x), Term::ConjunctionSequential(y))
            | (Term::ImageExtension(_, x), Term::ImageExtension(_, y))
            | (Term::ImageIntension(_, x), Term::ImageIntension(_, y)) => {
                assert(seq_eq(x@, y@));
            },
            _ => {},
        }
    }
}
} // verus!
