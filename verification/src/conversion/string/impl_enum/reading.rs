//! What the parser of enum Narsese reads, as specification functions of the text and of a
//! position in it.
//!
//! A position may pass the end of the text: the parser skips a closing bracket without
//! looking for it, and a skip that would pass the largest `usize` stops there. A term is
//! read into a [`TermRecipe`]: what the text says, before the constructors of [`Term`] build
//! it (sets keep each of their terms once); [`builds`] says which terms a recipe builds.
use vstd::prelude::*;
use crate::conversion::string::impl_enum::format::NarseseFormat;
use crate::conversion::string::impl_enum::parser::{
    debug_text_of_char, debug_text_of_str, env_slice_bounds, ParseError, is_float_literal, is_name_char,
    left_to_read, literal_in_01, spec_is_integer_char, starts_at, ERR_CHAR_VIEW_RANGE,
};
use crate::enum_narsese::sentence::{Punctuation, Stamp};
use crate::enum_narsese::term::{components, set_of, Term};
use crate::conversion::string::impl_enum::formatter::{statement_text, term_text};
use crate::conversion::string::common::joined;
use crate::numeral::{decimal_text, spec_parse_isize, spec_parse_usize};

verus! {

// Recipes of terms //

/// A term as the text writes it, before it is built.
pub enum TermRecipe {
    /// The placeholder of images
    Placeholder,
    /// A named atom: its kind (1 independent variable, 2 dependent variable, 3 query
    /// variable, 5 operator, 6 word) and its name
    Named(nat, Seq<char>),
    /// An interval
    Interval(usize),
    /// A set, extensional or intensional, of its terms as written
    TermSet(bool, Seq<TermRecipe>),
    /// A compound: the kind of its connector (0 conjunction, 1 disjunction, 2 negation,
    /// 3 sequential conjunction, 4 parallel conjunction, 5 extensional intersection,
    /// 6 intensional intersection, 7 extensional difference, 8 intensional difference,
    /// 9 product, 10 extensional image, 11 intensional image) and its terms as written
    Compound(nat, Seq<TermRecipe>),
    /// A statement: the kind of its copula (0 inheritance, 1 similarity, 2 implication,
    /// 3 equivalence, 4 instance, 5 property, 6 instance property, 7 predictive,
    /// 8 concurrent, 9 retrospective implication, 10 predictive, 11 concurrent,
    /// 12 retrospective equivalence), subject and predicate
    Statement(nat, Box<TermRecipe>, Box<TermRecipe>),
}

/// `i` is the first placeholder of the recipes.
pub open spec fn first_placeholder(rs: Seq<TermRecipe>, i: int) -> bool {
    &&& 0 <= i < rs.len()
    &&& rs[i] is Placeholder
    &&& forall|k: int| 0 <= k < i ==> !(#[trigger] rs[k] is Placeholder)
}

/// Each term of `ts` is built from the recipe at its place.
pub open spec fn builds_all(rs: Seq<TermRecipe>, ts: Seq<Term>) -> bool
    decreases rs, 0nat,
{
    ts.len() == rs.len() && forall|i: int| #![trigger ts[i]] 0 <= i < rs.len() ==> builds(rs[i], ts[i])
}

/// The terms of `ts` are built from the recipes other than the `i`-th, in order.
pub open spec fn builds_without(rs: Seq<TermRecipe>, i: int, ts: Seq<Term>) -> bool
    decreases rs, 0nat,
{
    &&& ts.len() + 1 == rs.len()
    &&& forall|j: int| #![trigger ts[j]] 0 <= j < i && j < ts.len() ==> builds(rs[j], ts[j])
    &&& forall|j: int| #![trigger ts[j]] 0 <= j < ts.len() && i <= j ==> builds(rs[j + 1], ts[j])
}

/// The components of a set are what the constructors keep of the terms built from the
/// recipes (each once).
pub open spec fn builds_set(rs: Seq<TermRecipe>, v: Seq<Term>) -> bool
    decreases rs, 1nat,
{
    exists|ts: Seq<Term>| builds_all(rs, ts) && v == set_of(ts)
}

/// The term `t` is built from the recipe: by the constructor that its kind names, from
/// the terms built from its parts.
pub open spec fn builds(r: TermRecipe, t: Term) -> bool
    decreases r, 2nat,
{
    match r {
        TermRecipe::Placeholder => t is Placeholder,
        TermRecipe::Named(k, name) => match t {
            Term::VariableIndependent(n) => k == 1 && n@ == name,
            Term::VariableDependent(n) => k == 2 && n@ == name,
            Term::VariableQuery(n) => k == 3 && n@ == name,
            Term::Operator(n) => k == 5 && n@ == name,
            Term::Word(n) => k == 6 && n@ == name,
            _ => false,
        },
        TermRecipe::Interval(n) => t == Term::Interval(n),
        TermRecipe::TermSet(extension, rs) => match t {
            Term::SetExtension(v) => extension && builds_set(rs, v@),
            Term::SetIntension(v) => !extension && builds_set(rs, v@),
            _ => false,
        },
        TermRecipe::Compound(k, rs) => match t {
            Term::Conjunction(v) => k == 0 && builds_set(rs, v@),
            Term::Disjunction(v) => k == 1 && builds_set(rs, v@),
            Term::Negation(a) => k == 2 && rs.len() == 1 && builds(rs[0], *a),
            Term::ConjunctionSequential(v) => k == 3 && builds_all(rs, v@),
            Term::ConjunctionParallel(v) => k == 4 && builds_set(rs, v@),
            Term::IntersectionExtension(v) => k == 5 && builds_set(rs, v@),
            Term::IntersectionIntension(v) => k == 6 && builds_set(rs, v@),
            Term::DifferenceExtension(a, b) => k == 7 && rs.len() == 2 && builds(rs[0], *a)
                && builds(rs[1], *b),
            Term::DifferenceIntension(a, b) => k == 8 && rs.len() == 2 && builds(rs[0], *a)
                && builds(rs[1], *b),
            Term::Product(v) => k == 9 && builds_all(rs, v@),
            Term::ImageExtension(i, v) => k == 10 && first_placeholder(rs, i as int) && builds_without(
                rs,
                i as int,
                v@,
            ),
            Term::ImageIntension(i, v) => k == 11 && first_placeholder(rs, i as int) && builds_without(
                rs,
                i as int,
                v@,
            ),
            _ => false,
        },
        TermRecipe::Statement(k, s, p) => match t {
            Term::Inheritance(a, b) => (k == 0 && builds(*s, *a) && builds(*p, *b)) || (k == 4 && (
            *a matches Term::SetExtension(v) && v@.len() == 1 && builds(*s, v@[0])) && builds(
                *p,
                *b,
            )) || (k == 5 && builds(*s, *a) && (*b matches Term::SetIntension(w) && w@.len() == 1
                && builds(*p, w@[0]))) || (k == 6 && (*a matches Term::SetExtension(v) && v@.len()
                == 1 && builds(*s, v@[0])) && (*b matches Term::SetIntension(w) && w@.len() == 1
                && builds(*p, w@[0]))),
            Term::Similarity(a, b) => k == 1 && builds(*s, *a) && builds(*p, *b),
            Term::Implication(a, b) => k == 2 && builds(*s, *a) && builds(*p, *b),
            Term::Equivalence(a, b) => k == 3 && builds(*s, *a) && builds(*p, *b),
            Term::ImplicationPredictive(a, b) => k == 7 && builds(*s, *a) && builds(*p, *b),
            Term::ImplicationConcurrent(a, b) => k == 8 && builds(*s, *a) && builds(*p, *b),
            Term::ImplicationRetrospective(a, b) => k == 9 && builds(*s, *a) && builds(*p, *b),
            Term::EquivalencePredictive(a, b) => (k == 10 && builds(*s, *a) && builds(*p, *b)) || (
            k == 12 && builds(*p, *a) && builds(*s, *b)),
            Term::EquivalenceConcurrent(a, b) => k == 11 && builds(*s, *a) && builds(*p, *b),
            _ => false,
        },
    }
}

/// A recipe is the placeholder exactly where the term built from it is.
pub proof fn lemma_builds_placeholder(r: TermRecipe, t: Term)
    requires
        builds(r, t),
    ensures
        r is Placeholder <==> t is Placeholder,
{
}

/// What reading terms gives, with `rs` read before.
pub open spec fn after_terms(rs: Seq<TermRecipe>, x: Result<(Seq<TermRecipe>, int), ReadError>) -> Result<
    (Seq<TermRecipe>, int),
    ReadError,
> {
    match x {
        Ok((more, end)) => Ok((rs + more, end)),
        Err(e) => Err(e),
    }
}

/// A statement read with the copula of kind `k` (any but the instance, property and
/// retrospective-equivalence forms, which the constructors rewrite) keeps the text's
/// order: its first component is built from the subject read and its second from the
/// predicate; and the formatter writes it back with that same copula between them.
pub proof fn law_statement_kind_round_trip(
    f: NarseseFormat<&str>,
    k: nat,
    s: TermRecipe,
    p: TermRecipe,
    t: Term,
)
    requires
        k < 12,
        k != 4 && k != 5 && k != 6,
        builds(TermRecipe::Statement(k, Box::new(s), Box::new(p)), t),
    ensures
        components(t).len() == 2,
        builds(s, components(t)[0]),
        builds(p, components(t)[1]),
        term_text(f, t) == statement_text(
            f,
            term_text(f, components(t)[0]),
            f.copulas_spec()[k as int]@,
            term_text(f, components(t)[1]),
        ),
{
}

/// A statement read with the retrospective equivalence is the predictive equivalence
/// the other way round: its first component is built from the predicate read and its
/// second from the subject, and the formatter writes it with the predictive copula.
pub proof fn law_retrospective_equivalence_reversed(f: NarseseFormat<&str>, s: TermRecipe, p: TermRecipe, t: Term)
    requires
        builds(TermRecipe::Statement(12, Box::new(s), Box::new(p)), t),
    ensures
        t is EquivalencePredictive,
        builds(p, components(t)[0]),
        builds(s, components(t)[1]),
        term_text(f, t) == statement_text(
            f,
            term_text(f, components(t)[0]),
            f.copulas_spec()[10]@,
            term_text(f, components(t)[1]),
        ),
{
}

/// A statement read with the instance, property or instance-property copula is an
/// inheritance whose subject (instance), predicate (property) or both are wrapped in a
/// set of one term: the extensional set for the subject, the intensional one for the
/// predicate.
pub proof fn law_instance_and_property_forms(s: TermRecipe, p: TermRecipe, t: Term, k: nat)
    requires
        k == 4 || k == 5 || k == 6,
        builds(TermRecipe::Statement(k, Box::new(s), Box::new(p)), t),
    ensures
        t is Inheritance,
        k == 4 || k == 6 ==> (components(t)[0] matches Term::SetExtension(v) && v@.len() == 1
            && builds(s, v@[0])),
        k == 5 ==> builds(s, components(t)[0]),
        k == 5 || k == 6 ==> (components(t)[1] matches Term::SetIntension(w) && w@.len() == 1
            && builds(p, w@[0])),
        k == 4 ==> builds(p, components(t)[1]),
{
}

/// The copula that the parser reads at a position is the one of the kind it reports.
pub proof fn law_copula_read_is_of_its_kind(f: NarseseFormat<&str>, env: Seq<char>, h: int)
    ensures
        copula_kind(f, env, h) matches Some((k, n)) ==> k < 13 && n == f.copulas_spec()[k as int]@.len()
            && starts_at(env, h, f.copulas_spec()[k as int]@),
{
    lemma_copula_from_found(f, env, h, 0);
}

/// A copula found from the `i`-th on stands at `h` and is of the kind reported.
proof fn lemma_copula_from_found(f: NarseseFormat<&str>, env: Seq<char>, h: int, i: nat)
    ensures
        copula_from(f, env, h, i) matches Some((k, n)) ==> i <= k < 13 && n == f.copulas_spec()[k as int]@.len()
            && starts_at(env, h, f.copulas_spec()[k as int]@),
    decreases 13 - i,
{
    if i < 13 {
        lemma_copula_from_found(f, env, h, i + 1);
    }
}

// Positions //

/// A position moved forward by `n`, stopping at the largest `usize`.
pub open spec fn sat_add(h: int, n: int) -> int {
    if h + n <= usize::MAX {
        h + n
    } else {
        usize::MAX as int
    }
}

/// How many characters are left to read from `h`.
pub open spec fn rest_len(env: Seq<char>, h: int) -> int {
    if 0 <= h < env.len() {
        env.len() - h
    } else {
        0
    }
}

/// The position after the spaces that stand at `h`.
pub open spec fn skip_spaces(f: NarseseFormat<&str>, env: Seq<char>, h: int) -> int
    decreases rest_len(env, h),
{
    if 0 <= h && f.space.parse@.len() > 0 && starts_at(env, h, f.space.parse@) {
        skip_spaces(f, env, h + f.space.parse@.len())
    } else {
        h
    }
}

/// Skipping spaces does not move back.
pub proof fn lemma_skip_spaces_forward(f: NarseseFormat<&str>, env: Seq<char>, h: int)
    ensures
        skip_spaces(f, env, h) >= h,
    decreases rest_len(env, h),
{
    if 0 <= h && f.space.parse@.len() > 0 && starts_at(env, h, f.space.parse@) {
        lemma_skip_spaces_forward(f, env, h + f.space.parse@.len());
    }
}

/// An error: its message and position.
pub type ReadError = (Seq<char>, int);

/// The error `e` is the error `re` in the text `env`: its message, its position, and the
/// text around the position.
pub open spec fn error_in(e: ParseError, env: Seq<char>, re: ReadError) -> bool {
    let bounds = env_slice_bounds(env.len() as int, re.1);
    &&& e.message()@ == re.0
    &&& e.index() as int == re.1
    &&& e.env_slice()@ == env.subrange(bounds.0, bounds.1)
}

/// What an error writes of itself: `Narsese解析错误：`, the message, ` @ `, the position,
/// ` in `, and the text around the position as std's `Debug` writes a string.
pub open spec fn error_text(env: Seq<char>, e: ReadError) -> Seq<char> {
    let bounds = env_slice_bounds(env.len() as int, e.1);
    "Narsese解析错误："@ + e.0 + " @ "@ + decimal_text(e.1 as nat) + " in "@ + debug_text_of_str(
        env.subrange(bounds.0, bounds.1),
    )
}

/// Where a reading would test the text past its end, or report an error too far past its
/// end to show the text around it, the reading stops there: an error without a message.
pub open spec fn past_end(h: int) -> ReadError {
    (Seq::empty(), h)
}

/// A position past which no error can be reported.
pub open spec fn beyond_report(env: Seq<char>, h: int) -> bool {
    h > env.len() + ERR_CHAR_VIEW_RANGE
}

// Atoms //

/// A copula of the format stands at `h`.
pub open spec fn copula_at(f: NarseseFormat<&str>, env: Seq<char>, h: int) -> bool {
    exists|i: int| 0 <= i < 13 && starts_at(env, h, #[trigger] f.copulas_spec()[i]@)
}

/// The first atom prefix of the format that stands at `h` (in the order placeholder,
/// independent, dependent and query variable, interval, operator, word): its kind and
/// length.
pub open spec fn atom_prefix(f: NarseseFormat<&str>, env: Seq<char>, h: int) -> Option<(nat, int)> {
    let a = f.atom;
    if starts_at(env, h, a.prefix_placeholder@) {
        Some((0, a.prefix_placeholder@.len() as int))
    } else if starts_at(env, h, a.prefix_variable_independent@) {
        Some((1, a.prefix_variable_independent@.len() as int))
    } else if starts_at(env, h, a.prefix_variable_dependent@) {
        Some((2, a.prefix_variable_dependent@.len() as int))
    } else if starts_at(env, h, a.prefix_variable_query@) {
        Some((3, a.prefix_variable_query@.len() as int))
    } else if starts_at(env, h, a.prefix_interval@) {
        Some((4, a.prefix_interval@.len() as int))
    } else if starts_at(env, h, a.prefix_operator@) {
        Some((5, a.prefix_operator@.len() as int))
    } else if starts_at(env, h, a.prefix_word@) {
        Some((6, a.prefix_word@.len() as int))
    } else {
        None
    }
}

/// Where a name that starts at `h` ends: at the first character that is not a name
/// character or that begins a copula, or at the end.
pub open spec fn name_end(f: NarseseFormat<&str>, env: Seq<char>, h: int) -> int
    decreases env.len() - h,
{
    if 0 <= h < env.len() && is_name_char(env[h]) && !copula_at(f, env, h) {
        name_end(f, env, h + 1)
    } else {
        h
    }
}

/// An atom at `h`: its prefix, then its name (the placeholder ignores it; other atoms
/// need one; an interval's must be a number).
pub open spec fn read_atom(f: NarseseFormat<&str>, env: Seq<char>, h: int) -> Result<(TermRecipe, int), ReadError> {
    match atom_prefix(f, env, h) {
        None => Err(("未知的原子词项前缀"@, h)),
        Some((k, n)) => {
            let start = h + n;
            let end = name_end(f, env, start);
            let name = env.subrange(start, end);
            if k == 0 {
                Ok((TermRecipe::Placeholder, end))
            } else if end == start {
                Err(("词项名不能为空"@, end))
            } else if k == 4 {
                match spec_parse_usize(name) {
                    Some(i) => Ok((TermRecipe::Interval(i), end)),
                    None => Err(("非法词项名 "@ + debug_text_of_str(name), end)),
                }
            } else {
                Ok((TermRecipe::Named(k, name), end))
            }
        },
    }
}

// Terms //

/// A term at `h`: a set, a compound or a statement by its opening bracket, else an atom.
pub open spec fn read_term(f: NarseseFormat<&str>, env: Seq<char>, h: int) -> Result<(TermRecipe, int), ReadError>
    decreases rest_len(env, h), 5nat,
{
    let c = f.compound;
    if h < 0 {
        Err((Seq::empty(), h))
    } else if starts_at(env, h, c.brackets_set_extension.0@) {
        match read_term_set(f, env, h, c.brackets_set_extension.0@, c.brackets_set_extension.1@) {
            Ok((rs, end)) => Ok((TermRecipe::TermSet(true, rs), end)),
            Err(e) => Err(e),
        }
    } else if starts_at(env, h, c.brackets_set_intension.0@) {
        match read_term_set(f, env, h, c.brackets_set_intension.0@, c.brackets_set_intension.1@) {
            Ok((rs, end)) => Ok((TermRecipe::TermSet(false, rs), end)),
            Err(e) => Err(e),
        }
    } else if starts_at(env, h, c.brackets.0@) {
        read_compound(f, env, h)
    } else if starts_at(env, h, f.statement.brackets.0@) {
        read_statement(f, env, h)
    } else {
        read_atom(f, env, h)
    }
}

/// Terms from `h` on, skipping spaces and separators, until the right bracket (which stays
/// to be read) or the end of the text.
pub open spec fn read_terms(f: NarseseFormat<&str>, env: Seq<char>, h: int, right: Seq<char>) -> Result<
    (Seq<TermRecipe>, int),
    ReadError,
>
    decreases rest_len(env, h), 6nat,
{
    let space = f.space.parse@;
    let sep = f.compound.separator@;
    if h < 0 || h >= env.len() {
        Ok((Seq::empty(), h))
    } else if space.len() > 0 && starts_at(env, h, space) {
        read_terms(f, env, h + space.len(), right)
    } else if sep.len() > 0 && starts_at(env, h, sep) {
        read_terms(f, env, h + sep.len(), right)
    } else if starts_at(env, h, right) {
        Ok((Seq::empty(), h))
    } else {
        match read_term(f, env, h) {
            Ok((r, next)) => if next <= h {
                Err((Seq::empty(), next))
            } else {
                match read_terms(f, env, next, right) {
                    Ok((rs, end)) => Ok((seq![r] + rs, end)),
                    Err(e) => Err(e),
                }
            },
            Err(e) => Err(e),
        }
    }
}

/// A set at `h`: the left bracket and spaces, its terms, spaces and the right bracket;
/// at least one term.
pub open spec fn read_term_set(f: NarseseFormat<&str>, env: Seq<char>, h: int, left: Seq<char>, right: Seq<char>) -> Result<
    (Seq<TermRecipe>, int),
    ReadError,
>
    decreases rest_len(env, h), 3nat,
{
    let start = skip_spaces(f, env, sat_add(h, left.len() as int));
    if !(starts_at(env, h, left) && left.len() > 0 && start > h) {
        Err((Seq::empty(), h))
    } else {
        match read_terms(f, env, start, right) {
            Ok((rs, end)) => if end > env.len() {
                Err(past_end(end))
            } else {
                let after = sat_add(skip_spaces(f, env, end), right.len() as int);
                if rs.len() == 0 {
                    if beyond_report(env, after) {
                        Err(past_end(after))
                    } else {
                        Err(("词项集为空"@, after))
                    }
                } else {
                    Ok((rs, after))
                }
            },
            Err(e) => Err(e),
        }
    }
}

/// The first connector of the format that stands at `h` (in the order conjunction,
/// disjunction, negation, sequential and parallel conjunction, extensional and
/// intensional intersection and difference, product, extensional and intensional
/// image): its kind and length.
pub open spec fn connecter_at(f: NarseseFormat<&str>, env: Seq<char>, h: int) -> Option<(nat, int)> {
    let c = f.compound;
    if starts_at(env, h, c.connecter_conjunction@) {
        Some((0, c.connecter_conjunction@.len() as int))
    } else if starts_at(env, h, c.connecter_disjunction@) {
        Some((1, c.connecter_disjunction@.len() as int))
    } else if starts_at(env, h, c.connecter_negation@) {
        Some((2, c.connecter_negation@.len() as int))
    } else if starts_at(env, h, c.connecter_conjunction_sequential@) {
        Some((3, c.connecter_conjunction_sequential@.len() as int))
    } else if starts_at(env, h, c.connecter_conjunction_parallel@) {
        Some((4, c.connecter_conjunction_parallel@.len() as int))
    } else if starts_at(env, h, c.connecter_intersection_extension@) {
        Some((5, c.connecter_intersection_extension@.len() as int))
    } else if starts_at(env, h, c.connecter_intersection_intension@) {
        Some((6, c.connecter_intersection_intension@.len() as int))
    } else if starts_at(env, h, c.connecter_difference_extension@) {
        Some((7, c.connecter_difference_extension@.len() as int))
    } else if starts_at(env, h, c.connecter_difference_intension@) {
        Some((8, c.connecter_difference_intension@.len() as int))
    } else if starts_at(env, h, c.connecter_product@) {
        Some((9, c.connecter_product@.len() as int))
    } else if starts_at(env, h, c.connecter_image_extension@) {
        Some((10, c.connecter_image_extension@.len() as int))
    } else if starts_at(env, h, c.connecter_image_intension@) {
        Some((11, c.connecter_image_intension@.len() as int))
    } else {
        None
    }
}

/// Why the terms cannot make a compound of the kind: there are none; a negation needs
/// one, a difference two, an image a placeholder.
pub open spec fn compound_refusal(k: nat, rs: Seq<TermRecipe>) -> Option<Seq<char>> {
    if rs.len() == 0 {
        Some("复合词项内容不能为空"@)
    } else if k == 2 && rs.len() != 1 {
        Some("一元内容长度不为1"@)
    } else if (k == 7 || k == 8) && rs.len() != 2 {
        Some("二元序列长度不为2"@)
    } else if (k == 10 || k == 11) && !(exists|i: int| first_placeholder(rs, i)) {
        Some("未在词项序列中找到占位符"@)
    } else {
        None
    }
}

/// A compound at `h`: the left bracket and spaces, a connector (an operator prefix there
/// is refused), its terms, spaces and the right bracket. It has terms; a negation has one,
/// a difference two, an image a placeholder.
pub open spec fn read_compound(f: NarseseFormat<&str>, env: Seq<char>, h: int) -> Result<(TermRecipe, int), ReadError>
    decreases rest_len(env, h), 4nat,
{
    let c = f.compound;
    let start = skip_spaces(f, env, sat_add(h, c.brackets.0@.len() as int));
    if !(starts_at(env, h, c.brackets.0@) && c.brackets.0@.len() > 0 && start > h) {
        Err((Seq::empty(), h))
    } else if starts_at(env, start, f.atom.prefix_operator@) {
        Err(
            (
                "暂不支持OpenNARS风格`(^操作名, 参数)`操作，建议使用`<(*, 参数) --> 操作名>`代替"@,
                sat_add(start, f.atom.prefix_operator@.len() as int),
            ),
        )
    } else {
        match connecter_at(f, env, start) {
            None => Err(("未知的复合词项连接符"@, start)),
            Some((k, n)) => match read_terms(f, env, start + n, c.brackets.1@) {
                Ok((rs, end)) => match compound_refusal(k, rs) {
                    Some(message) => if beyond_report(env, end) {
                        Err(past_end(end))
                    } else {
                        Err((message, end))
                    },
                    None => if end > env.len() {
                        Err(past_end(end))
                    } else {
                        Ok(
                        (
                            TermRecipe::Compound(k, rs),
                            sat_add(skip_spaces(f, env, end), c.brackets.1@.len() as int),
                        ),
                    )
                    },
                },
                Err(e) => Err(e),
            },
        }
    }
}

/// The first copula of the format that stands at `h` (in the order of
/// [`NarseseFormat::copulas_spec`]): its kind and length.
pub open spec fn copula_kind(f: NarseseFormat<&str>, env: Seq<char>, h: int) -> Option<(nat, int)>
    decreases 13nat,
{
    copula_from(f, env, h, 0)
}

/// The first copula from the `i`-th on that stands at `h`: its kind and length.
pub open spec fn copula_from(f: NarseseFormat<&str>, env: Seq<char>, h: int, i: nat) -> Option<(nat, int)>
    decreases 13 - i,
{
    if i >= 13 {
        None
    } else if starts_at(env, h, f.copulas_spec()[i as int]@) {
        Some((i, f.copulas_spec()[i as int]@.len() as int))
    } else {
        copula_from(f, env, h, i + 1)
    }
}

/// A copula that is found has a length and one of the thirteen kinds.
pub proof fn lemma_copula_len(f: NarseseFormat<&str>, env: Seq<char>, h: int, i: nat)
    ensures
        copula_from(f, env, h, i) matches Some((k, n)) ==> n >= 0 && i <= k < 13,
    decreases 13 - i,
{
    if i < 13 {
        lemma_copula_len(f, env, h, i + 1);
    }
}

/// A statement at `h`: the left bracket and spaces, a subject, spaces, a copula, spaces, a
/// predicate, spaces and the right bracket.
pub open spec fn read_statement(f: NarseseFormat<&str>, env: Seq<char>, h: int) -> Result<(TermRecipe, int), ReadError>
    decreases rest_len(env, h), 4nat,
{
    let st = f.statement;
    let start = skip_spaces(f, env, sat_add(h, st.brackets.0@.len() as int));
    if !(starts_at(env, h, st.brackets.0@) && st.brackets.0@.len() > 0 && start > h) {
        Err((Seq::empty(), h))
    } else {
        match read_term(f, env, start) {
            Ok((s, after_subject)) => if after_subject <= start {
                Err((Seq::empty(), after_subject))
            } else if after_subject > env.len() {
                Err(past_end(after_subject))
            } else {
                let at_copula = skip_spaces(f, env, after_subject);
                match copula_kind(f, env, at_copula) {
                    None => Err(("未知的陈述系词"@, at_copula)),
                    Some((k, n)) => {
                        let at_predicate = skip_spaces(f, env, at_copula + n);
                        proof {
                            lemma_skip_spaces_forward(f, env, after_subject);
                            lemma_skip_spaces_forward(f, env, at_copula + n);
                            lemma_copula_len(f, env, at_copula, 0);
                        }
                        match read_term(f, env, at_predicate) {
                            Ok((p, end)) => if end > env.len() {
                                Err(past_end(end))
                            } else {
                                Ok(
                                    (
                                        TermRecipe::Statement(k, Box::new(s), Box::new(p)),
                                        sat_add(skip_spaces(f, env, end), st.brackets.1@.len() as int),
                                    ),
                                )
                            },
                            Err(e) => Err(e),
                        }
                    },
                }
            },
            Err(e) => Err(e),
        }
    }
}


// Numbers, stamps, punctuations //

/// Up to `n` numbers from `h` on, separated by `sep` and closed by `right`, spaces
/// skipped; `result` holds the literals read so far and `buf` the characters of the one
/// being read. A number that ends at the separator must be a decimal literal; one that ends
/// at the bracket counts only if it is one; reading stops after `n` numbers, at the bracket
/// (which stays to be read) or at the end of the text.
pub open spec fn read_floats(
    f: NarseseFormat<&str>,
    env: Seq<char>,
    h: int,
    n: nat,
    sep: Seq<char>,
    right: Seq<char>,
    result: Seq<Seq<char>>,
    buf: Seq<char>,
) -> Result<(Seq<Seq<char>>, int), ReadError>
    decreases rest_len(env, h),
{
    let space = f.space.parse@;
    if !(0 <= h < env.len() && result.len() < n) {
        Ok((result, h))
    } else {
        let c = env[h];
        if space.len() > 0 && starts_at(env, h, space) {
            read_floats(f, env, h + space.len(), n, sep, right, result, buf)
        } else if c == '.' || ('0' <= c && c <= '9') {
            read_floats(f, env, h + 1, n, sep, right, result, buf.push(c))
        } else if sep.len() > 0 && starts_at(env, h, sep) {
            if is_float_literal(buf) {
                read_floats(f, env, h + sep.len(), n, sep, right, result.push(buf), Seq::empty())
            } else {
                Err((debug_text_of_str(buf) + "不是有效的数值"@, h))
            }
        } else if starts_at(env, h, right) {
            Ok(
                (
                    if is_float_literal(buf) {
                        result.push(buf)
                    } else {
                        result
                    },
                    h,
                ),
            )
        } else {
            Err(("在解析浮点序列时出现无效字符"@ + debug_text_of_char(c), h))
        }
    }
}

/// Where the run of digits and signs that starts at `h` ends.
pub open spec fn int_end(env: Seq<char>, h: int) -> int
    decreases env.len() - h,
{
    if 0 <= h < env.len() && spec_is_integer_char(env[h]) {
        int_end(env, h + 1)
    } else {
        h
    }
}

/// A signed integer at `h`: the run of digits and signs there, which must read as an
/// `isize`.
pub open spec fn read_isize(env: Seq<char>, h: int) -> Result<(isize, int), ReadError> {
    let end = int_end(env, h);
    if end == h {
        Err(("空的无符号整数值"@, h))
    } else {
        match spec_parse_isize(env.subrange(h, end)) {
            Some(v) => Ok((v, end)),
            None => Err((debug_text_of_str(env.subrange(h, end)) + "不是有效的数值"@, end)),
        }
    }
}

/// The first punctuation of the format that stands at `h` (judgement, goal, question,
/// quest), and the position after it.
pub open spec fn read_punctuation(f: NarseseFormat<&str>, env: Seq<char>, h: int) -> Result<(Punctuation, int), ReadError> {
    let s = f.sentence;
    if starts_at(env, h, s.punctuation_judgement@) {
        Ok((Punctuation::Judgement, h + s.punctuation_judgement@.len()))
    } else if starts_at(env, h, s.punctuation_goal@) {
        Ok((Punctuation::Goal, h + s.punctuation_goal@.len()))
    } else if starts_at(env, h, s.punctuation_question@) {
        Ok((Punctuation::Question, h + s.punctuation_question@.len()))
    } else if starts_at(env, h, s.punctuation_quest@) {
        Ok((Punctuation::Quest, h + s.punctuation_quest@.len()))
    } else {
        Err(("未知的标点"@, h))
    }
}

/// A stamp at `h`: the left bracket and spaces, a kind (fixed with its number, past,
/// present, future), spaces and the right bracket.
pub open spec fn read_stamp(f: NarseseFormat<&str>, env: Seq<char>, h: int) -> Result<(Stamp, int), ReadError> {
    let s = f.sentence;
    let inside = sat_add(h, s.stamp_brackets.0@.len() as int);
    let start = skip_spaces(f, env, inside);
    let kind: Result<(Stamp, int), ReadError> = if starts_at(env, start, s.stamp_fixed@) {
        match read_isize(env, start + s.stamp_fixed@.len()) {
            Ok((i, end)) => Ok((Stamp::Fixed(i), end)),
            Err(e) => Err(e),
        }
    } else if starts_at(env, start, s.stamp_past@) {
        Ok((Stamp::Past, start + s.stamp_past@.len()))
    } else if starts_at(env, start, s.stamp_present@) {
        Ok((Stamp::Present, start + s.stamp_present@.len()))
    } else if starts_at(env, start, s.stamp_future@) {
        Ok((Stamp::Future, start + s.stamp_future@.len()))
    } else {
        Err(("无效时间戳类型"@, start))
    };
    if inside > env.len() {
        Err(past_end(inside))
    } else {
        match kind {
            Ok((stamp, end)) => Ok((stamp, sat_add(skip_spaces(f, env, end), s.stamp_brackets.1@.len() as int))),
            Err(e) => Err(e),
        }
    }
}

/// The literals all round to numbers in `[0, 1]`.
pub open spec fn all_in_01(v: Seq<Seq<char>>) -> bool {
    forall|i: int| 0 <= i < v.len() ==> literal_in_01(#[trigger] v[i])
}

/// Numbers in brackets at `h`: the left bracket and spaces, up to `n` numbers in `[0, 1]`,
/// spaces and the right bracket.
pub open spec fn read_numbers(
    f: NarseseFormat<&str>,
    env: Seq<char>,
    h: int,
    n: nat,
    brackets: (Seq<char>, Seq<char>),
    sep: Seq<char>,
) -> Result<(Seq<Seq<char>>, int), ReadError> {
    let inside = sat_add(h, brackets.0.len() as int);
    let start = skip_spaces(f, env, inside);
    if inside > env.len() {
        Err(past_end(inside))
    } else {
        match read_floats(f, env, start, n, sep, brackets.1, Seq::empty(), Seq::empty()) {
            Ok((v, end)) => if !all_in_01(v) {
                Err(("「0-1」区间外的值（建议：`0<x<1`）"@, end))
            } else {
                Ok((v, sat_add(skip_spaces(f, env, end), brackets.1.len() as int)))
            },
            Err(e) => Err(e),
        }
    }
}

/// A truth value at `h`: up to two numbers.
pub open spec fn read_truth(f: NarseseFormat<&str>, env: Seq<char>, h: int) -> Result<(Seq<Seq<char>>, int), ReadError> {
    let s = f.sentence;
    read_numbers(f, env, h, 2, (s.truth_brackets.0@, s.truth_brackets.1@), s.truth_separator@)
}

/// A budget at `h`: up to three numbers.
pub open spec fn read_budget(f: NarseseFormat<&str>, env: Seq<char>, h: int) -> Result<(Seq<Seq<char>>, int), ReadError> {
    let t = f.task;
    read_numbers(f, env, h, 3, (t.budget_brackets.0@, t.budget_brackets.1@), t.budget_separator@)
}

// Items //

/// The items read so far, in specifications.
pub struct MidReading {
    /// The term
    pub term: Option<TermRecipe>,
    /// The literals of the truth value
    pub truth: Option<Seq<Seq<char>>>,
    /// The literals of the budget
    pub budget: Option<Seq<Seq<char>>>,
    /// The stamp
    pub stamp: Option<Stamp>,
    /// The punctuation
    pub punctuation: Option<Punctuation>,
}

/// How many of the items are still missing.
pub open spec fn missing_items(m: MidReading) -> nat {
    (if m.term is None { 1nat } else { 0nat }) + (if m.truth is None { 1nat } else { 0nat })
        + (if m.budget is None { 1nat } else { 0nat }) + (if m.stamp is None { 1nat } else { 0nat })
        + (if m.punctuation is None { 1nat } else { 0nat })
}

/// Nothing read yet.
pub open spec fn no_items() -> MidReading {
    MidReading { term: None, truth: None, budget: None, stamp: None, punctuation: None }
}

/// The attempts of one item from the `stage`-th on (budget, term, punctuation, stamp,
/// truth value), each at `start`; `head` is where the last failed attempt stopped and
/// `errs` the texts of the errors so far. An attempt is made where the item is missing
/// (and, for budget, stamp and truth value, where its left bracket stands at `head`); the
/// first that succeeds gives the item and where it ends; when none does, the error at
/// `head` lists the errors.
pub open spec fn attempt_items(
    f: NarseseFormat<&str>,
    env: Seq<char>,
    start: int,
    head: int,
    m: MidReading,
    errs: Seq<Seq<char>>,
    stage: nat,
) -> (Result<(MidReading, int), ReadError>, Seq<Seq<char>>)
    decreases 5 - stage,
{
    if stage == 0 {
        if starts_at(env, head, f.task.budget_brackets.0@) && m.budget is None {
            match read_budget(f, env, start) {
                Ok((v, end)) => (Ok((MidReading { budget: Some(v), ..m }, end)), errs),
                Err(e) => if e.0.len() == 0 {
                    (Err(e), errs)
                } else {
                    attempt_items(f, env, start, e.1, m, errs.push(error_text(env, e)), 1)
                },
            }
        } else {
            attempt_items(f, env, start, head, m, errs, 1)
        }
    } else if stage == 1 {
        if m.term is None {
            match read_term(f, env, start) {
                Ok((t, end)) => (Ok((MidReading { term: Some(t), ..m }, end)), errs),
                Err(e) => if e.0.len() == 0 {
                    (Err(e), errs)
                } else {
                    attempt_items(f, env, start, e.1, m, errs.push(error_text(env, e)), 2)
                },
            }
        } else {
            attempt_items(f, env, start, head, m, errs, 2)
        }
    } else if stage == 2 {
        if m.punctuation is None {
            match read_punctuation(f, env, start) {
                Ok((p, end)) => (Ok((MidReading { punctuation: Some(p), ..m }, end)), errs),
                Err(e) => if e.0.len() == 0 {
                    (Err(e), errs)
                } else {
                    attempt_items(f, env, start, e.1, m, errs.push(error_text(env, e)), 3)
                },
            }
        } else {
            attempt_items(f, env, start, head, m, errs, 3)
        }
    } else if stage == 3 {
        if head > env.len() {
            (Err(past_end(head)), errs)
        } else if starts_at(env, head, f.sentence.stamp_brackets.0@) && m.stamp is None {
            match read_stamp(f, env, start) {
                Ok((s, end)) => (Ok((MidReading { stamp: Some(s), ..m }, end)), errs),
                Err(e) => if e.0.len() == 0 {
                    (Err(e), errs)
                } else {
                    attempt_items(f, env, start, e.1, m, errs.push(error_text(env, e)), 4)
                },
            }
        } else {
            attempt_items(f, env, start, head, m, errs, 4)
        }
    } else if stage == 4 {
        if head > env.len() {
            (Err(past_end(head)), errs)
        } else if starts_at(env, head, f.sentence.truth_brackets.0@) && m.truth is None {
            match read_truth(f, env, start) {
                Ok((v, end)) => (Ok((MidReading { truth: Some(v), ..m }, end)), errs),
                Err(e) => if e.0.len() == 0 {
                    (Err(e), errs)
                } else {
                    attempt_items(f, env, start, e.1, m, errs.push(error_text(env, e)), 5)
                },
            }
        } else {
            attempt_items(f, env, start, head, m, errs, 5)
        }
    } else {
        let message = if errs.len() == 0 {
            "没有可解析的条目"@
        } else {
            "没有可解析的条目 from [\n\t"@ + joined(errs, "\n\t"@, Seq::empty()) + "\n]"@
        };
        (Err((message, head)), errs)
    }
}

/// One item at `h`: a space, else the first item that can be read (see
/// [`attempt_items`]).
pub open spec fn read_one(f: NarseseFormat<&str>, env: Seq<char>, h: int, m: MidReading, errs: Seq<Seq<char>>) -> (
    Result<(MidReading, int), ReadError>,
    Seq<Seq<char>>,
) {
    if starts_at(env, h, f.space.parse@) {
        (Ok((m, h + f.space.parse@.len())), errs)
    } else {
        attempt_items(f, env, h, h, m, errs, 0)
    }
}

/// Items from `h` on until the end of the text, spaces skipped between them: what is read
/// and where the reading ends.
pub open spec fn read_items(f: NarseseFormat<&str>, env: Seq<char>, h: int, m: MidReading, errs: Seq<Seq<char>>) -> Result<
    (MidReading, int),
    ReadError,
>
    decreases missing_items(m), rest_len(env, h),
{
    if !(0 <= h < env.len()) {
        Ok((m, h))
    } else {
        let at = skip_spaces(f, env, h);
        if !(0 <= at < env.len()) {
            Ok((m, at))
        } else {
            match read_one(f, env, at, m, errs) {
                (Ok((next, end)), errs2) => {
                    proof {
                        lemma_skip_spaces_forward(f, env, h);
                    }
                    if missing_items(next) < missing_items(m) || (next == m && end > at) {
                        read_items(f, env, end, next, errs2)
                    } else {
                        Err((Seq::empty(), end))
                    }
                },
                (Err(e), _) => Err(e),
            }
        }
    }
}

/// The attempts that give an item give one that was missing.
pub proof fn lemma_attempt_items_progress(
    f: NarseseFormat<&str>,
    env: Seq<char>,
    start: int,
    head: int,
    m: MidReading,
    errs: Seq<Seq<char>>,
    stage: nat,
)
    ensures
        attempt_items(f, env, start, head, m, errs, stage).0 matches Ok((next, _)) ==> missing_items(next)
            < missing_items(m),
    decreases 5 - stage,
{
    if stage < 5 {
        let res = attempt_items(f, env, start, head, m, errs, stage);
        if stage == 0 {
            match read_budget(f, env, start) {
                Ok(_) => {},
                Err(e) => lemma_attempt_items_progress(f, env, start, e.1, m, errs.push(error_text(env, e)), 1),
            }
            lemma_attempt_items_progress(f, env, start, head, m, errs, 1);
        } else if stage == 1 {
            match read_term(f, env, start) {
                Ok(_) => {},
                Err(e) => lemma_attempt_items_progress(f, env, start, e.1, m, errs.push(error_text(env, e)), 2),
            }
            lemma_attempt_items_progress(f, env, start, head, m, errs, 2);
        } else if stage == 2 {
            match read_punctuation(f, env, start) {
                Ok(_) => {},
                Err(e) => lemma_attempt_items_progress(f, env, start, e.1, m, errs.push(error_text(env, e)), 3),
            }
            lemma_attempt_items_progress(f, env, start, head, m, errs, 3);
        } else if stage == 3 {
            match read_stamp(f, env, start) {
                Ok(_) => {},
                Err(e) => lemma_attempt_items_progress(f, env, start, e.1, m, errs.push(error_text(env, e)), 4),
            }
            lemma_attempt_items_progress(f, env, start, head, m, errs, 4);
        } else {
            match read_truth(f, env, start) {
                Ok(_) => {},
                Err(e) => lemma_attempt_items_progress(f, env, start, e.1, m, errs.push(error_text(env, e)), 5),
            }
            lemma_attempt_items_progress(f, env, start, head, m, errs, 5);
        }
    }
}

/// One item read either fills a missing item or, for a space, moves forward.
pub proof fn lemma_read_one_progress(f: NarseseFormat<&str>, env: Seq<char>, h: int, m: MidReading, errs: Seq<Seq<char>>)
    requires
        f.space.parse@.len() > 0,
    ensures
        read_one(f, env, h, m, errs).0 matches Ok((next, end)) ==> missing_items(next) < missing_items(m)
            || (next == m && end > h),
{
    lemma_attempt_items_progress(f, env, h, h, m, errs, 0);
}

/// The text of an error as the error writes itself.
pub proof fn lemma_error_text(e: ParseError, env: Seq<char>, re: ReadError)
    requires
        error_in(e, env, re),
    ensures
        error_text(env, re) == "Narsese解析错误："@ + e.message()@ + " @ "@ + decimal_text(e.index() as nat)
            + " in "@ + debug_text_of_str(e.env_slice()@),
{
}

/// The reading of the text stops past its end (see [`past_end`]).
pub open spec fn reading_overruns(f: NarseseFormat<&str>, env: Seq<char>) -> bool {
    parse_reading(f, env) matches Err(e) && e.0.len() == 0
}

/// What the parser reads of a text: its items, a term among them; or the error.
pub open spec fn parse_reading(f: NarseseFormat<&str>, env: Seq<char>) -> Result<MidReading, ReadError> {
    match read_items(f, env, 0, no_items(), Seq::empty()) {
        Ok((m, end)) => if m.term is None {
            if beyond_report(env, end) {
                Err(past_end(end))
            } else {
                Err(("词项缺失"@, end))
            }
        } else {
            Ok(m)
        },
        Err(e) => Err(e),
    }
}

} // verus!
