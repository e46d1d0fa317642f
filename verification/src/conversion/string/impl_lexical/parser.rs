//! The parser of lexical Narsese. The text is first made ideal (spaces taken out where the
//! format says so); then a budget is cut from its front, a truth value, a stamp and a
//! punctuation from its back, and what is left is read as a term, recursively: a set, a
//! compound, a statement or else an atom.
//!
//! The reading is stated over character sequences by the specification functions below.
//! Where the reading would step past the end of the text (a bracket or separator of several
//! characters cut off by the end), the specification says [`Reading::Overrun`]; the parser is
//! not called on such texts.
use vstd::prelude::*;
use crate::api::NarseseValue;
use crate::conversion::string::impl_lexical::dicts::{
    agrees_at_start, bi_fix_dict_match_prefix, bi_fixes_of, greatest_suffix, is_greatest_suffix,
    is_longest_prefix, is_prefix, is_suffix, lemma_greatest_suffix, lemma_longest_prefix,
    longest_prefix, starts_with_str, suffix_pair_dict_match, suffix_pairs_of,
    x_fix_dict_match_prefix, x_fix_dict_match_suffix, x_fixes_of,
};
use crate::conversion::string::impl_lexical::format::{class_has, lexical_parse_wf, CharClass, NarseseFormat};
use crate::lexical::{
    narsese_view, Narsese, Sentence, SentenceView, Task, TaskView, Term, TermView,
};
use crate::lexical::term::{lemma_terms_view, term_view, terms_view};
use crate::text::{chars_of, push_char, push_str, string_from_chars, texts};
use crate::conversion::string::impl_enum::parser::{debug_str, debug_text_of_str};

verus! {

// The reading, in specifications //

/// What reading a part of the text gives: a value, a refusal, or a step past the end of
/// the text.
pub enum Reading<T> {
    /// The value read
    Read(T),
    /// The text does not have the part
    Refused,
    /// The reading steps past the end of the text
    Overrun,
}

/// The text with the characters of `class` taken out.
pub open spec fn without_class(class: CharClass, s: Seq<char>) -> Seq<char>
    decreases s.len(),
{
    if s.len() == 0 {
        s
    } else {
        without_class(class, s.drop_last()) + if class_has(class, s.last()) {
            Seq::empty()
        } else {
            seq![s.last()]
        }
    }
}

/// The text made ideal: the spaces taken out where the format says so.
pub open spec fn idealized(f: NarseseFormat, s: Seq<char>) -> Seq<char> {
    if f.space.remove_spaces_before_parse {
        without_class(f.space.is_for_parse, s)
    } else {
        s
    }
}

/// Where the name of an atom that starts at `i` ends: at the first character that is not
/// a name character or that begins a copula, or at the end.
pub open spec fn atom_end(f: NarseseFormat, env: Seq<char>, i: int) -> int
    decreases env.len() - i,
{
    if 0 <= i < env.len() {
        if class_has(f.atom.is_identifier, env[i]) && longest_prefix(
            x_fixes_of(f.statement.copulas),
            env.skip(i),
        ) is None {
            atom_end(f, env, i + 1)
        } else {
            i
        }
    } else {
        env.len() as int
    }
}

/// An atom at the front of `env`: the longest prefix of the format, then the name; the
/// prefix and the name are not both empty.
pub open spec fn seg_atom(f: NarseseFormat, env: Seq<char>) -> Reading<(TermView, int)> {
    match longest_prefix(x_fixes_of(f.atom.prefixes), env) {
        None => Reading::Refused,
        Some(p) => {
            let end = atom_end(f, env, p.len() as int);
            if end <= p.len() && p.len() == 0 {
                Reading::Refused
            } else {
                Reading::Read((TermView::Atom { prefix: p, name: env.subrange(p.len() as int, end) }, end))
            }
        },
    }
}

/// Why an atom could not be read at the front of `env`.
pub open spec fn atom_refusal(f: NarseseFormat, env: Seq<char>) -> Seq<char> {
    if longest_prefix(x_fixes_of(f.atom.prefixes), env) is None {
        "未匹配到原子词项前缀"@
    } else {
        "原子词项名称与前缀不能同时为空"@
    }
}

/// A term at the front of `env`: a set, else a compound, else a statement, else an atom;
/// with where it ends.
pub open spec fn seg_term(f: NarseseFormat, env: Seq<char>) -> Reading<(TermView, int)>
    decreases env.len() as int, 4int, 0int,
{
    match seg_set(f, env) {
        Reading::Refused => match seg_compound(f, env) {
            Reading::Refused => match seg_statement(f, env) {
                Reading::Refused => seg_atom(f, env),
                other => other,
            },
            other => other,
        },
        other => other,
    }
}

/// A set at the front of `env`: set brackets of the format (the longest left one that
/// begins `env`), a first term, then the rest of the items up to its right bracket.
pub open spec fn seg_set(f: NarseseFormat, env: Seq<char>) -> Reading<(TermView, int)>
    decreases env.len() as int, 3int, 0int,
{
    let brackets = bi_fixes_of(f.compound.set_brackets);
    match longest_prefix(brackets.dom(), env) {
        None => Reading::Refused,
        Some(left) => {
            let right = brackets[left];
            if !(0 < left.len() <= env.len()) {
                Reading::Refused
            } else {
                match seg_term(f, env.skip(left.len() as int)) {
                    Reading::Read((t, l)) => match items_loop(f, env, left.len() + l, right) {
                        Reading::Read((ts, end)) => Reading::Read(
                            (
                                TermView::TermSet {
                                    left_bracket: left,
                                    terms: seq![t] + ts,
                                    right_bracket: right,
                                },
                                end,
                            ),
                        ),
                        Reading::Refused => Reading::Refused,
                        Reading::Overrun => Reading::Overrun,
                    },
                    Reading::Refused => Reading::Refused,
                    Reading::Overrun => Reading::Overrun,
                }
            }
        },
    }
}

/// A compound at the front of `env`: the left bracket, the longest connector that follows
/// it, then the items up to the right bracket.
pub open spec fn seg_compound(f: NarseseFormat, env: Seq<char>) -> Reading<(TermView, int)>
    decreases env.len() as int, 3int, 0int,
{
    let left = f.compound.brackets.0@;
    if !is_prefix(left, env) || left.len() == 0 {
        Reading::Refused
    } else {
        match longest_prefix(x_fixes_of(f.compound.connecters), env.skip(left.len() as int)) {
            None => Reading::Refused,
            Some(c) => match items_loop(f, env, (left.len() + c.len()) as int, f.compound.brackets.1@) {
                Reading::Read((ts, end)) => Reading::Read(
                    (TermView::Compound { connecter: c, terms: ts }, end),
                ),
                Reading::Refused => Reading::Refused,
                Reading::Overrun => Reading::Overrun,
            },
        }
    }
}

/// The items of a set or compound from `pos` of `env` on: until the right bracket, a term
/// after each optional separator; the terms and where the right bracket ends.
pub open spec fn items_loop(f: NarseseFormat, env: Seq<char>, pos: int, right: Seq<char>) -> Reading<
    (Seq<TermView>, int),
>
    decreases env.len() as int, 2int, env.len() - pos,
{
    if pos > env.len() {
        Reading::Overrun
    } else if pos < 1 {
        Reading::Refused
    } else if agrees_at_start(env.skip(pos), right) {
        Reading::Read((Seq::empty(), pos + right.len()))
    } else {
        let sep = f.compound.separator@;
        let at = if agrees_at_start(env.skip(pos), sep) {
            pos + sep.len()
        } else {
            pos
        };
        if at > env.len() {
            Reading::Overrun
        } else {
            match seg_term(f, env.skip(at)) {
                Reading::Read((t, l)) => if l < 1 {
                    Reading::Refused
                } else if at + l > env.len() {
                    Reading::Overrun
                } else {
                    match items_loop(f, env, at + l, right) {
                        Reading::Read((ts, end)) => Reading::Read((seq![t] + ts, end)),
                        Reading::Refused => Reading::Refused,
                        Reading::Overrun => Reading::Overrun,
                    }
                },
                Reading::Refused => Reading::Refused,
                Reading::Overrun => Reading::Overrun,
            }
        }
    }
}

/// A statement at the front of `env`: the left bracket, a subject, the longest copula
/// that follows, a predicate and the right bracket.
pub open spec fn seg_statement(f: NarseseFormat, env: Seq<char>) -> Reading<(TermView, int)>
    decreases env.len() as int, 3int, 0int,
{
    let left = f.statement.brackets.0@;
    let right = f.statement.brackets.1@;
    if !is_prefix(left, env) || left.len() == 0 {
        Reading::Refused
    } else {
        match seg_term(f, env.skip(left.len() as int)) {
            Reading::Read((s, l)) => {
                let cs = left.len() + l;
                if l < 1 {
                    Reading::Refused
                } else if cs > env.len() {
                    Reading::Overrun
                } else {
                    match longest_prefix(x_fixes_of(f.statement.copulas), env.skip(cs)) {
                        None => Reading::Refused,
                        Some(c) => {
                            let ps = cs + c.len();
                            if ps > env.len() {
                                Reading::Refused
                            } else {
                                match seg_term(f, env.skip(ps)) {
                                    Reading::Read((p, l2)) => {
                                        let rs = ps + l2;
                                        if rs > env.len() {
                                            Reading::Overrun
                                        } else if agrees_at_start(env.skip(rs), right) {
                                            Reading::Read(
                                                (
                                                    TermView::Statement {
                                                        copula: c,
                                                        subject: Box::new(s),
                                                        predicate: Box::new(p),
                                                    },
                                                    rs + right.len(),
                                                ),
                                            )
                                        } else {
                                            Reading::Refused
                                        }
                                    },
                                    Reading::Refused => Reading::Refused,
                                    Reading::Overrun => Reading::Overrun,
                                }
                            }
                        },
                    }
                }
            },
            Reading::Refused => Reading::Refused,
            Reading::Overrun => Reading::Overrun,
        }
    }
}

/// From `i` on: the end of `right` where it begins the rest, after characters of `class`
/// only; none where another character or the end of `env` comes first.
pub open spec fn scan_prefix(env: Seq<char>, i: int, right: Seq<char>, class: CharClass) -> Option<int>
    decreases env.len() - i,
{
    if i < 0 || i >= env.len() {
        None
    } else if is_prefix(right, env.skip(i)) {
        Some(i + right.len())
    } else if class_has(class, env[i]) {
        scan_prefix(env, i + 1, right, class)
    } else {
        None
    }
}

/// Backwards from `end`: the start of `left` where it ends what comes before, after
/// characters of `class` only; none where another character or the start of `env` comes
/// first.
pub open spec fn scan_suffix(env: Seq<char>, end: int, left: Seq<char>, class: CharClass) -> Option<int>
    decreases end,
{
    if end < 0 || end > env.len() {
        None
    } else if is_suffix(left, env.take(end)) {
        Some(end - left.len())
    } else if end == 0 {
        None
    } else if class_has(class, env[end - 1]) {
        scan_suffix(env, end - 1, left, class)
    } else {
        None
    }
}

/// The brackets `left`, `right` around characters of `class` at the end of `env`: the
/// text from the left bracket on, and where it starts.
pub open spec fn bracket_suffix(env: Seq<char>, left: Seq<char>, right: Seq<char>, class: CharClass) -> Option<(Seq<char>, int)> {
    if !is_suffix(right, env) {
        None
    } else {
        let content = env.take(env.len() - right.len());
        match scan_suffix(content, content.len() as int, left, class) {
            Some(start) => Some((env.skip(start), start)),
            None => None,
        }
    }
}

/// `s` with `p` taken from its front as often as it begins it (`str::trim_start_matches`;
/// an empty `p` takes nothing).
pub open spec fn trim_start(s: Seq<char>, p: Seq<char>) -> Seq<char>
    decreases s.len(),
{
    if p.len() > 0 && is_prefix(p, s) {
        trim_start(s.skip(p.len() as int), p)
    } else {
        s
    }
}

/// `s` with `p` taken from its end as often as it ends it (`str::trim_end_matches`; an
/// empty `p` takes nothing).
pub open spec fn trim_end(s: Seq<char>, p: Seq<char>) -> Seq<char>
    decreases s.len(),
{
    if p.len() > 0 && is_suffix(p, s) {
        trim_end(s.take(s.len() - p.len()), p)
    } else {
        s
    }
}

/// The piece of `s` from `a` to `b`, if it is not empty.
pub open spec fn piece(s: Seq<char>, a: int, b: int) -> Seq<Seq<char>> {
    if a < b {
        seq![s.subrange(a, b)]
    } else {
        Seq::empty()
    }
}

/// The nonempty pieces of `s` between the occurrences of `sep` (not empty), found from the
/// left, the current piece starting at `start` and the search at `i`.
pub open spec fn split_scan(s: Seq<char>, sep: Seq<char>, start: int, i: int) -> Seq<Seq<char>>
    decreases s.len() - i,
{
    if sep.len() == 0 || i < 0 || i >= s.len() {
        piece(s, start, s.len() as int)
    } else if is_prefix(sep, s.skip(i)) {
        piece(s, start, i) + split_scan(s, sep, i + sep.len(), i + sep.len())
    } else {
        split_scan(s, sep, start, i + 1)
    }
}

/// The nonempty pieces of `s` between the occurrences of `sep` (`str::split` without the
/// empty pieces): each character alone where `sep` is empty.
pub open spec fn split_nonempty(s: Seq<char>, sep: Seq<char>) -> Seq<Seq<char>> {
    if sep.len() == 0 {
        Seq::new(s.len(), |k: int| seq![s[k]])
    } else {
        split_scan(s, sep, 0, 0)
    }
}

/// The strings of a budget or truth value inside its brackets: the brackets trimmed, then
/// split at the separator.
pub open spec fn inner_values(s: Seq<char>, brackets: (Seq<char>, Seq<char>), sep: Seq<char>) -> Seq<Seq<char>> {
    split_nonempty(trim_end(trim_start(s, brackets.0), brackets.1), sep)
}

/// A budget at the front of `env`: its strings and where it ends.
pub open spec fn seg_budget(f: NarseseFormat, env: Seq<char>) -> Option<(Seq<Seq<char>>, int)> {
    let brackets = (f.task.budget_brackets.0@, f.task.budget_brackets.1@);
    if !is_prefix(brackets.0, env) {
        None
    } else {
        match scan_prefix(env, brackets.0.len() as int, brackets.1, f.task.is_budget_content) {
            Some(end) => Some(
                (inner_values(env.take(end), brackets, f.task.budget_separator@), end),
            ),
            None => None,
        }
    }
}

/// A truth value at the end of `env`: its strings and where it starts.
pub open spec fn seg_truth(f: NarseseFormat, env: Seq<char>) -> Option<(Seq<Seq<char>>, int)> {
    let brackets = (f.sentence.truth_brackets.0@, f.sentence.truth_brackets.1@);
    match bracket_suffix(env, brackets.0, brackets.1, f.sentence.is_truth_content) {
        Some((s, start)) => Some((inner_values(s, brackets, f.sentence.truth_separator@), start)),
        None => None,
    }
}

/// A stamp at the end of `env` (its brackets those of the greatest right bracket that ends
/// `env`): its text and where it starts.
pub open spec fn seg_stamp(f: NarseseFormat, env: Seq<char>) -> Option<(Seq<char>, int)> {
    let pairs = suffix_pairs_of(f.sentence.stamp_brackets);
    match greatest_suffix(pairs.dom(), env) {
        Some(right) => bracket_suffix(env, pairs[right], right, f.sentence.is_stamp_content),
        None => None,
    }
}

/// A punctuation at the end of `env` (the greatest that ends it): itself and where it
/// starts.
pub open spec fn seg_punctuation(f: NarseseFormat, env: Seq<char>) -> Option<(Seq<char>, int)> {
    match greatest_suffix(x_fixes_of(f.sentence.punctuations), env) {
        Some(p) => Some((p, env.len() - p.len())),
        None => None,
    }
}

/// What the reader finds in a text, in specifications.
pub struct MidView {
    /// The strings of the budget
    pub budget: Option<Seq<Seq<char>>>,
    /// The term
    pub term: Option<TermView>,
    /// The punctuation
    pub punctuation: Option<Seq<char>>,
    /// The stamp
    pub stamp: Option<Seq<char>>,
    /// The strings of the truth value
    pub truth: Option<Seq<Seq<char>>>,
}

/// Where the term lies in an ideal text: after the budget, before the punctuation, stamp
/// and truth value.
pub open spec fn term_span(f: NarseseFormat, env: Seq<char>) -> (int, int) {
    let begin = match seg_budget(f, env) {
        Some((_, end)) => end,
        None => 0,
    };
    let b1 = match seg_truth(f, env) {
        Some((_, start)) => start,
        None => env.len() as int,
    };
    let b2 = match seg_stamp(f, env.take(b1)) {
        Some((_, start)) => start,
        None => b1,
    };
    let b3 = match seg_punctuation(f, env.take(b2)) {
        Some((_, start)) => start,
        None => b2,
    };
    (begin, b3)
}

/// The items of an ideal text: budget, truth value, stamp and punctuation cut from its
/// ends, the term read from what lies between (none where nothing does).
pub open spec fn items_reading(f: NarseseFormat, env: Seq<char>) -> Reading<MidView> {
    let (begin, end) = term_span(f, env);
    let b1 = match seg_truth(f, env) {
        Some((_, start)) => start,
        None => env.len() as int,
    };
    let b2 = match seg_stamp(f, env.take(b1)) {
        Some((_, start)) => start,
        None => b1,
    };
    let parts = |term: Option<TermView>|
        MidView {
            budget: match seg_budget(f, env) {
                Some((v, _)) => Some(v),
                None => None,
            },
            term,
            punctuation: match seg_punctuation(f, env.take(b2)) {
                Some((p, _)) => Some(p),
                None => None,
            },
            stamp: match seg_stamp(f, env.take(b1)) {
                Some((s, _)) => Some(s),
                None => None,
            },
            truth: match seg_truth(f, env) {
                Some((v, _)) => Some(v),
                None => None,
            },
        };
    if begin > end {
        Reading::Overrun
    } else if begin < end {
        match seg_term(f, env.subrange(begin, end)) {
            Reading::Read((t, _)) => Reading::Read(parts(Some(t))),
            Reading::Refused => Reading::Refused,
            Reading::Overrun => Reading::Overrun,
        }
    } else {
        Reading::Read(parts(None))
    }
}

/// What the items make: a task where there are a term, a punctuation and a budget, a
/// sentence where there are a term and a punctuation, a term where there is a term alone;
/// a missing stamp is empty, a missing truth value has no strings.
pub open spec fn fold_view(m: MidView) -> Option<NarseseValue<TermView, SentenceView, TaskView>> {
    match m.term {
        None => None,
        Some(term) => match m.punctuation {
            None => Some(NarseseValue::Term(term)),
            Some(punctuation) => {
                let sentence = SentenceView {
                    term,
                    punctuation,
                    stamp: match m.stamp {
                        Some(s) => s,
                        None => Seq::empty(),
                    },
                    truth: match m.truth {
                        Some(v) => v,
                        None => Seq::empty(),
                    },
                };
                match m.budget {
                    Some(budget) => Some(NarseseValue::Task(TaskView { budget, sentence })),
                    None => Some(NarseseValue::Sentence(sentence)),
                }
            },
        },
    }
}

/// What parsing an ideal text gives: the term, sentence or task; or the message and the
/// text of the error.
pub open spec fn parse_outcome(f: NarseseFormat, env: Seq<char>) -> Result<
    NarseseValue<TermView, SentenceView, TaskView>,
    (Seq<char>, Seq<char>),
> {
    match items_reading(f, env) {
        Reading::Read(m) => match fold_view(m) {
            Some(n) => Ok(n),
            None => Err(("缺省条目，无法解析成词项/语句/任务"@, env)),
        },
        _ => {
            let (begin, end) = term_span(f, env);
            let term_env = env.subrange(begin, end);
            Err((atom_refusal(f, term_env), term_env))
        },
    }
}


// Reading characters //

/// Whether `p` begins `env` from `i` on.
fn has_prefix_at(env: &[char], i: usize, p: &[char]) -> (b: bool)
    requires
        i <= env@.len(),
    ensures
        b == is_prefix(p@, env@.skip(i as int)),
{
    if p.len() > env.len() - i {
        return false;
    }
    let n = env.len();
    let mut k: usize = 0;
    while k < p.len()
        invariant
            n == env@.len(),
            i + p@.len() <= env@.len(),
            k <= p@.len(),
            forall|j: int| 0 <= j < k ==> env@[i + j] == p@[j],
        decreases p.len() - k,
    {
        if env[i + k] != p[k] {
            assert(env@.skip(i as int).take(p@.len() as int)[k as int] != p@[k as int]);
            return false;
        }
        k += 1;
    }
    assert(env@.skip(i as int).take(p@.len() as int) =~= p@);
    true
}

/// Whether `x` ends the part of `env` from `a` to `b`.
fn has_suffix_between(env: &[char], a: usize, b: usize, x: &[char]) -> (r: bool)
    requires
        a <= b <= env@.len(),
    ensures
        r == is_suffix(x@, env@.subrange(a as int, b as int)),
{
    if x.len() > b - a {
        return false;
    }
    let start = b - x.len();
    let mut k: usize = 0;
    while k < x.len()
        invariant
            a <= start,
            start + x@.len() == b,
            b <= env@.len(),
            k <= x@.len(),
            forall|j: int| 0 <= j < k ==> env@[start + j] == x@[j],
        decreases x.len() - k,
    {
        if env[start + k] != x[k] {
            assert(env@.subrange(a as int, b as int).skip(b - a - x@.len())[k as int] != x@[k as int]);
            return false;
        }
        k += 1;
    }
    assert(env@.subrange(a as int, b as int).skip(b - a - x@.len()) =~= x@);
    true
}

/// The bounds of `s` with `p` trimmed from its front, then `q` from its end.
fn trim_bounds(s: &[char], p: &[char], q: &[char]) -> (r: (usize, usize))
    ensures
        r.0 <= r.1 <= s@.len(),
        s@.subrange(r.0 as int, r.1 as int) == trim_end(trim_start(s@, p@), q@),
{
    let n = s.len();
    let mut a: usize = 0;
    assert(s@.skip(0) =~= s@);
    while p.len() > 0 && has_prefix_at(s, a, p)
        invariant
            n == s@.len(),
            a <= s@.len(),
            trim_start(s@, p@) == trim_start(s@.skip(a as int), p@),
        decreases s@.len() - a,
    {
        proof {
            assert(s@.skip(a as int).skip(p@.len() as int) =~= s@.skip(a + p@.len()));
        }
        a += p.len();
    }
    let ghost t = s@.skip(a as int);
    assert(trim_start(s@, p@) == t);
    let mut b: usize = s.len();
    assert(s@.subrange(a as int, b as int) =~= t);
    while q.len() > 0 && has_suffix_between(s, a, b, q)
        invariant
            a <= b <= s@.len(),
            trim_end(t, q@) == trim_end(s@.subrange(a as int, b as int), q@),
        decreases b,
    {
        proof {
            assert(s@.subrange(a as int, b as int).take(b - a - q@.len()) =~= s@.subrange(
                a as int,
                b - q@.len(),
            ));
        }
        b -= q.len();
    }
    (a, b)
}

/// The nonempty pieces of `s` between the occurrences of `sep` (see [`split_nonempty`]).
fn split_pieces(s: &[char], sep: &[char]) -> (res: Vec<String>)
    ensures
        texts(res@) == split_nonempty(s@, sep@),
{
    let mut res: Vec<String> = Vec::new();
    if sep.len() == 0 {
        let mut k: usize = 0;
        while k < s.len()
            invariant
                k <= s@.len(),
                texts(res@) =~= Seq::new(k as nat, |j: int| seq![s@[j]]),
            decreases s.len() - k,
        {
            let mut one = String::new();
            push_char(&mut one, s[k]);
            let ghost before = res@;
            res.push(one);
            proof {
                assert(one@ =~= seq![s@[k as int]]);
                assert(texts(res@) =~= texts(before).push(one@));
            }
            k += 1;
        }
        return res;
    }
    let mut start: usize = 0;
    let mut i: usize = 0;
    while i < s.len()
        invariant
            start <= i <= s@.len(),
            sep@.len() > 0,
            texts(res@) + split_scan(s@, sep@, start as int, i as int) == split_scan(s@, sep@, 0, 0),
        decreases s.len() - i,
    {
        if has_prefix_at(s, i, sep) {
            let ghost before = res@;
            if start < i {
                res.push(string_from_chars(&s[start..i]));
            }
            proof {
                assert(texts(res@) =~= texts(before) + piece(s@, start as int, i as int));
                assert(texts(res@) + split_scan(s@, sep@, i + sep@.len(), i + sep@.len()) =~= texts(before)
                    + split_scan(s@, sep@, start as int, i as int));
            }
            i += sep.len();
            start = i;
        } else {
            i += 1;
        }
    }
    let ghost before = res@;
    if start < s.len() {
        res.push(string_from_chars(&s[start..s.len()]));
    }
    proof {
        assert(texts(res@) =~= texts(before) + piece(s@, start as int, s@.len() as int));
    }
    res
}

// The dictionaries of the format, as functions of the text //

/// The longest string of the dictionary that begins `s`.
fn match_prefix_in(d: &nar_dev_utils::XFixMatchDict, s: &[char]) -> (r: Option<String>)
    ensures
        match r {
            Some(p) => longest_prefix(x_fixes_of(*d), s@) == Some(p@),
            None => longest_prefix(x_fixes_of(*d), s@) is None,
        },
{
    let r = x_fix_dict_match_prefix(d, s);
    proof {
        lemma_longest_prefix(
            x_fixes_of(*d),
            s@,
            if r is Some {
                Some(r->Some_0@)
            } else {
                None
            },
        );
    }
    r
}

/// The greatest string of the dictionary that ends `s`.
fn match_suffix_in(d: &nar_dev_utils::XFixMatchDict, s: &[char]) -> (r: Option<String>)
    ensures
        match r {
            Some(x) => greatest_suffix(x_fixes_of(*d), s@) == Some(x@),
            None => greatest_suffix(x_fixes_of(*d), s@) is None,
        },
{
    let r = x_fix_dict_match_suffix(d, s);
    proof {
        lemma_greatest_suffix(
            x_fixes_of(*d),
            s@,
            if r is Some {
                Some(r->Some_0@)
            } else {
                None
            },
        );
    }
    r
}

/// The set brackets whose left bracket is the longest that begins `s`: (left, right).
fn match_set_brackets(d: &nar_dev_utils::BiFixMatchDictPair, s: &[char]) -> (r: Option<(String, String)>)
    ensures
        match r {
            Some((left, right)) => longest_prefix(bi_fixes_of(*d).dom(), s@) == Some(left@)
                && bi_fixes_of(*d)[left@] == right@,
            None => longest_prefix(bi_fixes_of(*d).dom(), s@) is None,
        },
{
    let r = bi_fix_dict_match_prefix(d, s);
    proof {
        lemma_longest_prefix(
            bi_fixes_of(*d).dom(),
            s@,
            if r is Some {
                Some(r->Some_0.0@)
            } else {
                None
            },
        );
    }
    r
}

/// The brackets whose right bracket is the greatest that ends `s`: (left, right).
fn match_stamp_brackets(d: &nar_dev_utils::SuffixMatchDictPair<String>, s: &[char]) -> (r: Option<(String, String)>)
    ensures
        match r {
            Some((left, right)) => greatest_suffix(suffix_pairs_of(*d).dom(), s@) == Some(right@)
                && suffix_pairs_of(*d)[right@] == left@,
            None => greatest_suffix(suffix_pairs_of(*d).dom(), s@) is None,
        },
{
    let r = suffix_pair_dict_match(d, s);
    proof {
        lemma_greatest_suffix(
            suffix_pairs_of(*d).dom(),
            s@,
            if r is Some {
                Some(r->Some_0.1@)
            } else {
                None
            },
        );
    }
    r
}


// What the reader finds, and its errors //

/// The strings of an optional string list.
pub open spec fn opt_texts(o: Option<Vec<String>>) -> Option<Seq<Seq<char>>> {
    match o {
        Some(v) => Some(texts(v@)),
        None => None,
    }
}

/// The text of an optional string.
pub open spec fn opt_text(o: Option<String>) -> Option<Seq<char>> {
    match o {
        Some(s) => Some(s@),
        None => None,
    }
}

/// The view of an optional term.
pub open spec fn opt_term(o: Option<Term>) -> Option<TermView> {
    match o {
        Some(t) => Some(t@),
        None => None,
    }
}

/// What the reader finds in a text: each item where there is one.
#[derive(Debug, Clone)]
pub struct MidParseResult {
    /// The budget
    pub budget: Option<Vec<String>>,
    /// The term
    pub term: Option<Term>,
    /// The punctuation
    pub punctuation: Option<String>,
    /// The stamp
    pub stamp: Option<String>,
    /// The truth value
    pub truth: Option<Vec<String>>,
}

impl View for MidParseResult {
    type V = MidView;

    open spec fn view(&self) -> MidView {
        MidView {
            budget: opt_texts(self.budget),
            term: opt_term(self.term),
            punctuation: opt_text(self.punctuation),
            stamp: opt_text(self.stamp),
            truth: opt_texts(self.truth),
        }
    }
}

impl MidParseResult {
    /// What the items make (see [`fold_view`]): a task, a sentence or a term; none where
    /// there is no term.
    pub fn fold(self) -> (r: Option<Narsese>)
        ensures
            match r {
                Some(n) => fold_view(self@) == Some(narsese_view(n)),
                None => fold_view(self@) is None,
            },
    {
        let ghost v = self@;
        match self.term {
            None => None,
            Some(term) => match self.punctuation {
                None => Some(NarseseValue::Term(term)),
                Some(punctuation) => {
                    let stamp = match self.stamp {
                        Some(s) => s,
                        None => String::new(),
                    };
                    let truth = match self.truth {
                        Some(t) => t,
                        None => Vec::new(),
                    };
                    proof {
                        assert(texts(truth@) =~= match v.truth {
                            Some(t) => t,
                            None => Seq::<Seq<char>>::empty(),
                        });
                    }
                    let sentence = Sentence { term, punctuation, stamp, truth };
                    match self.budget {
                        Some(budget) => Some(NarseseValue::Task(Task { budget, sentence })),
                        None => Some(NarseseValue::Sentence(sentence)),
                    }
                },
            },
        }
    }
}

/// An error of parsing: what went wrong and the text that it went wrong in.
#[derive(Debug, Clone)]
pub struct ParseError {
    message: String,
    env_scope: String,
}

impl ParseError {
    /// The text that the error shows: the whole of `env`.
    fn generate_env_scope(env: &[char]) -> (s: String)
        ensures
            s@ == env@,
    {
        string_from_chars(env)
    }

    /// An error with a message, in the text `env`.
    pub fn new(message: &str, env: &[char]) -> (e: ParseError)
        ensures
            e.message()@ == message@,
            e.env_scope()@ == env@,
    {
        ParseError { message: message.to_string(), env_scope: ParseError::generate_env_scope(env) }
    }

    /// What went wrong, in specifications.
    pub closed spec fn message(&self) -> String {
        self.message
    }

    /// The text that it went wrong in, in specifications.
    pub closed spec fn env_scope(&self) -> String {
        self.env_scope
    }

    /// What went wrong.
    pub fn get_message(&self) -> (m: &str)
        ensures
            m@ == self.message()@,
    {
        self.message.as_str()
    }

    /// The text that it went wrong in.
    pub fn get_env_scope(&self) -> (m: &str)
        ensures
            m@ == self.env_scope()@,
    {
        self.env_scope.as_str()
    }

    /// The description of the error: `Narsese解析错误：`, the message, ` in `, and the
    /// text as std's `Debug` writes a string.
    pub fn to_text(&self) -> (s: String)
        ensures
            s@ == "Narsese解析错误："@ + self.message()@ + " in "@ + debug_text_of_str(self.env_scope()@),
    {
        let mut s = String::new();
        push_str(&mut s, "Narsese解析错误：");
        push_str(&mut s, self.message.as_str());
        push_str(&mut s, " in ");
        let debug = debug_str(self.env_scope.as_str());
        push_str(&mut s, debug.as_str());
        s
    }
}

/// The parse of a text: its items where the reading goes through, or the error.
pub type ParseResult<T> = Result<T, ParseError>;

/// Turns an optional pair into its first part, with the second part or a default.
pub trait RightUnwrapOr<T, U>: Sized {
    /// `(Some(t), u)` from `Some((t, u))`, and `(None, default_u)` from `None`.
    fn right_unwrap_or(self, default_u: U) -> (Option<T>, U);
}

impl<T, U> RightUnwrapOr<T, U> for Option<(T, U)> {
    fn right_unwrap_or(self, default_u: U) -> (r: (Option<T>, U))
        ensures
            r == (match self {
                Some((t, u)) => (Some(t), u),
                None => (None, default_u),
            }),
    {
        match self {
            Some((t, u)) => (Some(t), u),
            None => (None, default_u),
        }
    }
}


// The reader //

/// The optional value read from the text, with the position that it gives.
pub open spec fn opt_values_at(o: Option<(Vec<String>, usize)>) -> Option<(Seq<Seq<char>>, int)> {
    match o {
        Some((v, i)) => Some((texts(v@), i as int)),
        None => None,
    }
}

/// The optional string read from the text, with the position that it gives.
pub open spec fn opt_text_at(o: Option<(String, usize)>) -> Option<(Seq<char>, int)> {
    match o {
        Some((s, i)) => Some((s@, i as int)),
        None => None,
    }
}

/// The view of a term read with its end.
pub open spec fn term_reading(r: Reading<(Term, usize)>) -> Reading<(TermView, int)> {
    match r {
        Reading::Read((t, l)) => Reading::Read((t@, l as int)),
        Reading::Refused => Reading::Refused,
        Reading::Overrun => Reading::Overrun,
    }
}

/// The state of a reading: the format that it follows.
pub struct ParseState<'a> {
    /// The format
    pub format: &'a NarseseFormat,
}

impl<'a> ParseState<'a> {
    /// A reading that follows `format`.
    pub fn new(format: &'a NarseseFormat) -> (s: Self)
        ensures
            s.format == format,
    {
        ParseState { format }
    }

    /// An error with a message in `env`.
    pub fn parse_error(&self, env: &[char], message: &str) -> (e: ParseError)
        ensures
            e.message()@ == message@,
            e.env_scope()@ == env@,
    {
        ParseError::new(message, env)
    }

    /// The error with a message in `env`, as a result.
    pub fn err<T>(&self, env: &[char], message: &str) -> (r: ParseResult<T>)
        ensures
            r matches Err(e) && e.message()@ == message@ && e.env_scope()@ == env@,
    {
        Err(self.parse_error(env, message))
    }

    /// From `start` on: the end of `right` where it begins the rest, after characters of
    /// `class` only (see [`scan_prefix`]).
    fn segment_some_prefix(&self, env: &[char], start: usize, right: &[char], class: &CharClass) -> (r: Option<usize>)
        ensures
            match r {
                Some(end) => scan_prefix(env@, start as int, right@, *class) == Some(end as int),
                None => scan_prefix(env@, start as int, right@, *class) is None,
            },
            r matches Some(end) ==> end <= env@.len(),
    {
        let mut i = start;
        while i < env.len()
            invariant
                start <= i,
                scan_prefix(env@, start as int, right@, *class) == scan_prefix(env@, i as int, right@, *class),
            decreases env@.len() - i,
        {
            if has_prefix_at(env, i, right) {
                return Some(i + right.len());
            }
            if class.has(env[i]) {
                i += 1;
            } else {
                return None;
            }
        }
        None
    }

    /// Backwards from `end`: the start of `left` where it ends what comes before, after
    /// characters of `class` only (see [`scan_suffix`]).
    fn segment_some_suffix(&self, env: &[char], end: usize, left: &[char], class: &CharClass) -> (r: Option<usize>)
        requires
            end <= env@.len(),
        ensures
            match r {
                Some(start) => scan_suffix(env@, end as int, left@, *class) == Some(start as int),
                None => scan_suffix(env@, end as int, left@, *class) is None,
            },
            r matches Some(start) ==> start <= end,
    {
        let mut right_border = end;
        loop
            invariant
                right_border <= end <= env@.len(),
                scan_suffix(env@, end as int, left@, *class) == scan_suffix(env@, right_border as int, left@, *class),
            decreases right_border,
        {
            if has_suffix_between(env, 0, right_border, left) {
                proof {
                    assert(env@.subrange(0, right_border as int) =~= env@.take(right_border as int));
                }
                return Some(right_border - left.len());
            }
            proof {
                assert(env@.subrange(0, right_border as int) =~= env@.take(right_border as int));
            }
            if right_border == 0 {
                return None;
            }
            if class.has(env[right_border - 1]) {
                right_border -= 1;
            } else {
                return None;
            }
        }
    }

    /// The brackets `left`, `right` around characters of `class` at the end of `env`
    /// (see [`bracket_suffix`]); `right` ends `env`.
    fn segment_brackets_suffix(&self, env: &[char], left: &str, right: &str, class: &CharClass) -> (r: Option<(String, usize)>)
        requires
            is_suffix(right@, env@),
        ensures
            opt_text_at(r) == bracket_suffix(env@, left@, right@, *class),
            r matches Some((_, start)) ==> start <= env@.len(),
    {
        let left_chars = chars_of(left);
        let content_end = env.len() - right.unicode_len();
        let content = &env[0..content_end];
        let result = self.segment_some_suffix(content, content.len(), left_chars.as_slice(), class);
        proof {
            assert(content@ =~= env@.take(env@.len() - right@.len()));
        }
        match result {
            Some(left_border) => {
                let text = string_from_chars(&env[left_border..env.len()]);
                proof {
                    assert(env@.subrange(left_border as int, env@.len() as int) =~= env@.skip(left_border as int));
                }
                Some((text, left_border))
            },
            None => None,
        }
    }

    /// The budget at the front of `env` (see [`seg_budget`]).
    pub fn segment_budget(&self, env: &[char]) -> (r: Option<(Vec<String>, usize)>)
        ensures
            opt_values_at(r) == seg_budget(*self.format, env@),
            r matches Some((_, end)) ==> end <= env@.len(),
    {
        let left = chars_of(self.format.task.budget_brackets.0.as_str());
        let right = chars_of(self.format.task.budget_brackets.1.as_str());
        proof {
            assert(env@.skip(0) =~= env@);
        }
        if !has_prefix_at(env, 0, left.as_slice()) {
            return None;
        }
        let end = match self.segment_some_prefix(env, left.len(), right.as_slice(), &self.format.task.is_budget_content) {
            Some(end) => end,
            None => return None,
        };
        let whole = &env[0..end];
        let (a, b) = trim_bounds(whole, left.as_slice(), right.as_slice());
        let sep = chars_of(self.format.task.budget_separator.as_str());
        let values = split_pieces(&whole[a..b], sep.as_slice());
        proof {
            assert(whole@ =~= env@.take(end as int));
        }
        Some((values, end))
    }

    /// The truth value at the end of `env` (see [`seg_truth`]).
    pub fn segment_truth(&self, env: &[char]) -> (r: Option<(Vec<String>, usize)>)
        ensures
            opt_values_at(r) == seg_truth(*self.format, env@),
            r matches Some((_, start)) ==> start <= env@.len(),
    {
        let left = self.format.sentence.truth_brackets.0.as_str();
        let right = self.format.sentence.truth_brackets.1.as_str();
        let right_chars = chars_of(right);
        proof {
            assert(env@.subrange(0, env@.len() as int) =~= env@);
        }
        if !has_suffix_between(env, 0, env.len(), right_chars.as_slice()) {
            return None;
        }
        let (text, start) = match self.segment_brackets_suffix(env, left, right, &self.format.sentence.is_truth_content) {
            Some(found) => found,
            None => return None,
        };
        let chars = chars_of(text.as_str());
        let left_chars = chars_of(left);
        let (a, b) = trim_bounds(chars.as_slice(), left_chars.as_slice(), right_chars.as_slice());
        let sep = chars_of(self.format.sentence.truth_separator.as_str());
        let values = split_pieces(&chars[a..b], sep.as_slice());
        Some((values, start))
    }

    /// The stamp at the end of `env` (see [`seg_stamp`]).
    pub fn segment_stamp(&self, env: &[char]) -> (r: Option<(String, usize)>)
        ensures
            opt_text_at(r) == seg_stamp(*self.format, env@),
            r matches Some((_, start)) ==> start <= env@.len(),
    {
        match match_stamp_brackets(&self.format.sentence.stamp_brackets, env) {
            Some((left, right)) => {
                proof {
                    let x = choose|x: Seq<char>| is_greatest_suffix(suffix_pairs_of(self.format.sentence.stamp_brackets).dom(), env@, x);
                    assert(is_greatest_suffix(suffix_pairs_of(self.format.sentence.stamp_brackets).dom(), env@, x));
                }
                self.segment_brackets_suffix(env, left.as_str(), right.as_str(), &self.format.sentence.is_stamp_content)
            },
            None => None,
        }
    }

    /// The punctuation at the end of `env` (see [`seg_punctuation`]).
    pub fn segment_punctuation(&self, env: &[char]) -> (r: Option<(String, usize)>)
        ensures
            opt_text_at(r) == seg_punctuation(*self.format, env@),
            r matches Some((_, start)) ==> start <= env@.len(),
    {
        let punctuation = match match_suffix_in(&self.format.sentence.punctuations, env) {
            Some(p) => p,
            None => return None,
        };
        proof {
            let x = choose|x: Seq<char>| is_greatest_suffix(x_fixes_of(self.format.sentence.punctuations), env@, x);
            assert(is_greatest_suffix(x_fixes_of(self.format.sentence.punctuations), env@, x));
        }
        let start = env.len() - punctuation.as_str().unicode_len();
        Some((punctuation, start))
    }
}


impl<'a> ParseState<'a> {
    /// Whether the name of an atom goes on at `i`: a name character that begins no copula.
    fn continues_atom(&self, env: &[char], i: usize) -> (b: bool)
        requires
            i < env@.len(),
        ensures
            b == (class_has(self.format.atom.is_identifier, env@[i as int]) && longest_prefix(
                x_fixes_of(self.format.statement.copulas),
                env@.skip(i as int),
            ) is None),
    {
        if !self.format.atom.is_identifier.has(env[i]) {
            return false;
        }
        let rest = &env[i..env.len()];
        proof {
            assert(rest@ =~= env@.skip(i as int));
        }
        match_prefix_in(&self.format.statement.copulas, rest).is_none()
    }

    /// The atom at the front of `env` (see [`seg_atom`]), or why there is none.
    fn segment_atom(&self, env: &[char]) -> (r: ParseResult<(Term, usize)>)
        ensures
            match r {
                Ok((t, l)) => seg_atom(*self.format, env@) == Reading::Read((t@, l as int)) && 1 <= l
                    <= env@.len(),
                Err(e) => seg_atom(*self.format, env@) is Refused && e.message()@ == atom_refusal(
                    *self.format,
                    env@,
                ) && e.env_scope()@ == env@,
            },
    {
        let prefix = match match_prefix_in(&self.format.atom.prefixes, env) {
            Some(p) => p,
            None => return Err(self.parse_error(env, "未匹配到原子词项前缀")),
        };
        proof {
            let c = choose|p: Seq<char>| is_longest_prefix(x_fixes_of(self.format.atom.prefixes), env@, p);
            assert(is_longest_prefix(x_fixes_of(self.format.atom.prefixes), env@, c));
        }
        let content_start = prefix.as_str().unicode_len();
        let mut i = content_start;
        while i < env.len() && self.continues_atom(env, i)
            invariant
                content_start <= i <= env@.len(),
                content_start == prefix@.len(),
                atom_end(*self.format, env@, content_start as int) == atom_end(*self.format, env@, i as int),
            decreases env@.len() - i,
        {
            i += 1;
        }
        if content_start >= i && content_start == 0 {
            return Err(self.parse_error(env, "原子词项名称与前缀不能同时为空"));
        }
        let name = string_from_chars(&env[content_start..i]);
        Ok((Term::Atom { prefix, name }, i))
    }

    /// The term at the front of `env` (see [`seg_term`]), with where it ends.
    fn segment_term(&self, env: &[char]) -> (r: Reading<(Term, usize)>)
        requires
            lexical_parse_wf(*self.format),
            env@.len() <= usize::MAX / 2,
        ensures
            term_reading(r) == seg_term(*self.format, env@),
            r matches Reading::Read((_, l)) ==> 1 <= l <= env@.len() + usize::MAX / 2,
        decreases env@.len() as int, 4int, 0int,
    {
        match self.segment_term_set(env) {
            Reading::Refused => {},
            other => return other,
        }
        match self.segment_compound(env) {
            Reading::Refused => {},
            other => return other,
        }
        match self.segment_statement(env) {
            Reading::Refused => {},
            other => return other,
        }
        match self.segment_atom(env) {
            Ok(found) => Reading::Read(found),
            Err(_) => Reading::Refused,
        }
    }

    /// Why no term could be read at the front of `env`: why no atom could.
    fn term_refusal(&self, env: &[char]) -> (e: ParseError)
        requires
            seg_atom(*self.format, env@) is Refused,
        ensures
            e.message()@ == atom_refusal(*self.format, env@),
            e.env_scope()@ == env@,
    {
        match self.segment_atom(env) {
            Err(e) => e,
            Ok(_) => {
                assert(false);
                self.parse_error(env, "")
            },
        }
    }

    /// The set at the front of `env` (see [`seg_set`]).
    fn segment_term_set(&self, env: &[char]) -> (r: Reading<(Term, usize)>)
        requires
            lexical_parse_wf(*self.format),
            env@.len() <= usize::MAX / 2,
        ensures
            term_reading(r) == seg_set(*self.format, env@),
            r matches Reading::Read((_, l)) ==> 1 <= l <= env@.len() + usize::MAX / 2,
        decreases env@.len() as int, 3int, 0int,
    {
        let ghost brackets = bi_fixes_of(self.format.compound.set_brackets);
        let (left, right) = match match_set_brackets(&self.format.compound.set_brackets, env) {
            Some(found) => found,
            None => return Reading::Refused,
        };
        proof {
            let c = choose|p: Seq<char>| is_longest_prefix(brackets.dom(), env@, p);
            assert(is_longest_prefix(brackets.dom(), env@, c));
            assert(brackets.dom().contains(left@));
        }
        let k = left.as_str().unicode_len();
        let rest = &env[k..env.len()];
        proof {
            assert(rest@ =~= env@.skip(k as int));
        }
        let (first, l) = match self.segment_term(rest) {
            Reading::Read(found) => found,
            Reading::Refused => return Reading::Refused,
            Reading::Overrun => return Reading::Overrun,
        };
        let mut acc: Vec<Term> = Vec::new();
        acc.push(first);
        proof {
            assert(terms_view(acc@) =~= seq![first@]) by {
                assert(acc@.subrange(0, 0).len() == 0);
                assert(terms_view(acc@.subrange(0, 0)) =~= Seq::<TermView>::empty());
                assert(acc@[0] == first);
            }
        }
        match self.segment_items(env, k + l, right.as_str(), acc) {
            Reading::Read((terms, end)) => Reading::Read(
                (Term::TermSet { left_bracket: left, terms, right_bracket: right }, end),
            ),
            Reading::Refused => Reading::Refused,
            Reading::Overrun => Reading::Overrun,
        }
    }

    /// The compound at the front of `env` (see [`seg_compound`]).
    fn segment_compound(&self, env: &[char]) -> (r: Reading<(Term, usize)>)
        requires
            lexical_parse_wf(*self.format),
            env@.len() <= usize::MAX / 2,
        ensures
            term_reading(r) == seg_compound(*self.format, env@),
            r matches Reading::Read((_, l)) ==> 1 <= l <= env@.len() + usize::MAX / 2,
        decreases env@.len() as int, 3int, 0int,
    {
        let left = chars_of(self.format.compound.brackets.0.as_str());
        proof {
            assert(env@.skip(0) =~= env@);
        }
        if !has_prefix_at(env, 0, left.as_slice()) {
            return Reading::Refused;
        }
        let k = left.len();
        let rest = &env[k..env.len()];
        proof {
            assert(rest@ =~= env@.skip(k as int));
        }
        let connecter = match match_prefix_in(&self.format.compound.connecters, rest) {
            Some(c) => c,
            None => return Reading::Refused,
        };
        proof {
            let c = choose|p: Seq<char>| is_longest_prefix(x_fixes_of(self.format.compound.connecters), rest@, p);
            assert(is_longest_prefix(x_fixes_of(self.format.compound.connecters), rest@, c));
        }
        let pos = k + connecter.as_str().unicode_len();
        match self.segment_items(env, pos, self.format.compound.brackets.1.as_str(), Vec::new()) {
            Reading::Read((terms, end)) => {
                proof {
                    assert(terms_view(Seq::<Term>::empty()) =~= Seq::<TermView>::empty());
                }
                Reading::Read((Term::Compound { connecter, terms }, end))
            },
            Reading::Refused => Reading::Refused,
            Reading::Overrun => Reading::Overrun,
        }
    }

    /// The items of a set or compound from `pos` of `env` on, after those in `acc` (see
    /// [`items_loop`]).
    fn segment_items(&self, env: &[char], pos: usize, right: &str, acc: Vec<Term>) -> (r: Reading<(Vec<Term>, usize)>)
        requires
            lexical_parse_wf(*self.format),
            env@.len() <= usize::MAX / 2,
            right@.len() <= usize::MAX / 2,
            1 <= pos <= env@.len() + usize::MAX / 2,
        ensures
            match r {
                Reading::Read((v, end)) => items_loop(*self.format, env@, pos as int, right@) matches Reading::Read(
                    (ts, e),
                ) && terms_view(v@) == terms_view(acc@) + ts && e == end && pos <= end <= env@.len()
                    + usize::MAX / 2,
                Reading::Refused => items_loop(*self.format, env@, pos as int, right@) is Refused,
                Reading::Overrun => items_loop(*self.format, env@, pos as int, right@) is Overrun,
            },
        decreases env@.len() as int, 2int, env@.len() - pos,
    {
        if pos > env.len() {
            return Reading::Overrun;
        }
        let rest = &env[pos..env.len()];
        proof {
            assert(rest@ =~= env@.skip(pos as int));
        }
        if starts_with_str(rest, right) {
            proof {
                assert(terms_view(acc@) + Seq::<TermView>::empty() =~= terms_view(acc@));
            }
            return Reading::Read((acc, pos + right.unicode_len()));
        }
        let sep = self.format.compound.separator.as_str();
        let at = if starts_with_str(rest, sep) {
            pos + sep.unicode_len()
        } else {
            pos
        };
        if at > env.len() {
            return Reading::Overrun;
        }
        let rest = &env[at..env.len()];
        proof {
            assert(rest@ =~= env@.skip(at as int));
        }
        match self.segment_term(rest) {
            Reading::Refused => Reading::Refused,
            Reading::Overrun => Reading::Overrun,
            Reading::Read((t, l)) => {
                if at + l > env.len() {
                    return Reading::Overrun;
                }
                let mut acc = acc;
                let ghost before = acc@;
                acc.push(t);
                proof {
                    assert(acc@.subrange(0, acc@.len() - 1) =~= before);
                    assert(terms_view(acc@) == terms_view(before).push(t@));
                }
                let r = self.segment_items(env, at + l, right, acc);
                proof {
                    if r is Read {
                        let ts = items_loop(*self.format, env@, (at + l) as int, right@)->Read_0.0;
                        assert(terms_view(before) + (seq![t@] + ts) =~= terms_view(before).push(t@) + ts);
                    }
                }
                r
            },
        }
    }

    /// The statement at the front of `env` (see [`seg_statement`]).
    fn segment_statement(&self, env: &[char]) -> (r: Reading<(Term, usize)>)
        requires
            lexical_parse_wf(*self.format),
            env@.len() <= usize::MAX / 2,
        ensures
            term_reading(r) == seg_statement(*self.format, env@),
            r matches Reading::Read((_, l)) ==> 1 <= l <= env@.len() + usize::MAX / 2,
        decreases env@.len() as int, 3int, 0int,
    {
        let left = chars_of(self.format.statement.brackets.0.as_str());
        proof {
            assert(env@.skip(0) =~= env@);
        }
        if !has_prefix_at(env, 0, left.as_slice()) {
            return Reading::Refused;
        }
        let k = left.len();
        let rest = &env[k..env.len()];
        proof {
            assert(rest@ =~= env@.skip(k as int));
        }
        let (subject, l) = match self.segment_term(rest) {
            Reading::Read(found) => found,
            Reading::Refused => return Reading::Refused,
            Reading::Overrun => return Reading::Overrun,
        };
        let copula_start = k + l;
        if copula_start > env.len() {
            return Reading::Overrun;
        }
        let rest = &env[copula_start..env.len()];
        proof {
            assert(rest@ =~= env@.skip(copula_start as int));
        }
        let copula = match match_prefix_in(&self.format.statement.copulas, rest) {
            Some(c) => c,
            None => return Reading::Refused,
        };
        proof {
            let c = choose|p: Seq<char>| is_longest_prefix(x_fixes_of(self.format.statement.copulas), rest@, p);
            assert(is_longest_prefix(x_fixes_of(self.format.statement.copulas), rest@, c));
        }
        let predicate_start = copula_start + copula.as_str().unicode_len();
        let rest = &env[predicate_start..env.len()];
        proof {
            assert(rest@ =~= env@.skip(predicate_start as int));
        }
        let (predicate, l2) = match self.segment_term(rest) {
            Reading::Read(found) => found,
            Reading::Refused => return Reading::Refused,
            Reading::Overrun => return Reading::Overrun,
        };
        let right_start = predicate_start + l2;
        if right_start > env.len() {
            return Reading::Overrun;
        }
        let right = self.format.statement.brackets.1.as_str();
        let rest = &env[right_start..env.len()];
        proof {
            assert(rest@ =~= env@.skip(right_start as int));
        }
        if !starts_with_str(rest, right) {
            return Reading::Refused;
        }
        let term = Term::Statement { copula, subject: Box::new(subject), predicate: Box::new(predicate) };
        Reading::Read((term, right_start + right.unicode_len()))
    }
}

/// Taking characters out keeps no more of them than there were.
proof fn lemma_without_class_len(class: CharClass, s: Seq<char>)
    ensures
        without_class(class, s).len() <= s.len(),
    decreases s.len(),
{
    if s.len() > 0 {
        lemma_without_class_len(class, s.drop_last());
    }
}

/// No character of the class is left once the class is taken out.
proof fn lemma_without_class_clean(class: CharClass, s: Seq<char>)
    ensures
        forall|i: int| 0 <= i < without_class(class, s).len() ==> !class_has(class, #[trigger] without_class(class, s)[i]),
    decreases s.len(),
{
    if s.len() > 0 {
        lemma_without_class_clean(class, s.drop_last());
        let w = without_class(class, s.drop_last());
        let tail = if class_has(class, s.last()) {
            Seq::<char>::empty()
        } else {
            seq![s.last()]
        };
        assert(without_class(class, s) == w + tail);
        assert forall|i: int| 0 <= i < (w + tail).len() implies !class_has(class, #[trigger] (w + tail)[i]) by {
            if i < w.len() {
                assert((w + tail)[i] == w[i]);
            } else {
                assert((w + tail)[i] == tail[i - w.len()]);
            }
        }
    }
}

/// Taking the class out of a text that has none of its characters leaves it as it is.
proof fn lemma_without_class_keeps(class: CharClass, s: Seq<char>)
    requires
        forall|i: int| 0 <= i < s.len() ==> !class_has(class, #[trigger] s[i]),
    ensures
        without_class(class, s) == s,
    decreases s.len(),
{
    if s.len() > 0 {
        lemma_without_class_keeps(class, s.drop_last());
        assert(s.drop_last() + seq![s.last()] =~= s);
    }
}

/// Making a text ideal twice is making it ideal once; so a text and its ideal form are
/// parsed alike (spaces do not matter where the format takes them out).
pub proof fn law_idealized_idempotent(f: NarseseFormat, s: Seq<char>)
    ensures
        idealized(f, idealized(f, s)) == idealized(f, s),
        parse_outcome(f, idealized(f, idealized(f, s))) == parse_outcome(f, idealized(f, s)),
{
    if f.space.remove_spaces_before_parse {
        lemma_without_class_clean(f.space.is_for_parse, s);
        lemma_without_class_keeps(f.space.is_for_parse, without_class(f.space.is_for_parse, s));
    }
}

/// The characters of `input` made ideal under `format` (see [`idealized`]).
pub fn idealize_env(format: &NarseseFormat, input: &str) -> (r: Vec<char>)
    ensures
        r@ == idealized(*format, input@),
        r@.len() <= input@.len(),
{
    let chars = chars_of(input);
    if !format.space.remove_spaces_before_parse {
        return chars;
    }
    let mut res: Vec<char> = Vec::new();
    let mut i: usize = 0;
    while i < chars.len()
        invariant
            i <= chars@.len(),
            res@ == without_class(format.space.is_for_parse, chars@.take(i as int)),
        decreases chars.len() - i,
    {
        let c = chars[i];
        if !format.space.is_for_parse.has(c) {
            res.push(c);
        }
        proof {
            let t = chars@.take(i + 1);
            assert(t.drop_last() =~= chars@.take(i as int));
            assert(t.last() == c);
            assert(res@ =~= without_class(format.space.is_for_parse, t));
        }
        i += 1;
    }
    proof {
        assert(chars@.take(chars@.len() as int) =~= chars@);
        lemma_without_class_len(format.space.is_for_parse, input@);
    }
    res
}

impl<'a> ParseState<'a> {
    /// The items of an ideal text (see [`items_reading`]), or the error of its term; none
    /// where the reading steps past the end of the text.
    fn read_items(&self, env: &[char]) -> (r: Option<ParseResult<MidParseResult>>)
        requires
            lexical_parse_wf(*self.format),
            env@.len() <= usize::MAX / 2,
        ensures
            match r {
                None => items_reading(*self.format, env@) is Overrun,
                Some(Ok(m)) => items_reading(*self.format, env@) == Reading::Read(m@),
                Some(Err(e)) => items_reading(*self.format, env@) is Refused && e.message()@
                    == atom_refusal(
                    *self.format,
                    env@.subrange(term_span(*self.format, env@).0, term_span(*self.format, env@).1),
                ) && e.env_scope()@ == env@.subrange(
                    term_span(*self.format, env@).0,
                    term_span(*self.format, env@).1,
                ),
            },
    {
        let budget = self.segment_budget(env);
        let (budget, begin_index) = budget.right_unwrap_or(0);
        let truth = self.segment_truth(env);
        let (truth, right_border) = truth.right_unwrap_or(env.len());
        let before_truth = &env[0..right_border];
        proof {
            assert(before_truth@ =~= env@.take(right_border as int));
        }
        let stamp = self.segment_stamp(before_truth);
        let (stamp, right_border) = stamp.right_unwrap_or(right_border);
        let before_stamp = &env[0..right_border];
        proof {
            assert(before_stamp@ =~= env@.take(right_border as int));
        }
        let punctuation = self.segment_punctuation(before_stamp);
        let (punctuation, right_border) = punctuation.right_unwrap_or(right_border);
        if begin_index > right_border {
            return None;
        }
        let env_term = &env[begin_index..right_border];
        let term = if begin_index < right_border {
            match self.segment_term(env_term) {
                Reading::Read((t, _)) => Some(t),
                Reading::Refused => return Some(Err(self.term_refusal(env_term))),
                Reading::Overrun => return None,
            }
        } else {
            None
        };
        Some(Ok(MidParseResult { term, truth, stamp, punctuation, budget }))
    }

    /// The items of an ideal text (see [`items_reading`]), or the error of its term.
    pub fn parse_items(&mut self, env: &[char]) -> (r: ParseResult<MidParseResult>)
        requires
            lexical_parse_wf(*old(self).format),
            env@.len() <= usize::MAX / 2,
            !(items_reading(*old(self).format, env@) is Overrun),
        ensures
            *final(self) == *old(self),
            match r {
                Ok(m) => items_reading(*old(self).format, env@) == Reading::Read(m@),
                Err(e) => items_reading(*old(self).format, env@) is Refused && e.message()@
                    == atom_refusal(
                    *old(self).format,
                    env@.subrange(
                        term_span(*old(self).format, env@).0,
                        term_span(*old(self).format, env@).1,
                    ),
                ) && e.env_scope()@ == env@.subrange(
                    term_span(*old(self).format, env@).0,
                    term_span(*old(self).format, env@).1,
                ),
            },
    {
        match self.read_items(env) {
            Some(r) => r,
            None => {
                assert(false);
                Err(self.parse_error(env, ""))
            },
        }
    }

    /// The term, sentence or task of an ideal text (see [`parse_outcome`]), or the error.
    pub fn parse(&mut self, env: &[char]) -> (r: ParseResult<Narsese>)
        requires
            lexical_parse_wf(*old(self).format),
            env@.len() <= usize::MAX / 2,
            !(items_reading(*old(self).format, env@) is Overrun),
        ensures
            *final(self) == *old(self),
            match r {
                Ok(n) => parse_outcome(*old(self).format, env@) == Ok::<_, (Seq<char>, Seq<char>)>(
                    narsese_view(n),
                ),
                Err(e) => parse_outcome(*old(self).format, env@) == Err::<
                    NarseseValue<TermView, SentenceView, TaskView>,
                    _,
                >((e.message()@, e.env_scope()@)),
            },
    {
        let mid = match self.parse_items(env) {
            Ok(mid) => mid,
            Err(e) => return Err(e),
        };
        match mid.fold() {
            Some(result) => Ok(result),
            None => self.err(env, "缺省条目，无法解析成词项/语句/任务"),
        }
    }

    /// The term of `input`, made ideal first (see [`seg_term`]), or the error.
    pub fn parse_term(&self, input: &str) -> (r: ParseResult<Term>)
        requires
            lexical_parse_wf(*self.format),
            input@.len() <= usize::MAX / 2,
            !(seg_term(*self.format, idealized(*self.format, input@)) is Overrun),
        ensures
            match r {
                Ok(t) => seg_term(*self.format, idealized(*self.format, input@)) matches Reading::Read(
                    (v, _),
                ) && v == t@,
                Err(e) => seg_term(*self.format, idealized(*self.format, input@)) is Refused
                    && e.message()@ == atom_refusal(*self.format, idealized(*self.format, input@))
                    && e.env_scope()@ == idealized(*self.format, input@),
            },
    {
        let idealized = idealize_env(self.format, input);
        match self.segment_term(idealized.as_slice()) {
            Reading::Read((t, _)) => Ok(t),
            Reading::Refused => Err(self.term_refusal(idealized.as_slice())),
            Reading::Overrun => {
                assert(false);
                Err(self.parse_error(idealized.as_slice(), ""))
            },
        }
    }

    /// The term of `input`, made ideal first (see [`parse_term`](Self::parse_term)); none
    /// where the reading steps past the end of the text, on which `parse_term` is not
    /// called.
    pub fn try_parse_term(&self, input: &str) -> (r: Option<ParseResult<Term>>)
        requires
            lexical_parse_wf(*self.format),
            input@.len() <= usize::MAX / 2,
        ensures
            match r {
                None => seg_term(*self.format, idealized(*self.format, input@)) is Overrun,
                Some(Ok(t)) => seg_term(*self.format, idealized(*self.format, input@)) matches Reading::Read(
                    (v, _),
                ) && v == t@,
                Some(Err(e)) => seg_term(*self.format, idealized(*self.format, input@)) is Refused
                    && e.message()@ == atom_refusal(*self.format, idealized(*self.format, input@))
                    && e.env_scope()@ == idealized(*self.format, input@),
            },
    {
        let idealized = idealize_env(self.format, input);
        match self.segment_term(idealized.as_slice()) {
            Reading::Overrun => None,
            _ => Some(self.parse_term(input)),
        }
    }
}

/// What parsing `input` under `format` gives (the text made ideal first, see
/// [`parse_outcome`]); none where the reading steps past the end of the text, on which
/// [`parse`] is not called.
pub fn try_parse(format: &NarseseFormat, input: &str) -> (r: Option<ParseResult<Narsese>>)
    requires
        lexical_parse_wf(*format),
        input@.len() <= usize::MAX / 2,
    ensures
        match r {
            None => items_reading(*format, idealized(*format, input@)) is Overrun,
            Some(Ok(n)) => parse_outcome(*format, idealized(*format, input@)) == Ok::<_, (Seq<char>, Seq<char>)>(
                narsese_view(n),
            ),
            Some(Err(e)) => !(items_reading(*format, idealized(*format, input@)) is Overrun)
                && parse_outcome(*format, idealized(*format, input@)) == Err::<
                NarseseValue<TermView, SentenceView, TaskView>,
                _,
            >((e.message()@, e.env_scope()@)),
        },
{
    let chars = idealize_env(format, input);
    let state = ParseState::new(format);
    let mid = match state.read_items(chars.as_slice()) {
        None => return None,
        Some(Ok(mid)) => mid,
        Some(Err(e)) => return Some(Err(e)),
    };
    match mid.fold() {
        Some(result) => Some(Ok(result)),
        None => Some(state.err(chars.as_slice(), "缺省条目，无法解析成词项/语句/任务")),
    }
}

/// The term, sentence or task that `input` writes under `format`, the text made ideal first
/// (see [`parse_outcome`]), or the error.
pub fn parse(format: &NarseseFormat, input: &str) -> (r: ParseResult<Narsese>)
    requires
        lexical_parse_wf(*format),
        input@.len() <= usize::MAX / 2,
        !(items_reading(*format, idealized(*format, input@)) is Overrun),
    ensures
        match r {
            Ok(n) => parse_outcome(*format, idealized(*format, input@)) == Ok::<_, (Seq<char>, Seq<char>)>(
                narsese_view(n),
            ),
            Err(e) => parse_outcome(*format, idealized(*format, input@)) == Err::<
                NarseseValue<TermView, SentenceView, TaskView>,
                _,
            >((e.message()@, e.env_scope()@)),
        },
{
    let chars = idealize_env(format, input);
    let mut state = ParseState::new(format);
    state.parse(chars.as_slice())
}

impl NarseseFormat {
    /// The term, sentence or task that `input` writes under this format (see [`parse`]).
    pub fn parse(&self, input: &str) -> (r: ParseResult<Narsese>)
        requires
            lexical_parse_wf(*self),
            input@.len() <= usize::MAX / 2,
            !(items_reading(*self, idealized(*self, input@)) is Overrun),
        ensures
            match r {
                Ok(n) => parse_outcome(*self, idealized(*self, input@)) == Ok::<_, (Seq<char>, Seq<char>)>(
                    narsese_view(n),
                ),
                Err(e) => parse_outcome(*self, idealized(*self, input@)) == Err::<
                    NarseseValue<TermView, SentenceView, TaskView>,
                    _,
                >((e.message()@, e.env_scope()@)),
            },
    {
        parse(self, input)
    }
}

} // verus!
