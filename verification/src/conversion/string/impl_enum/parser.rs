//! The parser of enum Narsese: text to a term, a sentence or a task under a format.
//!
//! The parser reads the text as characters from left to right. The numbers of truth
//! values and budgets are checked as decimal literals and kept as text: the caller turns
//! them into numbers (see [`MidParseResult`] and [`form_result`]).
use vstd::prelude::*;
use crate::conversion::string::common::{joined, NarseseResult};
use crate::conversion::string::impl_enum::format::NarseseFormat;
use crate::enum_narsese::sentence::{Punctuation, Sentence, Stamp, Truth};
use crate::enum_narsese::task::{Budget, Task};
use crate::enum_narsese::term::Term;
use crate::numeral::{parse_isize, spec_parse_isize, usize_to_string};
use crate::text::{chars_of, push_char, push_str, string_from_chars, texts};
use crate::conversion::string::impl_enum::reading::{
    after_terms, atom_prefix, builds, builds_all, compound_refusal, builds_set, builds_without, connecter_at,
    copula_at, copula_from, copula_kind, lemma_copula_len, first_placeholder, lemma_builds_placeholder, name_end,
    read_atom, read_compound, read_statement, read_term, read_term_set, read_terms, TermRecipe,
    error_in, int_end, lemma_skip_spaces_forward, read_budget, read_floats, read_isize,
    read_numbers, read_punctuation, read_stamp, read_truth, rest_len, sat_add, skip_spaces,
    attempt_items, lemma_error_text, lemma_read_one_progress, missing_items, no_items, parse_reading,
    read_items, read_one, MidReading, beyond_report, past_end, reading_overruns,
};

verus! {

/// The result of a parse of enum Narsese.
pub type EnumNarseseResult = NarseseResult<Term, Sentence, Task>;

/// How many characters on each side of the error position an error shows.
pub const ERR_CHAR_VIEW_RANGE: usize = 4;

/// What std's `Debug` writes for a string: the text between double quotes, with
/// escapes.
pub uninterp spec fn debug_text_of_str(s: Seq<char>) -> Seq<char>;

/// What std's `Debug` writes for a character: the character between single quotes, with
/// escapes.
pub uninterp spec fn debug_text_of_char(c: char) -> Seq<char>;

/// The `Debug` text of a string (std's `<str as Debug>::fmt`, through `format!("{:?}")`):
/// a function of the string alone.
#[verifier::external_body]
pub(crate) fn debug_str(s: &str) -> (res: String)
    ensures
        res@ == debug_text_of_str(s@),
{
    format!("{:?}", s)
}

/// The `Debug` text of a character (std's `<char as Debug>::fmt`, through
/// `format!("{:?}")`): a function of the character alone.
#[verifier::external_body]
fn debug_char(c: char) -> (res: String)
    ensures
        res@ == debug_text_of_char(c),
{
    format!("{:?}", c)
}

/// The part of the text around an error position that an error shows: up to
/// [`ERR_CHAR_VIEW_RANGE`] characters on each side.
pub open spec fn env_slice_bounds(len: int, index: int) -> (int, int) {
    let right = if index + ERR_CHAR_VIEW_RANGE + 1 < len {
        index + ERR_CHAR_VIEW_RANGE + 1
    } else {
        len
    };
    let left = if index > ERR_CHAR_VIEW_RANGE {
        index - ERR_CHAR_VIEW_RANGE
    } else {
        0
    };
    (if left <= right { left } else { right }, right)
}

/// An error of parsing: what went wrong, where, and the text around it.
#[derive(Debug, Clone)]
pub struct ParseError {
    message: String,
    env_slice: Vec<char>,
    index: usize,
}

impl ParseError {
    /// The part of `env` around `index` (see [`env_slice_bounds`]).
    fn generate_env_slice(env: &Vec<char>, index: usize) -> (res: Vec<char>)
        ensures
            res@ == env@.subrange(
                env_slice_bounds(env@.len() as int, index as int).0,
                env_slice_bounds(env@.len() as int, index as int).1,
            ),
    {
        let len = env.len();
        let right = if index < len && len - index > ERR_CHAR_VIEW_RANGE + 1 {
            index + ERR_CHAR_VIEW_RANGE + 1
        } else {
            len
        };
        let left0 = if index > ERR_CHAR_VIEW_RANGE {
            index - ERR_CHAR_VIEW_RANGE
        } else {
            0
        };
        let left = if left0 <= right {
            left0
        } else {
            right
        };
        let mut res: Vec<char> = Vec::new();
        let mut i = left;
        while i < right
            invariant
                left <= i <= right <= env@.len(),
                res@ == env@.subrange(left as int, i as int),
            decreases right - i,
        {
            res.push(env[i]);
            proof {
                assert(env@.subrange(left as int, i + 1) =~= env@.subrange(left as int, i as int).push(
                    env@[i as int],
                ));
            }
            i += 1;
        }
        res
    }

    /// An error with a message at `index` of `env`, which lies at most
    /// [`ERR_CHAR_VIEW_RANGE`] characters past its end.
    pub fn new(message: &str, env: &Vec<char>, index: usize) -> (e: ParseError)
        requires
            index <= env@.len() + ERR_CHAR_VIEW_RANGE,
        ensures
            e.message()@ == message@,
            e.index() == index,
            e.env_slice()@ == env@.subrange(
                env_slice_bounds(env@.len() as int, index as int).0,
                env_slice_bounds(env@.len() as int, index as int).1,
            ),
    {
        ParseError::located(message, env, index)
    }

    /// An error with a message at `index` of `env`, the text around it cut at the end of
    /// `env` however far past it the index lies.
    fn located(message: &str, env: &Vec<char>, index: usize) -> (e: ParseError)
        ensures
            e.message()@ == message@,
            e.index() == index,
            e.env_slice()@ == env@.subrange(
                env_slice_bounds(env@.len() as int, index as int).0,
                env_slice_bounds(env@.len() as int, index as int).1,
            ),
    {
        ParseError {
            message: message.to_string(),
            env_slice: ParseError::generate_env_slice(env, index),
            index,
        }
    }

    /// What went wrong, in specifications.
    pub closed spec fn message(&self) -> String {
        self.message
    }

    /// Where it went wrong, in specifications.
    pub closed spec fn index(&self) -> usize {
        self.index
    }

    /// The text around the error, in specifications.
    pub closed spec fn env_slice(&self) -> Vec<char> {
        self.env_slice
    }

    /// What went wrong.
    pub fn get_message(&self) -> (m: &str)
        ensures
            m@ == self.message()@,
    {
        self.message.as_str()
    }

    /// Where it went wrong (a character index).
    pub fn get_index(&self) -> (i: usize)
        ensures
            i == self.index(),
    {
        self.index
    }

    /// The text around the error.
    pub fn get_env_slice(&self) -> (s: &Vec<char>)
        ensures
            *s == self.env_slice(),
    {
        &self.env_slice
    }

    /// The description of the error: `Narsese解析错误：`, the message, ` @ `, the index,
    /// ` in `, and the text around the error as std's `Debug` writes a string.
    pub fn to_text(&self) -> (s: String)
        ensures
            s@ == "Narsese解析错误："@ + self.message()@ + " @ "@ + crate::numeral::decimal_text(
                self.index() as nat,
            ) + " in "@ + debug_text_of_str(self.env_slice()@),
    {
        let mut s = String::new();
        push_str(&mut s, "Narsese解析错误：");
        push_str(&mut s, self.message.as_str());
        push_str(&mut s, " @ ");
        let index = usize_to_string(self.index);
        push_str(&mut s, index.as_str());
        push_str(&mut s, " in ");
        let slice = string_from_chars(self.env_slice.as_slice());
        let debug = debug_str(slice.as_str());
        push_str(&mut s, debug.as_str());
        s
    }
}

// Decimal literals of truth values and budgets //

/// Whether a character may stand in a decimal literal: a digit or the point.
pub open spec fn is_literal_char(c: char) -> bool {
    c == '.' || ('0' <= c && c <= '9')
}

/// How many points a text holds.
pub open spec fn count_points(s: Seq<char>) -> nat
    decreases s.len(),
{
    if s.len() == 0 {
        0
    } else {
        count_points(s.drop_last()) + if s.last() == '.' {
            1nat
        } else {
            0nat
        }
    }
}

/// Whether a text of digits and points is a decimal literal that std reads as a binary64
/// number: at least one digit, at most one point.
pub open spec fn is_float_literal(s: Seq<char>) -> bool {
    &&& forall|i: int| 0 <= i < s.len() ==> #[trigger] is_literal_char(s[i])
    &&& count_points(s) <= 1
    &&& exists|i: int| 0 <= i < s.len() && #[trigger] s[i] != '.'
}

/// The decimal digits of 2^-53 after the point: a literal between `1` and `1 + 2^-53`
/// rounds to `1.0` (ties go to the even `1.0`); beyond, it rounds above `1.0`.
pub const HALF_ULP_OF_ONE: &'static str = "00000000000000011102230246251565404236316680908203125";

/// The text without its leading zeros.
pub open spec fn strip_leading_zeros(s: Seq<char>) -> Seq<char>
    decreases s.len(),
{
    if s.len() > 0 && s[0] == '0' {
        strip_leading_zeros(s.drop_first())
    } else {
        s
    }
}

/// The digit of a fraction at a position, `0` past its end.
pub open spec fn frac_digit(f: Seq<char>, i: int) -> char {
    if 0 <= i < f.len() {
        f[i]
    } else {
        '0'
    }
}

/// Whether the fraction `0.f` is at most `0.t` (digits compared from the first, missing
/// digits read as zeros).
pub open spec fn frac_at_most(f: Seq<char>, t: Seq<char>, i: nat) -> bool
    decreases (if f.len() > t.len() { f.len() } else { t.len() }) - i,
{
    if i >= f.len() && i >= t.len() {
        true
    } else if frac_digit(f, i as int) < frac_digit(t, i as int) {
        true
    } else if frac_digit(f, i as int) > frac_digit(t, i as int) {
        false
    } else {
        frac_at_most(f, t, i + 1)
    }
}

/// The position of the point in a literal, or its length when it has none.
pub open spec fn point_index(s: Seq<char>) -> int
    decreases s.len(),
{
    if s.len() == 0 {
        0
    } else if s[0] == '.' {
        0
    } else {
        1 + point_index(s.drop_first())
    }
}

/// Whether the number that a decimal literal denotes rounds to a binary64 number in
/// `[0, 1]`: its integer part is zero, or one with a fraction of at most 2^-53.
pub open spec fn literal_in_01(s: Seq<char>) -> bool {
    let p = point_index(s);
    let int_part = strip_leading_zeros(s.take(p));
    let frac = if p < s.len() { s.skip(p + 1) } else { Seq::empty() };
    int_part.len() == 0 || (int_part == seq!['1'] && frac_at_most(frac, HALF_ULP_OF_ONE@, 0))
}

/// Whether a text is a decimal literal (see [`is_float_literal`]).
pub fn check_float_literal(s: &Vec<char>) -> (res: bool)
    ensures
        res == is_float_literal(s@),
{
    let mut points: usize = 0;
    let mut digits: usize = 0;
    let mut i: usize = 0;
    while i < s.len()
        invariant
            i <= s.len(),
            forall|k: int| 0 <= k < i ==> #[trigger] is_literal_char(s@[k]),
            points == count_points(s@.take(i as int)),
            digits > 0 <==> exists|k: int| 0 <= k < i && #[trigger] s@[k] != '.',
            digits <= i,
            points <= i,
        decreases s.len() - i,
    {
        let c = s[i];
        proof {
            assert(s@.take(i + 1).drop_last() =~= s@.take(i as int));
        }
        if c == '.' {
            points = points + 1;
        } else if '0' <= c && c <= '9' {
            digits = digits + 1;
        } else {
            assert(!is_literal_char(s@[i as int]));
            return false;
        }
        i += 1;
    }
    proof {
        assert(s@.take(s.len() as int) =~= s@);
    }
    points <= 1 && digits > 0
}

/// The position of the point in a literal (see [`point_index`]).
fn find_point(s: &Vec<char>) -> (p: usize)
    ensures
        p == point_index(s@),
        p <= s@.len(),
        p < s@.len() ==> s@[p as int] == '.',
        forall|k: int| 0 <= k < p ==> s@[k] != '.',
{
    let mut i: usize = 0;
    assert(s@.skip(0) =~= s@);
    while i < s.len()
        invariant
            i <= s.len(),
            forall|k: int| 0 <= k < i ==> s@[k] != '.',
            point_index(s@) == i + point_index(s@.skip(i as int)),
        decreases s.len() - i,
    {
        if s[i] == '.' {
            proof {
                assert(s@.skip(i as int)[0] == '.');
            }
            return i;
        }
        proof {
            assert(s@.skip(i as int).drop_first() =~= s@.skip(i + 1));
        }
        i += 1;
    }
    proof {
        assert(s@.skip(i as int) =~= Seq::<char>::empty());
    }
    i
}

/// Whether a decimal literal rounds to a number in `[0, 1]` (see [`literal_in_01`]).
pub fn check_literal_in_01(s: &Vec<char>) -> (res: bool)
    ensures
        res == literal_in_01(s@),
{
    let p = find_point(s);
    // the integer part without its leading zeros
    let mut a: usize = 0;
    while a < p && s[a] == '0'
        invariant
            a <= p <= s@.len(),
            strip_leading_zeros(s@.take(p as int)) == strip_leading_zeros(s@.subrange(a as int, p as int)),
        decreases p - a,
    {
        proof {
            assert(s@.subrange(a as int, p as int).drop_first() =~= s@.subrange(a + 1, p as int));
        }
        a += 1;
    }
    proof {
        assert(s@.take(p as int) =~= s@.subrange(0, p as int));
        if a == p {
            assert(s@.subrange(a as int, p as int) =~= Seq::<char>::empty());
        } else {
            assert(s@.subrange(a as int, p as int)[0] != '0');
        }
    }
    if a == p {
        return true;
    }
    if !(p - a == 1 && s[a] == '1') {
        proof {
            let ip = s@.subrange(a as int, p as int);
            if ip =~= seq!['1'] {
                assert(ip[0] == '1');
            }
        }
        return false;
    }
    proof {
        assert(s@.subrange(a as int, p as int) =~= seq!['1']);
    }
    let t = chars_of(HALF_ULP_OF_ONE);
    let ghost frac = if p < s@.len() { s@.skip(p + 1) } else { Seq::<char>::empty() };
    let start: usize = if p < s.len() { p + 1 } else { s.len() };
    proof {
        if p < s@.len() {
            assert(frac =~= s@.subrange(start as int, s@.len() as int));
        } else {
            assert(frac =~= s@.subrange(start as int, s@.len() as int));
        }
    }
    let slen = s.len();
    let flen = slen - start;
    let mut i: usize = 0;
    let total = if flen > t.len() { flen } else { t.len() };
    assert(literal_in_01(s@) == frac_at_most(frac, t@, 0));
    while i < total
        invariant
            literal_in_01(s@) == frac_at_most(frac, t@, 0),
            slen == s@.len(),
            start <= s@.len(),
            flen == s@.len() - start,
            frac == s@.subrange(start as int, s@.len() as int),
            t@ == HALF_ULP_OF_ONE@,
            total == (if flen > t@.len() { flen as nat } else { t@.len() }),
            i <= total,
            frac_at_most(frac, t@, 0) == frac_at_most(frac, t@, i as nat),
        decreases total - i,
    {
        let d = if i < flen {
            assert(start + i < slen);
            s[start + i]
        } else {
            '0'
        };
        let e = if i < t.len() { t[i] } else { '0' };
        assert(d == frac_digit(frac, i as int));
        assert(e == frac_digit(t@, i as int));
        assert(!(i >= frac.len() && i >= t@.len()));
        if d < e {
            assert(frac_at_most(frac, t@, i as nat));
            return true;
        }
        if d > e {
            assert(!frac_at_most(frac, t@, i as nat));
            return false;
        }
        i += 1;
    }
    true
}

// Characters of names //

/// std's `char::is_alphabetic` beyond ASCII (the Unicode `Alphabetic` property there).
pub uninterp spec fn alphabetic_beyond_ascii(c: char) -> bool;

/// std's `char::is_numeric` beyond ASCII (the Unicode numeric general categories there).
pub uninterp spec fn numeric_beyond_ascii(c: char) -> bool;

/// std's `char::is_alphabetic`: the Unicode `Alphabetic` property, which in ASCII holds of
/// the letters alone.
pub open spec fn char_is_alphabetic(c: char) -> bool {
    if (c as u32) < 0x80 {
        ('a' <= c && c <= 'z') || ('A' <= c && c <= 'Z')
    } else {
        alphabetic_beyond_ascii(c)
    }
}

/// std's `char::is_numeric`: the Unicode numeric general categories, which in ASCII hold
/// of the digits alone.
pub open spec fn char_is_numeric(c: char) -> bool {
    if (c as u32) < 0x80 {
        '0' <= c && c <= '9'
    } else {
        numeric_beyond_ascii(c)
    }
}

/// Whether a character is alphabetic (std's `char::is_alphabetic`, a function of the
/// character alone: in ASCII the letters).
#[verifier::external_body]
fn is_alphabetic(c: char) -> (b: bool)
    ensures
        b == char_is_alphabetic(c),
        (c as u32) >= 0x80 ==> b == alphabetic_beyond_ascii(c),
{
    c.is_alphabetic()
}

/// Whether a character is numeric (std's `char::is_numeric`, a function of the character
/// alone: in ASCII the digits).
#[verifier::external_body]
fn is_numeric(c: char) -> (b: bool)
    ensures
        b == char_is_numeric(c),
        (c as u32) >= 0x80 ==> b == numeric_beyond_ascii(c),
{
    c.is_numeric()
}

/// Whether a character may stand in the name of an atom: letters and numerals, `_`,
/// `-`, and the characters beyond U+1F2FF (pictographs and the like).
pub open spec fn is_name_char(c: char) -> bool {
    char_is_alphabetic(c) || char_is_numeric(c) || c == '_' || c == '-' || c > '\u{1f2ff}'
}

/// Whether a character may stand in the name of an atom (see [`is_name_char`]).
pub fn is_valid_atom_name(c: char) -> (b: bool)
    ensures
        b == is_name_char(c),
{
    is_alphabetic(c) || is_numeric(c) || c == '_' || c == '-' || c > '\u{1f2ff}'
}

/// Whether a character may stand in a signed integer: a digit or a sign.
pub open spec fn spec_is_integer_char(c: char) -> bool {
    ('0' <= c && c <= '9') || c == '+' || c == '-'
}

/// Whether a character may stand in a signed integer (see [`spec_is_integer_char`]).
fn is_integer_char(c: char) -> (b: bool)
    ensures
        b == spec_is_integer_char(c),
{
    ('0' <= c && c <= '9') || c == '+' || c == '-'
}

// The state of a parse //

/// `s` stands in `env` at `head`.
pub open spec fn starts_at(env: Seq<char>, head: int, s: Seq<char>) -> bool {
    0 <= head && head + s.len() <= env.len() && env.subrange(head, head + s.len()) == s
}

/// How many characters are left to read from `head`.
pub open spec fn left_to_read(len: nat, head: usize) -> nat {
    if head < len {
        (len - head) as nat
    } else {
        0
    }
}

/// What the formats that the parser reads must have: the pieces that it repeats or that
/// open a nested term are not empty.
pub open spec fn parse_wf(f: NarseseFormat<&str>) -> bool {
    &&& f.space.parse@.len() > 0
    &&& f.compound.separator@.len() > 0
    &&& f.compound.brackets.0@.len() > 0
    &&& f.compound.brackets_set_extension.0@.len() > 0
    &&& f.compound.brackets_set_intension.0@.len() > 0
    &&& f.statement.brackets.0@.len() > 0
    &&& f.atom.prefix_placeholder@.len() > 0
    &&& f.sentence.truth_separator@.len() > 0
    &&& f.task.budget_separator@.len() > 0
}

/// The parts of a sentence or task read so far: each is read at most once, in any
/// order; the numbers of truth values and budgets are kept as decimal literals.
#[derive(Debug)]
pub struct MidParseResult {
    /// The term
    pub term: Option<Term>,
    /// The truth value: its decimal literals (at most two)
    pub truth: Option<Vec<String>>,
    /// The budget: its decimal literals (at most three)
    pub budget: Option<Vec<String>>,
    /// The stamp
    pub stamp: Option<Stamp>,
    /// The punctuation
    pub punctuation: Option<Punctuation>,
}

impl MidParseResult {
    /// Nothing read yet.
    pub fn new() -> (r: MidParseResult)
        ensures
            r.term is None,
            r.truth is None,
            r.budget is None,
            r.stamp is None,
            r.punctuation is None,
    {
        MidParseResult { term: None, truth: None, budget: None, stamp: None, punctuation: None }
    }
}

/// The literals are decimal literals of numbers in `[0, 1]`.
pub open spec fn valid_literals(v: Seq<String>) -> bool {
    forall|i: int|
        0 <= i < v.len() ==> is_float_literal(#[trigger] v[i]@) && literal_in_01(v[i]@)
}

/// How many of the parts are still missing.
pub open spec fn missing_parts(m: MidParseResult) -> nat {
    (if m.term is None { 1nat } else { 0nat }) + (if m.truth is None { 1nat } else { 0nat })
        + (if m.budget is None { 1nat } else { 0nat }) + (if m.stamp is None { 1nat } else { 0nat })
        + (if m.punctuation is None { 1nat } else { 0nat })
}

/// What a finished parse holds: a term, and valid literals.
pub open spec fn mid_wf(m: MidParseResult) -> bool {
    &&& (m.truth matches Some(v) ==> v@.len() <= 2 && valid_literals(v@))
    &&& (m.budget matches Some(v) ==> v@.len() <= 3 && valid_literals(v@))
}

/// What has been read is what the reading `r` says: the term built from its recipe (see
/// [`builds`]), the literals of truth value and budget, the stamp and the punctuation.
pub open spec fn mid_built(m: MidParseResult, r: MidReading) -> bool {
    &&& match (m.term, r.term) {
        (None, None) => true,
        (Some(t), Some(rt)) => builds(rt, t),
        _ => false,
    }
    &&& match m.truth {
        None => r.truth is None,
        Some(v) => r.truth == Some(texts(v@)),
    }
    &&& match m.budget {
        None => r.budget is None,
        Some(v) => r.budget == Some(texts(v@)),
    }
    &&& m.stamp == r.stamp
    &&& m.punctuation == r.punctuation
}

/// A reading and what was read from it miss the same items.
pub proof fn lemma_mid_built_missing(m: MidParseResult, r: MidReading)
    requires
        mid_built(m, r),
    ensures
        missing_parts(m) == missing_items(r),
{
}

/// A parse in progress: the format, the text as characters, the position, and what has
/// been read.
struct ParseState<'a> {
    format: &'a NarseseFormat<&'a str>,
    env: Vec<char>,
    head: usize,
    mid_result: MidParseResult,
}

impl<'a> ParseState<'a> {
    /// A parse of `input` from `head`.
    fn new(format: &'a NarseseFormat<&'a str>, input: &str, head: usize) -> (s: ParseState<'a>)
        ensures
            s.format == format,
            s.env@ == input@,
            s.head == head,
            missing_parts(s.mid_result) == 5,
            mid_wf(s.mid_result),
            mid_built(s.mid_result, no_items()),
    {
        ParseState { format, env: chars_of(input), head, mid_result: MidParseResult::new() }
    }

    /// Whether a character is left to read.
    fn can_consume(&self) -> (b: bool)
        ensures
            b == (self.head < self.env@.len()),
            self.env@.len() <= usize::MAX,
    {
        self.head < self.env.len()
    }

    /// The character at the position.
    fn head_char(&self) -> (c: char)
        requires
            self.head < self.env@.len(),
        ensures
            c == self.env@[self.head as int],
    {
        self.env[self.head]
    }

    /// Moves the position.
    fn head_move(&mut self, to: usize)
        ensures
            final(self).head == to,
            final(self).env == old(self).env,
            final(self).format == old(self).format,
            final(self).mid_result == old(self).mid_result,
    {
        self.head = to;
    }

    /// Moves the position forward by `step` characters (stopping at the largest index).
    fn head_step(&mut self, step: usize)
        ensures
            final(self).head == (if old(self).head + step <= usize::MAX {
                (old(self).head + step) as usize
            } else {
                usize::MAX
            }),
            final(self).env == old(self).env,
            final(self).format == old(self).format,
            final(self).mid_result == old(self).mid_result,
    {
        if self.head <= usize::MAX - step {
            self.head = self.head + step;
        } else {
            self.head = usize::MAX;
        }
    }

    /// Moves the position forward by the length of `s`, whatever stands there.
    fn head_skip(&mut self, s: &str)
        ensures
            final(self).head == (if old(self).head + s@.len() <= usize::MAX {
                (old(self).head + s@.len()) as usize
            } else {
                usize::MAX
            }),
            final(self).env == old(self).env,
            final(self).format == old(self).format,
            final(self).mid_result == old(self).mid_result,
    {
        let n = s.unicode_len();
        self.head_step(n);
    }

    /// Whether `s` stands at the position.
    fn starts_with(&self, s: &str) -> (b: bool)
        ensures
            b == starts_at(self.env@, self.head as int, s@),
            self.env@.len() <= usize::MAX,
    {
        let n = s.unicode_len();
        let len = self.env.len();
        if self.head > len || len - self.head < n {
            return false;
        }
        let mut i: usize = 0;
        while i < n
            invariant
                n == s@.len(),
                len == self.env@.len(),
                self.head + n <= len,
                i <= n,
                forall|k: int| 0 <= k < i ==> self.env@[self.head + k] == s@[k],
            decreases n - i,
        {
            if self.env[self.head + i] != s.get_char(i) {
                proof {
                    let sub = self.env@.subrange(self.head as int, self.head + n);
                    assert(sub[i as int] != s@[i as int]);
                }
                return false;
            }
            i += 1;
        }
        proof {
            assert(self.env@.subrange(self.head as int, self.head + n) =~= s@);
        }
        true
    }

    /// Skips the spaces at the position.
    fn head_skip_spaces(&mut self)
        requires
            old(self).format.space.parse@.len() > 0,
        ensures
            final(self).head == skip_spaces(*old(self).format, old(self).env@, old(self).head as int),
            final(self).head >= old(self).head,
            old(self).head <= old(self).env@.len() ==> final(self).head <= final(self).env@.len(),
            final(self).env == old(self).env,
            final(self).format == old(self).format,
            final(self).mid_result == old(self).mid_result,
    {
        let ghost h0 = self.head;
        let ghost e0 = self.env;
        let ghost f0 = self.format;
        let ghost m0 = self.mid_result;
        while self.starts_with(self.format.space.parse)
            invariant
                self.format.space.parse@.len() > 0,
                skip_spaces(*self.format, self.env@, self.head as int) == skip_spaces(*f0, e0@, h0 as int),
                self.head >= h0,
                h0 <= self.env@.len() ==> self.head <= self.env@.len(),
                self.env == e0,
                self.format == f0,
                self.mid_result == m0,
            decreases left_to_read(self.env@.len(), self.head),
        {
            let space = self.format.space.parse;
            let ghost before = self.head;
            assert(before + space@.len() <= self.env@.len());
            self.head_skip(space);
            assert(self.head == before + space@.len());
        }
    }

    /// Skips `s` whatever stands there, then the spaces.
    fn head_skip_and_spaces(&mut self, s: &str)
        requires
            old(self).format.space.parse@.len() > 0,
        ensures
            final(self).head == skip_spaces(
                *old(self).format,
                old(self).env@,
                sat_add(old(self).head as int, s@.len() as int),
            ),
            final(self).head >= old(self).head,
            starts_at(old(self).env@, old(self).head as int, s@) ==> final(self).head
                <= final(self).env@.len() && final(self).head >= old(self).head + s@.len(),
            final(self).env == old(self).env,
            final(self).format == old(self).format,
            final(self).mid_result == old(self).mid_result,
    {
        let ghost h0 = self.head;
        let _ = self.env.len();
        self.head_skip(s);
        assert(starts_at(self.env@, h0 as int, s@) ==> self.head == h0 + s@.len()
            && self.head <= self.env@.len());
        self.head_skip_spaces();
    }

    /// Skips the spaces, then `s` whatever stands there.
    fn head_skip_after_spaces(&mut self, s: &str)
        requires
            old(self).format.space.parse@.len() > 0,
        ensures
            final(self).head == sat_add(
                skip_spaces(*old(self).format, old(self).env@, old(self).head as int),
                s@.len() as int,
            ),
            final(self).head >= old(self).head,
            final(self).env == old(self).env,
            final(self).format == old(self).format,
            final(self).mid_result == old(self).mid_result,
    {
        self.head_skip_spaces();
        self.head_skip(s);
    }

    /// An error with a message at the position.
    fn err(&self, message: &str) -> (e: ParseError)
        ensures
            e.message()@ == message@,
            e.index() == self.head,
            error_in(e, self.env@, (message@, self.head as int)),
    {
        ParseError::located(message, &self.env, self.head)
    }

    /// The error that stops the reading at the position, past the end of the text (see
    /// [`past_end`]).
    fn past_end(&self) -> (e: ParseError)
        ensures
            e.message()@ == Seq::<char>::empty(),
            e.index() == self.head,
            error_in(e, self.env@, past_end(self.head as int)),
    {
        let none = "";
        proof {
            reveal_strlit("");
        }
        assert(none@ =~= Seq::<char>::empty());
        ParseError::located(none, &self.env, self.head)
    }

    /// An error with a message at the position, unless the position lies too far past the
    /// end of the text to show the text around it (see [`beyond_report`]).
    fn err_reported(&self, message: &str) -> (e: ParseError)
        ensures
            e.index() == self.head,
            e.message()@ == (if beyond_report(self.env@, self.head as int) {
                Seq::<char>::empty()
            } else {
                message@
            }),
            error_in(e, self.env@, (e.message()@, self.head as int)),
    {
        if self.head > self.env.len() && self.head - self.env.len() > ERR_CHAR_VIEW_RANGE {
            self.past_end()
        } else {
            self.err(message)
        }
    }

    /// Reads a punctuation (the first that stands at the position).
    fn consume_punctuation(&mut self) -> (r: Result<(), ParseError>)
        requires
            old(self).mid_result.punctuation is None,
        ensures
            final(self).env == old(self).env,
            final(self).format == old(self).format,
            final(self).head >= old(self).head,
            r is Ok ==> final(self).mid_result.punctuation is Some && final(self).mid_result.term
                == old(self).mid_result.term && final(self).mid_result.truth == old(
                self,
            ).mid_result.truth && final(self).mid_result.budget == old(self).mid_result.budget
                && final(self).mid_result.stamp == old(self).mid_result.stamp,
            r is Err ==> final(self).mid_result == old(self).mid_result,
            r is Ok ==> read_punctuation(*old(self).format, old(self).env@, old(self).head as int) == Ok::<_, (Seq<char>, int)>(
                (final(self).mid_result.punctuation->Some_0, final(self).head as int),
            ),
            r matches Err(e) ==> read_punctuation(*old(self).format, old(self).env@, old(self).head as int)
                == Err::<(Punctuation, int), _>((e.message()@, e.index() as int)) && error_in(
                e,
                old(self).env@,
                (e.message()@, e.index() as int),
            ) && final(self).head == e.index(),
    {
        let format = self.format;
        let punctuation = if self.starts_with(format.sentence.punctuation_judgement) {
            self.head_skip(format.sentence.punctuation_judgement);
            Punctuation::Judgement
        } else if self.starts_with(format.sentence.punctuation_goal) {
            self.head_skip(format.sentence.punctuation_goal);
            Punctuation::Goal
        } else if self.starts_with(format.sentence.punctuation_question) {
            self.head_skip(format.sentence.punctuation_question);
            Punctuation::Question
        } else if self.starts_with(format.sentence.punctuation_quest) {
            self.head_skip(format.sentence.punctuation_quest);
            Punctuation::Quest
        } else {
            return Err(self.err("未知的标点"));
        };
        self.mid_result.punctuation = Some(punctuation);
        Ok(())
    }

    /// Reads up to `n` numbers separated by `separator` and closed by `right_bracket`,
    /// skipping spaces; returns their literals. A number that ends at the separator must
    /// be a decimal literal; one that ends at the bracket counts only if it is one;
    /// reading stops after `n` numbers, at the bracket, or at the end of the text.
    fn parse_separated_floats(&mut self, n: usize, separator: &str, right_bracket: &str) -> (r: Result<Vec<String>, ParseError>)
        requires
            old(self).format.space.parse@.len() > 0,
            separator@.len() > 0,
        ensures
            final(self).env == old(self).env,
            final(self).format == old(self).format,
            final(self).mid_result == old(self).mid_result,
            final(self).head >= old(self).head,
            r is Ok ==> r->Ok_0@.len() <= n && (forall|i: int|
                0 <= i < r->Ok_0@.len() ==> is_float_literal(#[trigger] r->Ok_0@[i]@)),
            r matches Ok(v) ==> read_floats(
                *old(self).format,
                old(self).env@,
                old(self).head as int,
                n as nat,
                separator@,
                right_bracket@,
                Seq::empty(),
                Seq::empty(),
            ) == Ok::<_, (Seq<char>, int)>((texts(v@), final(self).head as int)),
            r matches Err(e) ==> read_floats(
                *old(self).format,
                old(self).env@,
                old(self).head as int,
                n as nat,
                separator@,
                right_bracket@,
                Seq::empty(),
                Seq::empty(),
            ) == Err::<(Seq<Seq<char>>, int), _>((e.message()@, e.index() as int)) && error_in(
                e,
                old(self).env@,
                (e.message()@, e.index() as int),
            ) && final(self).head == e.index(),
    {
        let ghost f0 = *self.format;
        let ghost env0 = self.env@;
        let ghost h0 = self.head as int;
        let mut result: Vec<String> = Vec::new();
        let mut value_buffer: Vec<char> = Vec::new();
        assert(texts(result@) =~= Seq::<Seq<char>>::empty());
        assert(value_buffer@ =~= Seq::<char>::empty());
        while self.can_consume() && result.len() < n
            invariant_except_break
                read_floats(f0, env0, self.head as int, n as nat, separator@, right_bracket@, texts(result@), value_buffer@)
                    == read_floats(f0, env0, h0, n as nat, separator@, right_bracket@, Seq::empty(), Seq::empty()),
            invariant
                self.env == old(self).env,
                self.format == old(self).format,
                self.mid_result == old(self).mid_result,
                self.head >= old(self).head,
                self.format.space.parse@.len() > 0,
                separator@.len() > 0,
                result@.len() <= n,
                forall|i: int| 0 <= i < result@.len() ==> is_float_literal(#[trigger] result@[i]@),
                *self.format == f0,
                self.env@ == env0,
                f0 == *old(self).format,
                env0 == old(self).env@,
                h0 == old(self).head as int,
            ensures
                read_floats(f0, env0, h0, n as nat, separator@, right_bracket@, Seq::empty(), Seq::empty())
                    == Ok::<_, (Seq<char>, int)>((texts(result@), self.head as int)),
            decreases left_to_read(self.env@.len(), self.head),
        {
            let c = self.head_char();
            if self.starts_with(self.format.space.parse) {
                self.head_skip(self.format.space.parse);
            } else if c == '.' || ('0' <= c && c <= '9') {
                value_buffer.push(c);
                self.head_step(1);
            } else if self.starts_with(separator) {
                if check_float_literal(&value_buffer) {
                    let literal = string_from_chars(value_buffer.as_slice());
                    let ghost before = result@;
                    result.push(literal);
                    proof {
                        assert(texts(result@) =~= texts(before).push(value_buffer@));
                    }
                    value_buffer = Vec::new();
                    self.head_skip(separator);
                } else {
                    let text = string_from_chars(value_buffer.as_slice());
                    let mut message = debug_str(text.as_str());
                    push_str(&mut message, "不是有效的数值");
                    assert(read_floats(f0, env0, self.head as int, n as nat, separator@, right_bracket@, texts(result@), value_buffer@)
                        == Err::<(Seq<Seq<char>>, int), _>((message@, self.head as int)));
                    let e = self.err(message.as_str());
                    assert(read_floats(*old(self).format, old(self).env@, old(self).head as int, n as nat, separator@, right_bracket@, Seq::empty(), Seq::empty())
                        == Err::<(Seq<Seq<char>>, int), _>((e.message()@, e.index() as int)));
                    return Err(e);
                }
            } else if self.starts_with(right_bracket) {
                if check_float_literal(&value_buffer) {
                    let literal = string_from_chars(value_buffer.as_slice());
                    let ghost before = result@;
                    result.push(literal);
                    proof {
                        assert(texts(result@) =~= texts(before).push(value_buffer@));
                    }
                }
                break;
            } else {
                let mut message = String::new();
                push_str(&mut message, "在解析浮点序列时出现无效字符");
                let shown = debug_char(c);
                push_str(&mut message, shown.as_str());
                assert(read_floats(f0, env0, self.head as int, n as nat, separator@, right_bracket@, texts(result@), value_buffer@)
                    == Err::<(Seq<Seq<char>>, int), _>((message@, self.head as int)));
                let e = self.err(message.as_str());
                assert(read_floats(*old(self).format, old(self).env@, old(self).head as int, n as nat, separator@, right_bracket@, Seq::empty(), Seq::empty())
                    == Err::<(Seq<Seq<char>>, int), _>((e.message()@, e.index() as int)));
                return Err(e);
            }
        }
        Ok(result)
    }

    /// Reads a signed integer: the longest run of digits and signs, which must read as
    /// an `isize`.
    fn parse_isize(&mut self) -> (r: Result<isize, ParseError>)
        requires
            old(self).head <= old(self).env@.len(),
        ensures
            final(self).env == old(self).env,
            final(self).format == old(self).format,
            final(self).mid_result == old(self).mid_result,
            final(self).head >= old(self).head,
            r is Ok ==> final(self).head > old(self).head && r->Ok_0 == spec_parse_isize(
                old(self).env@.subrange(old(self).head as int, final(self).head as int),
            )->Some_0 && spec_parse_isize(
                old(self).env@.subrange(old(self).head as int, final(self).head as int),
            ) is Some,
            r matches Ok(v) ==> read_isize(old(self).env@, old(self).head as int) == Ok::<_, (Seq<char>, int)>(
                (v, final(self).head as int),
            ),
            r matches Err(e) ==> read_isize(old(self).env@, old(self).head as int) == Err::<(isize, int), _>(
                (e.message()@, e.index() as int),
            ) && error_in(e, old(self).env@, (e.message()@, e.index() as int)) && final(self).head
                == e.index(),
    {
        let start = self.head;
        let mut int_buffer: Vec<char> = Vec::new();
        assert(self.env@.subrange(start as int, start as int) =~= int_buffer@);
        while self.can_consume() && is_integer_char(self.head_char())
            invariant
                self.env == old(self).env,
                self.format == old(self).format,
                self.mid_result == old(self).mid_result,
                start == old(self).head,
                start <= self.head <= self.env@.len(),
                int_buffer@ == self.env@.subrange(start as int, self.head as int),
                int_end(self.env@, self.head as int) == int_end(self.env@, start as int),
            decreases self.env@.len() - self.head,
        {
            let c = self.head_char();
            let ghost before = self.head;
            int_buffer.push(c);
            self.head_step(1);
            proof {
                assert(self.head == before + 1);
                assert(self.env@.subrange(start as int, self.head as int) =~= self.env@.subrange(
                    start as int,
                    before as int,
                ).push(c));
            }
        }
        if self.head == start {
            return Err(self.err("空的无符号整数值"));
        }
        match parse_isize(int_buffer.as_slice()) {
            Some(value) => Ok(value),
            None => {
                let text = string_from_chars(int_buffer.as_slice());
                let mut message = debug_str(text.as_str());
                push_str(&mut message, "不是有效的数值");
                Err(self.err(message.as_str()))
            },
        }
    }

    /// Reads a stamp: its left bracket, a kind (a fixed time with its number), its right
    /// bracket.
    fn consume_stamp(&mut self) -> (r: Result<(), ParseError>)
        requires
            old(self).format.space.parse@.len() > 0,
            old(self).mid_result.stamp is None,
        ensures
            final(self).env == old(self).env,
            final(self).format == old(self).format,
            final(self).head >= old(self).head,
            r is Ok ==> final(self).mid_result.stamp is Some && final(self).mid_result.term
                == old(self).mid_result.term && final(self).mid_result.truth == old(
                self,
            ).mid_result.truth && final(self).mid_result.budget == old(self).mid_result.budget
                && final(self).mid_result.punctuation == old(self).mid_result.punctuation,
            r is Err ==> final(self).mid_result == old(self).mid_result,
            r is Ok ==> read_stamp(*old(self).format, old(self).env@, old(self).head as int) == Ok::<_, (Seq<char>, int)>(
                (final(self).mid_result.stamp->Some_0, final(self).head as int),
            ),
            r matches Err(e) ==> read_stamp(*old(self).format, old(self).env@, old(self).head as int)
                == Err::<(Stamp, int), _>((e.message()@, e.index() as int)) && error_in(
                e,
                old(self).env@,
                (e.message()@, e.index() as int),
            ) && final(self).head == e.index(),
    {
        let format = self.format;
        self.head_skip(format.sentence.stamp_brackets.0);
        if self.head > self.env.len() {
            return Err(self.past_end());
        }
        self.head_skip_spaces();
        let stamp = if self.starts_with(format.sentence.stamp_fixed) {
            self.head_skip(format.sentence.stamp_fixed);
            let time = match self.parse_isize() {
                Ok(t) => t,
                Err(e) => return Err(e),
            };
            Stamp::Fixed(time)
        } else if self.starts_with(format.sentence.stamp_past) {
            self.head_skip(format.sentence.stamp_past);
            Stamp::Past
        } else if self.starts_with(format.sentence.stamp_present) {
            self.head_skip(format.sentence.stamp_present);
            Stamp::Present
        } else if self.starts_with(format.sentence.stamp_future) {
            self.head_skip(format.sentence.stamp_future);
            Stamp::Future
        } else {
            return Err(self.err("无效时间戳类型"));
        };
        self.mid_result.stamp = Some(stamp);
        self.head_skip_after_spaces(format.sentence.stamp_brackets.1);
        Ok(())
    }

    /// Whether all the literals round to numbers in `[0, 1]`.
    fn literals_in_01(literals: &Vec<String>) -> (b: bool)
        ensures
            b == forall|i: int| 0 <= i < literals@.len() ==> literal_in_01(#[trigger] literals@[i]@),
    {
        let mut i: usize = 0;
        while i < literals.len()
            invariant
                i <= literals@.len(),
                forall|k: int| 0 <= k < i ==> literal_in_01(#[trigger] literals@[k]@),
            decreases literals.len() - i,
        {
            let chars = chars_of(literals[i].as_str());
            if !check_literal_in_01(&chars) {
                return false;
            }
            i += 1;
        }
        true
    }

    /// Reads a truth value: its left bracket, up to two numbers in `[0, 1]`, its right
    /// bracket.
    fn consume_truth(&mut self) -> (r: Result<(), ParseError>)
        requires
            parse_wf(*old(self).format),
            old(self).mid_result.truth is None,
        ensures
            final(self).env == old(self).env,
            final(self).format == old(self).format,
            final(self).head >= old(self).head,
            r is Ok ==> (final(self).mid_result.truth matches Some(v) && v@.len() <= 2
                && valid_literals(v@)) && final(self).mid_result.term == old(self).mid_result.term
                && final(self).mid_result.stamp == old(self).mid_result.stamp
                && final(self).mid_result.budget == old(self).mid_result.budget
                && final(self).mid_result.punctuation == old(self).mid_result.punctuation,
            r is Err ==> final(self).mid_result == old(self).mid_result,
            r is Ok ==> read_truth(*old(self).format, old(self).env@, old(self).head as int) == Ok::<_, (Seq<char>, int)>(
                (texts(final(self).mid_result.truth->Some_0@), final(self).head as int),
            ),
            r matches Err(e) ==> read_truth(*old(self).format, old(self).env@, old(self).head as int)
                == Err::<(Seq<Seq<char>>, int), _>((e.message()@, e.index() as int)) && error_in(
                e,
                old(self).env@,
                (e.message()@, e.index() as int),
            ) && final(self).head == e.index(),
    {
        let format = self.format;
        self.head_skip(format.sentence.truth_brackets.0);
        if self.head > self.env.len() {
            return Err(self.past_end());
        }
        self.head_skip_spaces();
        let floats = match self.parse_separated_floats(
            2,
            format.sentence.truth_separator,
            format.sentence.truth_brackets.1,
        ) {
            Ok(v) => v,
            Err(e) => return Err(e),
        };
        if !Self::literals_in_01(&floats) {
            proof {
                let i = choose|i: int| 0 <= i < floats@.len() && !literal_in_01(#[trigger] floats@[i]@);
                assert(texts(floats@)[i] == floats@[i]@);
            }
            return Err(self.err("「0-1」区间外的值（建议：`0<x<1`）"));
        }
        self.head_skip_after_spaces(format.sentence.truth_brackets.1);
        self.mid_result.truth = Some(floats);
        Ok(())
    }

    /// Reads a budget: its left bracket, up to three numbers in `[0, 1]`, its right
    /// bracket.
    fn consume_budget(&mut self) -> (r: Result<(), ParseError>)
        requires
            parse_wf(*old(self).format),
            old(self).mid_result.budget is None,
        ensures
            final(self).env == old(self).env,
            final(self).format == old(self).format,
            final(self).head >= old(self).head,
            r is Ok ==> (final(self).mid_result.budget matches Some(v) && v@.len() <= 3
                && valid_literals(v@)) && final(self).mid_result.term == old(self).mid_result.term
                && final(self).mid_result.stamp == old(self).mid_result.stamp
                && final(self).mid_result.truth == old(self).mid_result.truth
                && final(self).mid_result.punctuation == old(self).mid_result.punctuation,
            r is Err ==> final(self).mid_result == old(self).mid_result,
            r is Ok ==> read_budget(*old(self).format, old(self).env@, old(self).head as int) == Ok::<_, (Seq<char>, int)>(
                (texts(final(self).mid_result.budget->Some_0@), final(self).head as int),
            ),
            r matches Err(e) ==> read_budget(*old(self).format, old(self).env@, old(self).head as int)
                == Err::<(Seq<Seq<char>>, int), _>((e.message()@, e.index() as int)) && error_in(
                e,
                old(self).env@,
                (e.message()@, e.index() as int),
            ) && final(self).head == e.index(),
    {
        let format = self.format;
        self.head_skip(format.task.budget_brackets.0);
        if self.head > self.env.len() {
            return Err(self.past_end());
        }
        self.head_skip_spaces();
        let floats = match self.parse_separated_floats(
            3,
            format.task.budget_separator,
            format.task.budget_brackets.1,
        ) {
            Ok(v) => v,
            Err(e) => return Err(e),
        };
        if !Self::literals_in_01(&floats) {
            proof {
                let i = choose|i: int| 0 <= i < floats@.len() && !literal_in_01(#[trigger] floats@[i]@);
                assert(texts(floats@)[i] == floats@[i]@);
            }
            return Err(self.err("「0-1」区间外的值（建议：`0<x<1`）"));
        }
        self.head_skip_after_spaces(format.task.budget_brackets.1);
        self.mid_result.budget = Some(floats);
        Ok(())
    }

    /// Reads a term: a set, a compound or a statement by its opening bracket, else an
    /// atom.
    fn parse_term(&mut self) -> (r: Result<Term, ParseError>)
        requires
            parse_wf(*old(self).format),
        ensures
            final(self).env == old(self).env,
            final(self).format == old(self).format,
            final(self).mid_result == old(self).mid_result,
            final(self).head >= old(self).head,
            r is Ok ==> final(self).head > old(self).head,
            r matches Ok(t) ==> read_term(*old(self).format, old(self).env@, old(self).head as int) matches Ok(
                (rt, end),
            ) && builds(rt, t) && final(self).head == end,
            r matches Err(e) ==> read_term(*old(self).format, old(self).env@, old(self).head as int)
                == Err::<(TermRecipe, int), _>((e.message()@, e.index() as int)) && error_in(
                e,
                old(self).env@,
                (e.message()@, e.index() as int),
            ) && final(self).head == e.index(),
        decreases left_to_read(old(self).env@.len(), old(self).head), 5nat,
    {
        let format = self.format;
        if self.starts_with(format.compound.brackets_set_extension.0) {
            self.parse_compound_set_extension()
        } else if self.starts_with(format.compound.brackets_set_intension.0) {
            self.parse_compound_set_intension()
        } else if self.starts_with(format.compound.brackets.0) {
            self.parse_compound()
        } else if self.starts_with(format.statement.brackets.0) {
            self.parse_statement()
        } else {
            self.parse_atom()
        }
    }

    /// Reads terms into `target`, skipping spaces and separators, until the right
    /// bracket (which stays to be read) or the end of the text.
    fn parse_compound_terms(&mut self, target: &mut Vec<Term>, right_bracket: &str) -> (r: Result<(), ParseError>)
        requires
            parse_wf(*old(self).format),
            old(target)@.len() == 0,
        ensures
            final(self).env == old(self).env,
            final(self).format == old(self).format,
            final(self).mid_result == old(self).mid_result,
            final(self).head >= old(self).head,
            r is Ok ==> (read_terms(*old(self).format, old(self).env@, old(self).head as int, right_bracket@) matches Ok(
                (rs, end),
            ) && builds_all(rs, final(target)@) && final(self).head == end),
            r matches Err(e) ==> read_terms(*old(self).format, old(self).env@, old(self).head as int, right_bracket@)
                == Err::<(Seq<TermRecipe>, int), _>((e.message()@, e.index() as int)) && error_in(
                e,
                old(self).env@,
                (e.message()@, e.index() as int),
            ) && final(self).head == e.index(),
        decreases left_to_read(old(self).env@.len(), old(self).head), 6nat,
    {
        let format = self.format;
        let ghost f0 = *self.format;
        let ghost env0 = self.env@;
        let ghost h0 = self.head as int;
        let ghost mut read: Seq<TermRecipe> = Seq::empty();
        proof {
            assert(after_terms(read, read_terms(f0, env0, h0, right_bracket@)) =~= read_terms(
                f0,
                env0,
                h0,
                right_bracket@,
            )) by {
                match read_terms(f0, env0, h0, right_bracket@) {
                    Ok((more, end)) => {
                        assert(read + more =~= more);
                    },
                    Err(e) => {},
                }
            }
        }
        while self.can_consume()
            invariant
                self.env == old(self).env,
                self.format == old(self).format,
                self.mid_result == old(self).mid_result,
                self.head >= old(self).head,
                parse_wf(*self.format),
                format == self.format,
                f0 == *old(self).format,
                env0 == old(self).env@,
                h0 == old(self).head as int,
                after_terms(read, read_terms(f0, env0, self.head as int, right_bracket@)) == read_terms(
                    f0,
                    env0,
                    h0,
                    right_bracket@,
                ),
                builds_all(read, target@),
            ensures
                read_terms(f0, env0, h0, right_bracket@) == Ok::<_, (Seq<char>, int)>((read, self.head as int)),
                builds_all(read, target@),
                self.env == old(self).env,
                self.format == old(self).format,
                self.mid_result == old(self).mid_result,
                self.head >= old(self).head,
            decreases left_to_read(self.env@.len(), self.head),
        {
            if self.starts_with(format.space.parse) {
                self.head_skip(format.space.parse);
            } else if self.starts_with(format.compound.separator) {
                self.head_skip(format.compound.separator);
            } else if self.starts_with(right_bracket) {
                proof {
                    assert(read + Seq::<TermRecipe>::empty() =~= read);
                }
                break;
            } else {
                let ghost before = self.head as int;
                match self.parse_term() {
                    Ok(t) => {
                        let ghost rt = read_term(f0, env0, before)->Ok_0.0;
                        let ghost prev = target@;
                        target.push(t);
                        proof {
                            let rest = read_terms(f0, env0, self.head as int, right_bracket@);
                            match rest {
                                Ok((more, end)) => {
                                    assert(read + (seq![rt] + more) =~= read.push(rt) + more);
                                },
                                Err(e) => {},
                            }
                            read = read.push(rt);
                            assert(target@.subrange(0, prev.len() as int) =~= prev);
                            assert forall|i: int| 0 <= i < read.len() implies #[trigger] builds(read[i], target@[i]) by {
                                if i < prev.len() {
                                    assert(target@[i] == prev[i]);
                                }
                            }
                        }
                    },
                    Err(e) => return Err(e),
                }
            }
        }
        proof {
            if !(self.head < self.env@.len()) {
                assert(read + Seq::<TermRecipe>::empty() =~= read);
            }
        }
        Ok(())
    }

    /// Reads `{term, term, ...}` with the given brackets: at least one term.
    fn parse_term_set(&mut self, left_bracket: &str, right_bracket: &str) -> (r: Result<Vec<Term>, ParseError>)
        requires
            parse_wf(*old(self).format),
            left_bracket@.len() > 0,
            starts_at(old(self).env@, old(self).head as int, left_bracket@),
        ensures
            final(self).env == old(self).env,
            final(self).format == old(self).format,
            final(self).mid_result == old(self).mid_result,
            final(self).head >= old(self).head,
            r is Ok ==> final(self).head > old(self).head,
            r matches Ok(v) ==> read_term_set(
                *old(self).format,
                old(self).env@,
                old(self).head as int,
                left_bracket@,
                right_bracket@,
            ) matches Ok((rs, end)) && builds_all(rs, v@) && final(self).head == end,
            r matches Err(e) ==> read_term_set(
                *old(self).format,
                old(self).env@,
                old(self).head as int,
                left_bracket@,
                right_bracket@,
            ) == Err::<(Seq<TermRecipe>, int), _>((e.message()@, e.index() as int)) && error_in(
                e,
                old(self).env@,
                (e.message()@, e.index() as int),
            ) && final(self).head == e.index(),
        decreases left_to_read(old(self).env@.len(), old(self).head), 3nat,
    {
        let mut terms: Vec<Term> = Vec::new();
        proof {
            lemma_skip_spaces_forward(*self.format, self.env@, self.head + left_bracket@.len());
        }
        self.head_skip_and_spaces(left_bracket);
        match self.parse_compound_terms(&mut terms, right_bracket) {
            Ok(()) => {},
            Err(e) => return Err(e),
        }
        if self.head > self.env.len() {
            return Err(self.past_end());
        }
        self.head_skip_after_spaces(right_bracket);
        if terms.len() == 0 {
            Err(self.err_reported("词项集为空"))
        } else {
            Ok(terms)
        }
    }

    /// Reads an extensional set.
    fn parse_compound_set_extension(&mut self) -> (r: Result<Term, ParseError>)
        requires
            parse_wf(*old(self).format),
            starts_at(old(self).env@, old(self).head as int, old(self).format.compound.brackets_set_extension.0@),
        ensures
            final(self).env == old(self).env,
            final(self).format == old(self).format,
            final(self).mid_result == old(self).mid_result,
            final(self).head >= old(self).head,
            r is Ok ==> final(self).head > old(self).head,
            r matches Ok(t) ==> read_term_set(
                *old(self).format,
                old(self).env@,
                old(self).head as int,
                old(self).format.compound.brackets_set_extension.0@,
                old(self).format.compound.brackets_set_extension.1@,
            ) matches Ok((rs, end)) && builds(TermRecipe::TermSet(true, rs), t) && final(self).head == end,
            r matches Err(e) ==> read_term_set(
                *old(self).format,
                old(self).env@,
                old(self).head as int,
                old(self).format.compound.brackets_set_extension.0@,
                old(self).format.compound.brackets_set_extension.1@,
            ) == Err::<(Seq<TermRecipe>, int), _>((e.message()@, e.index() as int)) && error_in(
                e,
                old(self).env@,
                (e.message()@, e.index() as int),
            ) && final(self).head == e.index(),
        decreases left_to_read(old(self).env@.len(), old(self).head), 4nat,
    {
        let format = self.format;
        match self.parse_term_set(
            format.compound.brackets_set_extension.0,
            format.compound.brackets_set_extension.1,
        ) {
            Ok(terms) => {
                let ghost ts = terms@;
                let t = Term::new_set_extension(terms);
                proof {
                    let rs = read_term_set(
                        *self.format,
                        self.env@,
                        old(self).head as int,
                        self.format.compound.brackets_set_extension.0@,
                        self.format.compound.brackets_set_extension.1@,
                    )->Ok_0.0;
                    assert(builds_all(rs, ts));
                    assert(builds_set(rs, t->SetExtension_0@));
                }
                Ok(t)
            },
            Err(e) => Err(e),
        }
    }

    /// Reads an intensional set.
    fn parse_compound_set_intension(&mut self) -> (r: Result<Term, ParseError>)
        requires
            parse_wf(*old(self).format),
            starts_at(old(self).env@, old(self).head as int, old(self).format.compound.brackets_set_intension.0@),
        ensures
            final(self).env == old(self).env,
            final(self).format == old(self).format,
            final(self).mid_result == old(self).mid_result,
            final(self).head >= old(self).head,
            r is Ok ==> final(self).head > old(self).head,
            r matches Ok(t) ==> read_term_set(
                *old(self).format,
                old(self).env@,
                old(self).head as int,
                old(self).format.compound.brackets_set_intension.0@,
                old(self).format.compound.brackets_set_intension.1@,
            ) matches Ok((rs, end)) && builds(TermRecipe::TermSet(false, rs), t) && final(self).head == end,
            r matches Err(e) ==> read_term_set(
                *old(self).format,
                old(self).env@,
                old(self).head as int,
                old(self).format.compound.brackets_set_intension.0@,
                old(self).format.compound.brackets_set_intension.1@,
            ) == Err::<(Seq<TermRecipe>, int), _>((e.message()@, e.index() as int)) && error_in(
                e,
                old(self).env@,
                (e.message()@, e.index() as int),
            ) && final(self).head == e.index(),
        decreases left_to_read(old(self).env@.len(), old(self).head), 4nat,
    {
        let format = self.format;
        match self.parse_term_set(
            format.compound.brackets_set_intension.0,
            format.compound.brackets_set_intension.1,
        ) {
            Ok(terms) => {
                let ghost ts = terms@;
                let t = Term::new_set_intension(terms);
                proof {
                    let rs = read_term_set(
                        *self.format,
                        self.env@,
                        old(self).head as int,
                        self.format.compound.brackets_set_intension.0@,
                        self.format.compound.brackets_set_intension.1@,
                    )->Ok_0.0;
                    assert(builds_all(rs, ts));
                    assert(builds_set(rs, t->SetIntension_0@));
                }
                Ok(t)
            },
            Err(e) => Err(e),
        }
    }

    /// Removes the first placeholder from the terms and gives its index; an error when
    /// there is none.
    fn parse_terms_with_image(&self, terms: &mut Vec<Term>) -> (r: Result<usize, ParseError>)
        ensures
            match r {
                Ok(i) => i < old(terms)@.len() && old(terms)@[i as int] is Placeholder && (forall|k: int|
                    0 <= k < i ==> !(#[trigger] old(terms)@[k] is Placeholder)) && final(terms)@
                    == old(terms)@.remove(i as int),
                Err(e) => final(terms)@ == old(terms)@ && (forall|k: int|
                    0 <= k < old(terms)@.len() ==> !(#[trigger] old(terms)@[k] is Placeholder))
                    && e.message()@ == (if beyond_report(self.env@, self.head as int) {
                    Seq::<char>::empty()
                } else {
                    "未在词项序列中找到占位符"@
                }) && error_in(
                    e,
                    self.env@,
                    (e.message()@, self.head as int),
                ) && e.index() == self.head,
            },
    {
        let mut i: usize = 0;
        while i < terms.len()
            invariant
                i <= terms@.len(),
                terms@ == old(terms)@,
                forall|k: int| 0 <= k < i ==> !(#[trigger] terms@[k] is Placeholder),
            decreases terms.len() - i,
        {
            if matches!(terms[i], Term::Placeholder) {
                let _ = terms.remove(i);
                return Ok(i);
            }
            i += 1;
        }
        Err(self.err_reported("未在词项序列中找到占位符"))
    }

    /// Whether a copula of the format stands at the position.
    fn starts_with_copula(&self) -> (b: bool)
        ensures
            b == exists|i: int|
                0 <= i < 13 && starts_at(self.env@, self.head as int, #[trigger] self.format.copulas_spec()[i]@),
    {
        let copulas = self.format.copulas();
        let mut i: usize = 0;
        while i < 13
            invariant
                i <= 13,
                copulas@ == self.format.copulas_spec(),
                forall|k: int| 0 <= k < i ==> !starts_at(self.env@, self.head as int, #[trigger] copulas@[k]@),
            decreases 13 - i,
        {
            if self.starts_with(copulas[i]) {
                return true;
            }
            i += 1;
        }
        false
    }

    /// Reads an atom: the first prefix that stands at the position, then the longest run
    /// of name characters that stops before any copula. The placeholder ignores its name;
    /// other atoms need one, and an interval a number.
    fn parse_atom(&mut self) -> (r: Result<Term, ParseError>)
        requires
            parse_wf(*old(self).format),
        ensures
            final(self).env == old(self).env,
            final(self).format == old(self).format,
            final(self).mid_result == old(self).mid_result,
            final(self).head >= old(self).head,
            r is Ok ==> final(self).head > old(self).head,
            r matches Ok(t) ==> read_atom(*old(self).format, old(self).env@, old(self).head as int) matches Ok(
                (rt, end),
            ) && builds(rt, t) && final(self).head == end,
            r matches Err(e) ==> read_atom(*old(self).format, old(self).env@, old(self).head as int)
                == Err::<(TermRecipe, int), _>((e.message()@, e.index() as int)) && error_in(
                e,
                old(self).env@,
                (e.message()@, e.index() as int),
            ) && final(self).head == e.index(),
    {
        let format = self.format;
        let ghost h0 = self.head;
        let mut term = if self.starts_with(format.atom.prefix_placeholder) {
            self.head_skip(format.atom.prefix_placeholder);
            Term::new_placeholder()
        } else if self.starts_with(format.atom.prefix_variable_independent) {
            self.head_skip(format.atom.prefix_variable_independent);
            Term::new_variable_independent("")
        } else if self.starts_with(format.atom.prefix_variable_dependent) {
            self.head_skip(format.atom.prefix_variable_dependent);
            Term::new_variable_dependent("")
        } else if self.starts_with(format.atom.prefix_variable_query) {
            self.head_skip(format.atom.prefix_variable_query);
            Term::new_variable_query("")
        } else if self.starts_with(format.atom.prefix_interval) {
            self.head_skip(format.atom.prefix_interval);
            Term::new_interval(0)
        } else if self.starts_with(format.atom.prefix_operator) {
            self.head_skip(format.atom.prefix_operator);
            Term::new_operator("")
        } else if self.starts_with(format.atom.prefix_word) {
            self.head_skip(format.atom.prefix_word);
            Term::new_word("")
        } else {
            return Err(self.err("未知的原子词项前缀"));
        };
        let ghost h1 = self.head;
        let ghost kind = atom_prefix(*format, self.env@, h0 as int)->Some_0.0;
        assert(h1 <= self.env@.len());
        assert(h1 == h0 + atom_prefix(*format, self.env@, h0 as int)->Some_0.1);
        let mut name_buffer: Vec<char> = Vec::new();
        while self.can_consume() && self.name_goes_on()
            invariant
                self.env == old(self).env,
                self.format == old(self).format,
                self.mid_result == old(self).mid_result,
                h0 <= h1 <= self.head <= self.env@.len(),
                name_buffer@ == self.env@.subrange(h1 as int, self.head as int),
                name_end(*self.format, self.env@, self.head as int) == name_end(*self.format, self.env@, h1 as int),
                term is Placeholder ==> h1 > h0,
            decreases self.env@.len() - self.head,
        {
            let head_char = self.head_char();
            let ghost before = self.head;
            name_buffer.push(head_char);
            self.head_step(1);
            proof {
                assert(self.env@.subrange(h1 as int, self.head as int) =~= self.env@.subrange(
                    h1 as int,
                    before as int,
                ).push(head_char));
            }
        }
        assert(self.head == name_end(*format, self.env@, h1 as int));
        if matches!(term, Term::Placeholder) {
            return Ok(term);
        }
        if name_buffer.len() == 0 {
            return Err(self.err("词项名不能为空"));
        }
        let name = string_from_chars(name_buffer.as_slice());
        match term.set_atom_name(name.as_str()) {
            Ok(()) => Ok(term),
            Err(_) => {
                let mut message = String::new();
                push_str(&mut message, "非法词项名 ");
                let shown = debug_str(name.as_str());
                push_str(&mut message, shown.as_str());
                Err(self.err(message.as_str()))
            },
        }
    }

    /// Whether the name of an atom goes on at the position: a name character that begins
    /// no copula.
    fn name_goes_on(&self) -> (b: bool)
        requires
            self.head < self.env@.len(),
        ensures
            b == (is_name_char(self.env@[self.head as int]) && !copula_at(*self.format, self.env@, self.head as int)),
    {
        is_valid_atom_name(self.head_char()) && !self.starts_with_copula()
    }

    /// Reads a compound: left bracket, connector, components, right bracket. Negations
    /// take one component, differences two; images take their placeholder out of the
    /// components; the other compounds take all of them.
    fn parse_compound(&mut self) -> (r: Result<Term, ParseError>)
        requires
            parse_wf(*old(self).format),
            starts_at(old(self).env@, old(self).head as int, old(self).format.compound.brackets.0@),
        ensures
            final(self).env == old(self).env,
            final(self).format == old(self).format,
            final(self).mid_result == old(self).mid_result,
            final(self).head >= old(self).head,
            r is Ok ==> final(self).head > old(self).head,
            r matches Ok(t) ==> read_compound(*old(self).format, old(self).env@, old(self).head as int) matches Ok(
                (rt, end),
            ) && builds(rt, t) && final(self).head == end,
            r matches Err(e) ==> read_compound(*old(self).format, old(self).env@, old(self).head as int)
                == Err::<(TermRecipe, int), _>((e.message()@, e.index() as int)) && error_in(
                e,
                old(self).env@,
                (e.message()@, e.index() as int),
            ) && final(self).head == e.index(),
        decreases left_to_read(old(self).env@.len(), old(self).head), 4nat,
    {
        let format = self.format;
        let ghost f0 = *self.format;
        let ghost env0 = self.env@;
        let ghost h0 = self.head as int;
        proof {
            lemma_skip_spaces_forward(f0, env0, h0 + format.compound.brackets.0@.len());
        }
        self.head_skip_and_spaces(format.compound.brackets.0);
        let ghost start = self.head as int;
        let kind = match self.read_connecter() {
            Ok(k) => k,
            Err(e) => return Err(e),
        };
        let ghost after_connecter = self.head as int;
        let mut terms: Vec<Term> = Vec::new();
        match self.parse_compound_terms(&mut terms, format.compound.brackets.1) {
            Ok(()) => {},
            Err(e) => return Err(e),
        }
        let ghost rs = read_terms(f0, env0, after_connecter, format.compound.brackets.1@)->Ok_0.0;
        let term = match self.build_compound(kind, terms, Ghost(rs)) {
            Ok(t) => t,
            Err(e) => return Err(e),
        };
        if self.head > self.env.len() {
            return Err(self.past_end());
        }
        self.head_skip_after_spaces(format.compound.brackets.1);
        Ok(term)
    }

    /// Reads the connector of a compound (an operator prefix there is refused): its kind
    /// (see [`connecter_at`]).
    fn read_connecter(&mut self) -> (r: Result<u8, ParseError>)
        ensures
            final(self).env == old(self).env,
            final(self).format == old(self).format,
            final(self).mid_result == old(self).mid_result,
            final(self).head >= old(self).head,
            !starts_at(old(self).env@, old(self).head as int, old(self).format.atom.prefix_operator@)
                ==> (connecter_at(*old(self).format, old(self).env@, old(self).head as int) matches Some(
                (k, n),
            ) ==> r == Ok::<u8, ParseError>(k as u8) && k < 12 && final(self).head == old(self).head + n),
            starts_at(old(self).env@, old(self).head as int, old(self).format.atom.prefix_operator@)
                ==> (r matches Err(e) && e.message()@
                == "暂不支持OpenNARS风格`(^操作名, 参数)`操作，建议使用`<(*, 参数) --> 操作名>`代替"@
                && e.index() == sat_add(
                old(self).head as int,
                old(self).format.atom.prefix_operator@.len() as int,
            ) && error_in(e, old(self).env@, (e.message()@, e.index() as int)) && final(self).head
                == e.index()),
            (!starts_at(old(self).env@, old(self).head as int, old(self).format.atom.prefix_operator@)
                && connecter_at(*old(self).format, old(self).env@, old(self).head as int) is None)
                ==> (r matches Err(e) && e.message()@ == "未知的复合词项连接符"@ && e.index()
                == old(self).head && error_in(e, old(self).env@, (e.message()@, e.index() as int))
                && final(self).head == e.index()),
    {
        let format = self.format;
        let c = &format.compound;
        if self.starts_with(format.atom.prefix_operator) {
            self.head_skip(format.atom.prefix_operator);
            return Err(self.err("暂不支持OpenNARS风格`(^操作名, 参数)`操作，建议使用`<(*, 参数) --> 操作名>`代替"));
        }
        if self.starts_with(c.connecter_conjunction) {
            self.head_skip(c.connecter_conjunction);
            Ok(0)
        } else if self.starts_with(c.connecter_disjunction) {
            self.head_skip(c.connecter_disjunction);
            Ok(1)
        } else if self.starts_with(c.connecter_negation) {
            self.head_skip(c.connecter_negation);
            Ok(2)
        } else if self.starts_with(c.connecter_conjunction_sequential) {
            self.head_skip(c.connecter_conjunction_sequential);
            Ok(3)
        } else if self.starts_with(c.connecter_conjunction_parallel) {
            self.head_skip(c.connecter_conjunction_parallel);
            Ok(4)
        } else if self.starts_with(c.connecter_intersection_extension) {
            self.head_skip(c.connecter_intersection_extension);
            Ok(5)
        } else if self.starts_with(c.connecter_intersection_intension) {
            self.head_skip(c.connecter_intersection_intension);
            Ok(6)
        } else if self.starts_with(c.connecter_difference_extension) {
            self.head_skip(c.connecter_difference_extension);
            Ok(7)
        } else if self.starts_with(c.connecter_difference_intension) {
            self.head_skip(c.connecter_difference_intension);
            Ok(8)
        } else if self.starts_with(c.connecter_product) {
            self.head_skip(c.connecter_product);
            Ok(9)
        } else if self.starts_with(c.connecter_image_extension) {
            self.head_skip(c.connecter_image_extension);
            Ok(10)
        } else if self.starts_with(c.connecter_image_intension) {
            self.head_skip(c.connecter_image_intension);
            Ok(11)
        } else {
            Err(self.err("未知的复合词项连接符"))
        }
    }

    /// Builds the compound of the kind from the terms read (see [`compound_refusal`]), or
    /// the error at the position.
    fn build_compound(&self, kind: u8, terms: Vec<Term>, Ghost(rs): Ghost<Seq<TermRecipe>>) -> (r: Result<Term, ParseError>)
        requires
            kind < 12,
            builds_all(rs, terms@),
        ensures
            match compound_refusal(kind as nat, rs) {
                Some(message) => r matches Err(e) && e.message()@ == (if beyond_report(
                    self.env@,
                    self.head as int,
                ) {
                    Seq::<char>::empty()
                } else {
                    message
                }) && e.index() == self.head && error_in(e, self.env@, (e.message()@, self.head as int)),
                None => r matches Ok(t) && builds(TermRecipe::Compound(kind as nat, rs), t),
            },
    {
        let mut terms = terms;
        if terms.len() == 0 {
            return Err(self.err_reported("复合词项内容不能为空"));
        }
        if kind == 2 {
            if terms.len() != 1 {
                return Err(self.err_reported("一元内容长度不为1"));
            }
            let inner = terms.pop().unwrap();
            Ok(Term::new_negation(inner))
        } else if kind == 7 || kind == 8 {
            if terms.len() != 2 {
                return Err(self.err_reported("二元序列长度不为2"));
            }
            let right = terms.pop().unwrap();
            let left = terms.pop().unwrap();
            if kind == 7 {
                Ok(Term::new_difference_extension(left, right))
            } else {
                Ok(Term::new_difference_intension(left, right))
            }
        } else if kind == 10 || kind == 11 {
            let ghost before = terms@;
            let index = match self.parse_terms_with_image(&mut terms) {
                Ok(i) => i,
                Err(e) => {
                    proof {
                        assert forall|i: int| !first_placeholder(rs, i) by {
                            if 0 <= i < rs.len() && rs[i] is Placeholder {
                                assert(builds(rs[i], before[i]));
                                lemma_builds_placeholder(rs[i], before[i]);
                            }
                        }
                    }
                    return Err(e);
                },
            };
            proof {
                assert(builds(rs[index as int], before[index as int]));
                lemma_builds_placeholder(rs[index as int], before[index as int]);
                assert forall|k: int| 0 <= k < index implies !(#[trigger] rs[k] is Placeholder) by {
                    assert(builds(rs[k], before[k]));
                    lemma_builds_placeholder(rs[k], before[k]);
                }
                assert(first_placeholder(rs, index as int));
                assert forall|j: int| 0 <= j < terms@.len() && index <= j implies #[trigger] builds(rs[j + 1], terms@[j]) by {
                    assert(terms@[j] == before[j + 1]);
                    assert(builds(rs[j + 1], before[j + 1]));
                }
                assert forall|j: int| 0 <= j < index && j < terms@.len() implies #[trigger] builds(rs[j], terms@[j]) by {
                    assert(terms@[j] == before[j]);
                    assert(builds(rs[j], before[j]));
                }
                assert(builds_without(rs, index as int, terms@));
            }
            if kind == 10 {
                Ok(Term::new_image_extension(index, terms))
            } else {
                Ok(Term::new_image_intension(index, terms))
            }
        } else if kind == 3 {
            Ok(Term::new_conjunction_sequential(terms))
        } else if kind == 9 {
            Ok(Term::new_product(terms))
        } else {
            let ghost ts = terms@;
            let t = if kind == 0 {
                Term::new_conjunction(terms)
            } else if kind == 1 {
                Term::new_disjunction(terms)
            } else if kind == 4 {
                Term::new_conjunction_parallel(terms)
            } else if kind == 5 {
                Term::new_intersection_extension(terms)
            } else {
                Term::new_intersection_intension(terms)
            };
            proof {
                assert(builds_all(rs, ts));
                if kind == 0 {
                    assert(builds_set(rs, t->Conjunction_0@));
                } else if kind == 1 {
                    assert(builds_set(rs, t->Disjunction_0@));
                } else if kind == 4 {
                    assert(builds_set(rs, t->ConjunctionParallel_0@));
                } else if kind == 5 {
                    assert(builds_set(rs, t->IntersectionExtension_0@));
                } else {
                    assert(builds_set(rs, t->IntersectionIntension_0@));
                }
            }
            Ok(t)
        }
    }

    /// Reads a statement: left bracket, subject, copula, predicate, right bracket. The
    /// derived copulas build the statements that they stand for.
    fn parse_statement(&mut self) -> (r: Result<Term, ParseError>)
        requires
            parse_wf(*old(self).format),
            starts_at(old(self).env@, old(self).head as int, old(self).format.statement.brackets.0@),
        ensures
            final(self).env == old(self).env,
            final(self).format == old(self).format,
            final(self).mid_result == old(self).mid_result,
            final(self).head >= old(self).head,
            r is Ok ==> final(self).head > old(self).head,
            r matches Ok(t) ==> read_statement(*old(self).format, old(self).env@, old(self).head as int) matches Ok(
                (rt, end),
            ) && builds(rt, t) && final(self).head == end,
            r matches Err(e) ==> read_statement(*old(self).format, old(self).env@, old(self).head as int)
                == Err::<(TermRecipe, int), _>((e.message()@, e.index() as int)) && error_in(
                e,
                old(self).env@,
                (e.message()@, e.index() as int),
            ) && final(self).head == e.index(),
        decreases left_to_read(old(self).env@.len(), old(self).head), 4nat,
    {
        let format = self.format;
        let st = &format.statement;
        let ghost f0 = *self.format;
        let ghost env0 = self.env@;
        let ghost h0 = self.head as int;
        proof {
            lemma_skip_spaces_forward(f0, env0, h0 + st.brackets.0@.len());
        }
        self.head_skip_and_spaces(st.brackets.0);
        let ghost start = self.head as int;
        let subject = match self.parse_term() {
            Ok(t) => t,
            Err(e) => return Err(e),
        };
        let ghost s_recipe = read_term(f0, env0, start)->Ok_0.0;
        let ghost after_subject = self.head as int;
        if self.head > self.env.len() {
            return Err(self.past_end());
        }
        proof {
            lemma_skip_spaces_forward(f0, env0, after_subject);
        }
        self.head_skip_spaces();
        let ghost at_copula = self.head as int;
        let kind = match self.read_copula() {
            Some(k) => k,
            None => return Err(self.err("未知的陈述系词")),
        };
        proof {
            lemma_copula_len(f0, env0, at_copula, 0);
            lemma_skip_spaces_forward(f0, env0, self.head as int);
        }
        self.head_skip_spaces();
        let ghost at_predicate = self.head as int;
        let predicate = match self.parse_term() {
            Ok(t) => t,
            Err(e) => return Err(e),
        };
        let ghost p_recipe = read_term(f0, env0, at_predicate)->Ok_0.0;
        if self.head > self.env.len() {
            return Err(self.past_end());
        }
        let term = build_statement(kind, subject, predicate, Ghost(s_recipe), Ghost(p_recipe));
        self.head_skip_after_spaces(st.brackets.1);
        Ok(term)
    }

    /// Reads the first copula of the format that stands at the position (in the order of
    /// [`NarseseFormat::copulas_spec`]): its kind.
    fn read_copula(&mut self) -> (r: Option<u8>)
        ensures
            final(self).env == old(self).env,
            final(self).format == old(self).format,
            final(self).mid_result == old(self).mid_result,
            copula_kind(*old(self).format, old(self).env@, old(self).head as int) matches Some((k, n))
                ==> r == Some(k as u8) && k < 13 && final(self).head == old(self).head + n,
            copula_kind(*old(self).format, old(self).env@, old(self).head as int) is None ==> r is None
                && final(self).head == old(self).head,
    {
        let copulas = self.format.copulas();
        proof {
            lemma_copula_len(*self.format, self.env@, self.head as int, 0);
        }
        let mut i: usize = 0;
        while i < 13
            invariant
                i <= 13,
                self.env == old(self).env,
                self.format == old(self).format,
                self.mid_result == old(self).mid_result,
                self.head == old(self).head,
                copulas@ == self.format.copulas_spec(),
                copula_kind(*self.format, self.env@, self.head as int) == copula_from(
                    *self.format,
                    self.env@,
                    self.head as int,
                    i as nat,
                ),
            decreases 13 - i,
        {
            if self.starts_with(copulas[i]) {
                let _ = self.env.len();
                self.head_skip(copulas[i]);
                return Some(i as u8);
            }
            i += 1;
        }
        None
    }

    /// Reads a term into what has been read.
    fn consume_term(&mut self) -> (r: Result<(), ParseError>)
        requires
            parse_wf(*old(self).format),
            old(self).mid_result.term is None,
        ensures
            final(self).env == old(self).env,
            final(self).format == old(self).format,
            final(self).head >= old(self).head,
            r is Ok ==> final(self).mid_result.term is Some && final(self).mid_result.truth
                == old(self).mid_result.truth && final(self).mid_result.budget == old(
                self,
            ).mid_result.budget && final(self).mid_result.stamp == old(self).mid_result.stamp
                && final(self).mid_result.punctuation == old(self).mid_result.punctuation,
            r is Err ==> final(self).mid_result == old(self).mid_result,
            r is Ok ==> (read_term(*old(self).format, old(self).env@, old(self).head as int) matches Ok(
                (rt, end),
            ) && builds(rt, final(self).mid_result.term->Some_0) && final(self).head == end),
            r matches Err(e) ==> read_term(*old(self).format, old(self).env@, old(self).head as int)
                == Err::<(TermRecipe, int), _>((e.message()@, e.index() as int)) && error_in(
                e,
                old(self).env@,
                (e.message()@, e.index() as int),
            ) && final(self).head == e.index(),
    {
        match self.parse_term() {
            Ok(term) => {
                self.mid_result.term = Some(term);
                Ok(())
            },
            Err(e) => Err(e),
        }
    }

    /// Reads one item at the position: a space, else the first of budget, term,
    /// punctuation, stamp and truth value that is still missing (budget, stamp and truth
    /// value only where their opening bracket stands) and reads without error (see
    /// [`read_one`]; `rd` is the reading of what has been read). The errors of the items
    /// tried are collected in `errs`; when none reads, the error lists them.
    #[verifier::rlimit(40)]
    fn consume_one(&mut self, errs: &mut Vec<String>, Ghost(rd): Ghost<MidReading>) -> (r: Result<(), ParseError>)
        requires
            parse_wf(*old(self).format),
            mid_wf(old(self).mid_result),
            mid_built(old(self).mid_result, rd),
        ensures
            final(self).env == old(self).env,
            final(self).format == old(self).format,
            mid_wf(final(self).mid_result),
            texts(final(errs)@) == read_one(
                *old(self).format,
                old(self).env@,
                old(self).head as int,
                rd,
                texts(old(errs)@),
            ).1,
            r is Ok ==> (read_one(*old(self).format, old(self).env@, old(self).head as int, rd, texts(old(errs)@)).0 matches Ok(
                (next, end),
            ) && mid_built(final(self).mid_result, next) && final(self).head == end),
            r matches Err(e) ==> read_one(*old(self).format, old(self).env@, old(self).head as int, rd, texts(old(errs)@)).0
                == Err::<(MidReading, int), _>((e.message()@, e.index() as int)) && error_in(
                e,
                old(self).env@,
                (e.message()@, e.index() as int),
            ),
    {
        let format = self.format;
        let start_head = self.head;
        let ghost f0 = *self.format;
        let ghost env0 = self.env@;
        let ghost h0 = self.head as int;
        let ghost m0 = self.mid_result;
        let ghost errs0 = texts(errs@);
        if self.starts_with(format.space.parse) {
            self.head_move(start_head);
            self.head_skip(format.space.parse);
            return Ok(());
        }
        assert(read_one(f0, env0, h0, rd, errs0) == attempt_items(f0, env0, h0, h0, rd, errs0, 0));
        if self.starts_with(format.task.budget_brackets.0) && self.mid_result.budget.is_none() {
            self.head_move(start_head);
            match self.consume_budget() {
                Ok(()) => return Ok(()),
                Err(e) => {
                    if e.get_message().unicode_len() == 0 {
                        return Err(e);
                    }
                    let text = e.to_text();
                    errs.push(text);
                    proof {
                        lemma_error_text(e, env0, (e.message()@, e.index() as int));
                        assert(texts(errs@) =~= errs0.push(text@));
                    }
                },
            }
        }
        assert(read_one(f0, env0, h0, rd, errs0) == attempt_items(f0, env0, h0, self.head as int, rd, texts(errs@), 1));
        let ghost errs1 = texts(errs@);
        if self.mid_result.term.is_none() {
            self.head_move(start_head);
            match self.consume_term() {
                Ok(()) => return Ok(()),
                Err(e) => {
                    if e.get_message().unicode_len() == 0 {
                        return Err(e);
                    }
                    let text = e.to_text();
                    errs.push(text);
                    proof {
                        lemma_error_text(e, env0, (e.message()@, e.index() as int));
                        assert(texts(errs@) =~= errs1.push(text@));
                    }
                },
            }
        }
        assert(read_one(f0, env0, h0, rd, errs0) == attempt_items(f0, env0, h0, self.head as int, rd, texts(errs@), 2));
        let ghost errs2 = texts(errs@);
        if self.mid_result.punctuation.is_none() {
            self.head_move(start_head);
            match self.consume_punctuation() {
                Ok(()) => return Ok(()),
                Err(e) => {
                    if e.get_message().unicode_len() == 0 {
                        return Err(e);
                    }
                    let text = e.to_text();
                    errs.push(text);
                    proof {
                        lemma_error_text(e, env0, (e.message()@, e.index() as int));
                        assert(texts(errs@) =~= errs2.push(text@));
                    }
                },
            }
        }
        assert(read_one(f0, env0, h0, rd, errs0) == attempt_items(f0, env0, h0, self.head as int, rd, texts(errs@), 3));
        let ghost errs3 = texts(errs@);
        if self.head > self.env.len() {
            return Err(self.past_end());
        }
        if self.starts_with(format.sentence.stamp_brackets.0) && self.mid_result.stamp.is_none() {
            self.head_move(start_head);
            match self.consume_stamp() {
                Ok(()) => return Ok(()),
                Err(e) => {
                    if e.get_message().unicode_len() == 0 {
                        return Err(e);
                    }
                    let text = e.to_text();
                    errs.push(text);
                    proof {
                        lemma_error_text(e, env0, (e.message()@, e.index() as int));
                        assert(texts(errs@) =~= errs3.push(text@));
                    }
                },
            }
        }
        assert(read_one(f0, env0, h0, rd, errs0) == attempt_items(f0, env0, h0, self.head as int, rd, texts(errs@), 4));
        let ghost errs4 = texts(errs@);
        if self.head > self.env.len() {
            return Err(self.past_end());
        }
        if self.starts_with(format.sentence.truth_brackets.0) && self.mid_result.truth.is_none() {
            self.head_move(start_head);
            match self.consume_truth() {
                Ok(()) => return Ok(()),
                Err(e) => {
                    if e.get_message().unicode_len() == 0 {
                        return Err(e);
                    }
                    let text = e.to_text();
                    errs.push(text);
                    proof {
                        lemma_error_text(e, env0, (e.message()@, e.index() as int));
                        assert(texts(errs@) =~= errs4.push(text@));
                    }
                },
            }
        }
        assert(read_one(f0, env0, h0, rd, errs0) == attempt_items(f0, env0, h0, self.head as int, rd, texts(errs@), 5));
        if errs.len() == 0 {
            Err(self.err("没有可解析的条目"))
        } else {
            let message = list_errors(errs);
            Err(self.err(message.as_str()))
        }
    }

    /// Reads items until the end of the text, skipping spaces between them (see
    /// [`read_items`]).
    fn build_mid_result(&mut self) -> (r: Result<(), ParseError>)
        requires
            parse_wf(*old(self).format),
            mid_wf(old(self).mid_result),
            mid_built(old(self).mid_result, no_items()),
        ensures
            final(self).env == old(self).env,
            final(self).format == old(self).format,
            mid_wf(final(self).mid_result),
            r is Ok ==> (read_items(*old(self).format, old(self).env@, old(self).head as int, no_items(), Seq::empty()) matches Ok(
                (rd, end),
            ) && mid_built(final(self).mid_result, rd) && final(self).head == end),
            r matches Err(e) ==> read_items(*old(self).format, old(self).env@, old(self).head as int, no_items(), Seq::empty())
                == Err::<(MidReading, int), _>((e.message()@, e.index() as int)) && error_in(
                e,
                old(self).env@,
                (e.message()@, e.index() as int),
            ),
    {
        let mut errs: Vec<String> = Vec::new();
        let ghost mut rd = no_items();
        proof {
            assert(texts(errs@) =~= Seq::<Seq<char>>::empty());
        }
        while self.can_consume()
            invariant
                self.env == old(self).env,
                self.format == old(self).format,
                parse_wf(*self.format),
                mid_wf(self.mid_result),
                mid_built(self.mid_result, rd),
                read_items(*self.format, self.env@, self.head as int, rd, texts(errs@)) == read_items(
                    *old(self).format,
                    old(self).env@,
                    old(self).head as int,
                    no_items(),
                    Seq::empty(),
                ),
            decreases missing_parts(self.mid_result), left_to_read(self.env@.len(), self.head),
        {
            let ghost h = self.head as int;
            self.head_skip_spaces();
            if self.can_consume() {
                let ghost at = self.head as int;
                let ghost errs0 = texts(errs@);
                proof {
                    lemma_read_one_progress(*self.format, self.env@, at, rd, errs0);
                    lemma_mid_built_missing(self.mid_result, rd);
                    lemma_skip_spaces_forward(*self.format, self.env@, h);
                }
                match self.consume_one(&mut errs, Ghost(rd)) {
                    Ok(()) => {
                        proof {
                            rd = read_one(*self.format, self.env@, at, rd, errs0).0->Ok_0.0;
                            lemma_mid_built_missing(self.mid_result, rd);
                        }
                    },
                    Err(e) => return Err(e),
                }
            }
        }
        Ok(())
    }
}

/// The list of errors when no item can be read: `没有可解析的条目 from [`, the errors on
/// lines of their own, each after a tab, and `]` on a line of its own.
fn list_errors(errs: &Vec<String>) -> (message: String)
    ensures
        message@ == "没有可解析的条目 from [\n\t"@ + joined(texts(errs@), "\n\t"@, Seq::empty()) + "\n]"@,
{
    let mut message = String::new();
    push_str(&mut message, "没有可解析的条目 from [\n\t");
    let ghost prefix = message@;
    let mut i: usize = 0;
    while i < errs.len()
        invariant
            i <= errs@.len(),
            message@ == prefix + joined(texts(errs@).take(i as int), "\n\t"@, Seq::empty()),
        decreases errs.len() - i,
    {
        let ghost before = message@;
        if i != 0 {
            push_str(&mut message, "\n\t");
        }
        push_str(&mut message, errs[i].as_str());
        proof {
            let items = texts(errs@).take(i + 1);
            assert(items.drop_last() =~= texts(errs@).take(i as int));
            assert(items.last() == errs@[i as int]@);
            assert("\n\t"@ + Seq::<char>::empty() =~= "\n\t"@);
            if i == 0 {
                assert(message@ =~= prefix + joined(items, "\n\t"@, Seq::empty()));
            } else {
                assert(message@ =~= prefix + joined(items, "\n\t"@, Seq::empty()));
            }
        }
        i += 1;
    }
    proof {
        assert(texts(errs@).take(errs@.len() as int) =~= texts(errs@));
    }
    push_str(&mut message, "\n]");
    message
}

/// Builds the statement of the copula's kind from its subject and predicate: an instance
/// puts the subject in an extensional set, a property the predicate in an intensional one,
/// and a retrospective equivalence is the predictive one the other way round.
fn build_statement(
    kind: u8,
    subject: Term,
    predicate: Term,
    Ghost(s): Ghost<TermRecipe>,
    Ghost(p): Ghost<TermRecipe>,
) -> (t: Term)
    requires
        kind < 13,
        builds(s, subject),
        builds(p, predicate),
    ensures
        builds(TermRecipe::Statement(kind as nat, Box::new(s), Box::new(p)), t),
{
    if kind == 0 {
        Term::new_inheritance(subject, predicate)
    } else if kind == 1 {
        Term::new_similarity(subject, predicate)
    } else if kind == 2 {
        Term::new_implication(subject, predicate)
    } else if kind == 3 {
        Term::new_equivalence(subject, predicate)
    } else if kind == 4 {
        Term::new_instance(subject, predicate)
    } else if kind == 5 {
        Term::new_property(subject, predicate)
    } else if kind == 6 {
        Term::new_instance_property(subject, predicate)
    } else if kind == 7 {
        Term::new_implication_predictive(subject, predicate)
    } else if kind == 8 {
        Term::new_implication_concurrent(subject, predicate)
    } else if kind == 9 {
        Term::new_implication_retrospective(subject, predicate)
    } else if kind == 10 {
        Term::new_equivalence_predictive(subject, predicate)
    } else if kind == 11 {
        Term::new_equivalence_concurrent(subject, predicate)
    } else {
        Term::new_equivalence_retrospective(subject, predicate)
    }
}

/// The truth value of literals read as the numbers `bits`.
pub open spec fn truth_of_bits(bits: Seq<u64>) -> Truth {
    if bits.len() == 0 {
        Truth::Empty
    } else if bits.len() == 1 {
        Truth::Single(bits[0])
    } else {
        Truth::Double(bits[0], bits[1])
    }
}

/// The budget of literals read as the numbers `bits`.
pub open spec fn budget_of_bits(bits: Seq<u64>) -> Budget {
    if bits.len() == 0 {
        Budget::Empty
    } else if bits.len() == 1 {
        Budget::Single(bits[0])
    } else if bits.len() == 2 {
        Budget::Double(bits[0], bits[1])
    } else {
        Budget::Triple(bits[0], bits[1], bits[2])
    }
}

/// What was read makes a task when it has a budget and a punctuation, else a sentence
/// when it has a punctuation, else a term. A sentence without stamp is eternal, one
/// without truth value has the empty one; the numbers of truth value and budget are
/// `truth_bits` and `budget_bits`.
pub open spec fn spec_form_result(m: MidParseResult, truth_bits: Seq<u64>, budget_bits: Seq<u64>) -> EnumNarseseResult {
    let term = m.term->Some_0;
    let stamp = match m.stamp {
        Some(s) => s,
        None => Stamp::Eternal,
    };
    let truth = truth_of_bits(truth_bits);
    match (m.budget, m.punctuation) {
        (Some(_), Some(p)) => NarseseResult::Task(
            Task(crate::enum_narsese::sentence::sentence_of(term, p, stamp, truth), budget_of_bits(budget_bits)),
        ),
        (None, Some(p)) => NarseseResult::Sentence(
            crate::enum_narsese::sentence::sentence_of(term, p, stamp, truth),
        ),
        (_, None) => NarseseResult::Term(term),
    }
}

/// The term, sentence or task of what was read, with the numbers `truth_bits` of its
/// truth value and `budget_bits` of its budget (see [`spec_form_result`]).
pub fn form_result(mid: MidParseResult, truth_bits: Vec<u64>, budget_bits: Vec<u64>) -> (r: EnumNarseseResult)
    requires
        mid.term is Some,
        truth_bits@.len() == match mid.truth {
            Some(v) => v@.len(),
            None => 0,
        },
        budget_bits@.len() == match mid.budget {
            Some(v) => v@.len(),
            None => 0,
        },
        truth_bits@.len() <= 2,
        budget_bits@.len() <= 3,
    ensures
        r == spec_form_result(mid, truth_bits@, budget_bits@),
{
    let MidParseResult { term, truth: _, budget, stamp, punctuation } = mid;
    let term = term.unwrap();
    let stamp = match stamp {
        Some(s) => s,
        None => Stamp::Eternal,
    };
    let truth = if truth_bits.len() == 0 {
        Truth::Empty
    } else if truth_bits.len() == 1 {
        Truth::Single(truth_bits[0])
    } else {
        Truth::Double(truth_bits[0], truth_bits[1])
    };
    match (budget, punctuation) {
        (Some(_), Some(p)) => {
            let b = if budget_bits.len() == 0 {
                Budget::Empty
            } else if budget_bits.len() == 1 {
                Budget::Single(budget_bits[0])
            } else if budget_bits.len() == 2 {
                Budget::Double(budget_bits[0], budget_bits[1])
            } else {
                Budget::Triple(budget_bits[0], budget_bits[1], budget_bits[2])
            };
            NarseseResult::Task(Task(Sentence::from_punctuation(term, p, stamp, truth), b))
        },
        (None, Some(p)) => NarseseResult::Sentence(Sentence::from_punctuation(term, p, stamp, truth)),
        (_, None) => NarseseResult::Term(term),
    }
}

impl<'a> NarseseFormat<&'a str> {
    /// Reads `input` into its parts: the term, and where given the punctuation, stamp,
    /// truth value and budget, whose numbers stay decimal literals in `[0, 1]` (see
    /// [`parse_reading`]). `None` where the reading would test the text past its end or
    /// report an error too far past it (see [`reading_overruns`]); else an error when an
    /// item cannot be read or no term is given.
    pub fn try_parse_to_mid_result(&self, input: &str) -> (r: Option<Result<MidParseResult, ParseError>>)
        requires
            parse_wf(*self),
        ensures
            r is None <==> reading_overruns(*self, input@),
            r matches Some(Ok(m)) ==> m.term is Some && mid_wf(m),
            r matches Some(Ok(m)) ==> parse_reading(*self, input@) matches Ok(rd) && mid_built(m, rd),
            r matches Some(Err(e)) ==> parse_reading(*self, input@) == Err::<MidReading, _>(
                (e.message()@, e.index() as int),
            ) && error_in(e, input@, (e.message()@, e.index() as int)),
    {
        let mut state = ParseState::new(self, input, 0);
        match state.build_mid_result() {
            Ok(()) => {},
            Err(e) => {
                if e.get_message().unicode_len() == 0 {
                    return None;
                }
                return Some(Err(e));
            },
        }
        if state.mid_result.term.is_none() {
            let e = state.err_reported("词项缺失");
            if e.get_message().unicode_len() == 0 {
                return None;
            }
            return Some(Err(e));
        }
        Some(Ok(state.mid_result))
    }

    /// Reads `input` into its parts (see [`NarseseFormat::try_parse_to_mid_result`]), for
    /// a text whose reading stays within it.
    pub fn parse_to_mid_result(&self, input: &str) -> (r: Result<MidParseResult, ParseError>)
        requires
            parse_wf(*self),
            !reading_overruns(*self, input@),
        ensures
            r is Ok ==> r->Ok_0.term is Some && mid_wf(r->Ok_0),
            r matches Ok(m) ==> parse_reading(*self, input@) matches Ok(rd) && mid_built(m, rd),
            r matches Err(e) ==> parse_reading(*self, input@) == Err::<MidReading, _>(
                (e.message()@, e.index() as int),
            ) && error_in(e, input@, (e.message()@, e.index() as int)),
    {
        match self.try_parse_to_mid_result(input) {
            Some(r) => r,
            None => {
                proof {
                    assert(false);
                }
                Ok(MidParseResult::new())
            },
        }
    }
}

} // verus!

