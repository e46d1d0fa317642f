//! Decimal numerals: the text of integers, and integers read from text.
use vstd::prelude::*;
use crate::text::push_char;

verus! {

/// Whether a character is an ASCII decimal digit.
pub open spec fn is_digit(c: char) -> bool {
    '0' <= c && c <= '9'
}

/// The value of an ASCII decimal digit.
pub open spec fn digit_value(c: char) -> nat {
    ((c as int) - ('0' as int)) as nat
}

/// The digit character of a number below ten.
pub open spec fn digit_char(d: nat) -> char {
    (('0' as int) + d) as char
}

/// Whether every character of a sequence is an ASCII decimal digit.
pub open spec fn all_digits(s: Seq<char>) -> bool {
    forall|i: int| 0 <= i < s.len() ==> #[trigger] is_digit(s[i])
}

/// The number that a sequence of decimal digits denotes (most significant first).
pub open spec fn digits_value(s: Seq<char>) -> nat
    decreases s.len(),
{
    if s.len() == 0 {
        0
    } else {
        digits_value(s.drop_last()) * 10 + digit_value(s.last())
    }
}

/// The decimal text of a natural number, without sign or leading zeros.
pub open spec fn decimal_text(n: nat) -> Seq<char>
    decreases n,
{
    if n < 10 {
        seq![digit_char(n)]
    } else {
        decimal_text(n / 10).push(digit_char(n % 10))
    }
}

/// The decimal text of an integer, with a leading `-` for negatives.
pub open spec fn signed_decimal_text(i: int) -> Seq<char> {
    if i < 0 {
        seq!['-'] + decimal_text((-i) as nat)
    } else {
        decimal_text(i as nat)
    }
}

/// What std's `usize::from_str` gives for a text: an optional `+`, then at least one
/// decimal digit, and a value that fits in `usize`.
pub open spec fn spec_parse_usize(s: Seq<char>) -> Option<usize> {
    let body = if s.len() > 0 && s[0] == '+' { s.drop_first() } else { s };
    if body.len() > 0 && all_digits(body) && digits_value(body) <= usize::MAX {
        Some(digits_value(body) as usize)
    } else {
        None
    }
}

/// What std's `isize::from_str` gives for a text: an optional `+` or `-`, then at least
/// one decimal digit, and a value that fits in `isize`.
pub open spec fn spec_parse_isize(s: Seq<char>) -> Option<isize> {
    let negative = s.len() > 0 && s[0] == '-';
    let body = if s.len() > 0 && (s[0] == '+' || s[0] == '-') { s.drop_first() } else { s };
    let v: int = if negative { -(digits_value(body) as int) } else { digits_value(body) as int };
    if body.len() > 0 && all_digits(body) && isize::MIN <= v <= isize::MAX {
        Some(v as isize)
    } else {
        None
    }
}

proof fn lemma_digits_value_prefix_le(s: Seq<char>, k: int)
    requires
        0 <= k <= s.len(),
    ensures
        digits_value(s.subrange(0, k)) <= digits_value(s),
    decreases s.len() - k,
{
    if k < s.len() {
        lemma_digits_value_prefix_le(s, k + 1);
        let t = s.subrange(0, k + 1);
        assert(t.drop_last() =~= s.subrange(0, k));
    } else {
        assert(s.subrange(0, k) =~= s);
    }
}

proof fn lemma_decimal_text_digits(n: nat)
    ensures
        decimal_text(n).len() > 0,
        all_digits(decimal_text(n)),
    decreases n,
{
    if n >= 10 {
        lemma_decimal_text_digits(n / 10);
    }
}

/// Reads the digits `s[from..to]` as a number, or `None` when it exceeds `usize`.
fn read_digits(s: &[char], from: usize, to: usize) -> (res: Option<usize>)
    requires
        from <= to <= s.len(),
        all_digits(s@.subrange(from as int, to as int)),
    ensures
        res == (if digits_value(s@.subrange(from as int, to as int)) <= usize::MAX {
            Some(digits_value(s@.subrange(from as int, to as int)) as usize)
        } else {
            None::<usize>
        }),
{
    let ghost body = s@.subrange(from as int, to as int);
    let mut v: usize = 0;
    let mut i: usize = from;
    while i < to
        invariant
            from <= i <= to <= s.len(),
            body == s@.subrange(from as int, to as int),
            all_digits(body),
            v == digits_value(s@.subrange(from as int, i as int)),
        decreases to - i,
    {
        let ghost prev = s@.subrange(from as int, i as int);
        let ghost next = s@.subrange(from as int, i + 1);
        proof {
            assert(next.drop_last() =~= prev);
            assert(next.last() == body[i - from]);
            assert(is_digit(body[i - from]));
        }
        let d = (s[i] as u32 - '0' as u32) as usize;
        assert(d == digit_value(s@[i as int]));
        let m = v.checked_mul(10);
        match m {
            None => {
                proof {
                    lemma_digits_value_prefix_le(body, (i + 1 - from) as int);
                    assert(body.subrange(0, (i + 1 - from) as int) =~= next);
                    assert(digits_value(next) == v * 10 + d);
                }
                return None;
            },
            Some(m) => {
                match m.checked_add(d) {
                    None => {
                        proof {
                            lemma_digits_value_prefix_le(body, (i + 1 - from) as int);
                            assert(body.subrange(0, (i + 1 - from) as int) =~= next);
                        }
                        return None;
                    },
                    Some(w) => {
                        v = w;
                    },
                }
            },
        }
        i += 1;
    }
    Some(v)
}

/// Whether `s[from..to]` consists of decimal digits only.
fn check_digits(s: &[char], from: usize, to: usize) -> (res: bool)
    requires
        from <= to <= s.len(),
    ensures
        res == all_digits(s@.subrange(from as int, to as int)),
{
    let mut i = from;
    while i < to
        invariant
            from <= i <= to <= s.len(),
            forall|j: int| from <= j < i ==> is_digit(#[trigger] s@[j]),
        decreases to - i,
    {
        if !(s[i] >= '0' && s[i] <= '9') {
            proof {
                let b = s@.subrange(from as int, to as int);
                assert(!is_digit(b[i - from]));
            }
            return false;
        }
        i += 1;
    }
    proof {
        let b = s@.subrange(from as int, to as int);
        assert forall|k: int| 0 <= k < b.len() implies #[trigger] is_digit(b[k]) by {
            assert(b[k] == s@[from + k]);
        }
    }
    true
}

/// Reads an unsigned integer as std's `usize::from_str` does.
pub fn parse_usize(s: &[char]) -> (res: Option<usize>)
    ensures
        res == spec_parse_usize(s@),
{
    let from: usize = if s.len() > 0 && s[0] == '+' { 1 } else { 0 };
    proof {
        if from == 1 {
            assert(s@.drop_first() =~= s@.subrange(1, s@.len() as int));
        } else {
            assert(s@ =~= s@.subrange(0, s@.len() as int));
        }
    }
    if from == s.len() {
        return None;
    }
    if !check_digits(s, from, s.len()) {
        return None;
    }
    read_digits(s, from, s.len())
}

/// Reads a signed integer as std's `isize::from_str` does.
pub fn parse_isize(s: &[char]) -> (res: Option<isize>)
    ensures
        res == spec_parse_isize(s@),
{
    let negative = s.len() > 0 && s[0] == '-';
    let from: usize = if s.len() > 0 && (s[0] == '+' || s[0] == '-') { 1 } else { 0 };
    let ghost body = s@.subrange(from as int, s@.len() as int);
    proof {
        if from == 1 {
            assert(s@.drop_first() =~= body);
        } else {
            assert(s@ =~= body);
        }
    }
    if from == s.len() {
        return None;
    }
    if !check_digits(s, from, s.len()) {
        return None;
    }
    match read_digits(s, from, s.len()) {
        None => {
            proof {
                assert(digits_value(body) > usize::MAX);
            }
            None
        },
        Some(m) => {
            if negative {
                if m <= isize::MAX as usize {
                    Some(-(m as isize))
                } else if m - 1 == isize::MAX as usize {
                    Some(isize::MIN)
                } else {
                    None
                }
            } else {
                if m <= isize::MAX as usize {
                    Some(m as isize)
                } else {
                    None
                }
            }
        },
    }
}

/// The decimal text of an unsigned integer (std's `to_string` on `usize`).
pub fn usize_to_string(n: usize) -> (res: String)
    ensures
        res@ == decimal_text(n as nat),
    decreases n,
{
    if n < 10 {
        let mut s = String::new();
        push_char(&mut s, ((n as u8) + 48u8) as char);
        assert(s@ =~= seq![digit_char(n as nat)]);
        s
    } else {
        let mut s = usize_to_string(n / 10);
        push_char(&mut s, (((n % 10) as u8) + 48u8) as char);
        s
    }
}

/// The decimal text of a signed integer (std's `to_string` on `isize`).
pub fn isize_to_string(i: isize) -> (res: String)
    ensures
        res@ == signed_decimal_text(i as int),
{
    if i < 0 {
        let magnitude: usize = ((-(i + 1)) as usize) + 1;
        let digits = usize_to_string(magnitude);
        let mut s = String::new();
        push_char(&mut s, '-');
        crate::text::push_str(&mut s, digits.as_str());
        assert(s@ =~= seq!['-'] + decimal_text((-i) as nat));
        s
    } else {
        usize_to_string(i as usize)
    }
}

} // verus!
