//! The Typst formatter: the pieces of Typst that it writes, and the post-processing that
//! every text it writes goes through. Every piece carries spaces around it; the
//! post-processing trims the text and cuts each run of white space to one character.
use vstd::prelude::*;
use crate::api::FormatTo;
use crate::text::{char_is_whitespace, chars_of, is_whitespace, push_char};

verus! {

/// The Typst formatter.
pub struct FormatterTypst;

impl FormatterTypst {
    /// What the formatter makes of any value that it formats.
    pub fn format<'s, T, V: FormatTo<&'s FormatterTypst, T>>(&'s self, target: &V) -> (res: T)
        ensures
            target.formats_to(self, res),
    {
        target.format_to(self)
    }
}

// Atom prefixes //

/// The prefix of words
pub const TERM_PREFIX_WORD: &'static str = "";
/// The prefix of the placeholder
pub const TERM_PREFIX_PLACEHOLDER: &'static str = " diamond.small ";
/// The prefix of independent variables
pub const TERM_PREFIX_I_VAR: &'static str = " \\$ #h(-0.05em) ";
/// The prefix of dependent variables
pub const TERM_PREFIX_D_VAR: &'static str = " \\# #h(-0.05em) ";
/// The prefix of query variables
pub const TERM_PREFIX_Q_VAR: &'static str = " ? #h(-0.05em) ";
/// The prefix of intervals
pub const TERM_PREFIX_INTERVAL: &'static str = " + #h(-0.05em) ";
/// The prefix of operators
pub const TERM_PREFIX_OPERATOR: &'static str = " arrow.t.double #h(-0.05em) ";

// Brackets //

/// The left bracket of compounds
pub const BRACKET_COMPOUND_LEFT: &'static str = " lr(( ";
/// The right bracket of compounds
pub const BRACKET_COMPOUND_RIGHT: &'static str = " )) ";
/// The left bracket of extensional sets
pub const BRACKET_EXT_SET_LEFT: &'static str = " lr({ ";
/// The right bracket of extensional sets
pub const BRACKET_EXT_SET_RIGHT: &'static str = " }) ";
/// The left bracket of intensional sets
pub const BRACKET_INT_SET_LEFT: &'static str = " lr([ ";
/// The right bracket of intensional sets
pub const BRACKET_INT_SET_RIGHT: &'static str = " ]) ";
/// The left bracket of statements
pub const BRACKET_STATEMENT_LEFT: &'static str = " lr(angle.l ";
/// The right bracket of statements
pub const BRACKET_STATEMENT_RIGHT: &'static str = " angle.r) ";
/// The left bracket of truth values
pub const BRACKET_TRUTH_LEFT: &'static str = " lr(angle.l ";
/// The right bracket of truth values
pub const BRACKET_TRUTH_RIGHT: &'static str = " angle.r) ";
/// The left bracket of budgets
pub const BRACKET_BUDGET_LEFT: &'static str = " lr(\\$ ";
/// The right bracket of budgets
pub const BRACKET_BUDGET_RIGHT: &'static str = " \\$) ";

// Separators //

/// Between the components of a compound
pub const SEPARATOR_COMPOUND: &'static str = " space ";
/// Around the copula of a statement (nothing)
pub const SEPARATOR_STATEMENT: &'static str = "";
/// Between the items of a sentence or task
pub const SEPARATOR_ITEM: &'static str = " space ";
/// Between the numbers of a truth value
pub const SEPARATOR_TRUTH: &'static str = ",";
/// Between the numbers of a budget (a quoted semicolon: a bare one breaks the formula)
pub const SEPARATOR_BUDGET: &'static str = "\";\"";

// Connectors //

/// Extensional intersection
pub const CONNECTER_EXT_INTERSECT: &'static str = " sect ";
/// Intensional intersection
pub const CONNECTER_INT_INTERSECT: &'static str = " union ";
/// Extensional difference
pub const CONNECTER_EXT_DIFFERENCE: &'static str = " minus ";
/// Intensional difference
pub const CONNECTER_INT_DIFFERENCE: &'static str = " minus.circle ";
/// Product
pub const CONNECTER_PRODUCT: &'static str = " times ";
/// Extensional image
pub const CONNECTER_EXT_IMAGE: &'static str = " \\/ ";
/// Intensional image
pub const CONNECTER_INT_IMAGE: &'static str = " \\\\ ";
/// Conjunction
pub const CONNECTER_CONJUNCTION: &'static str = " and ";
/// Disjunction
pub const CONNECTER_DISJUNCTION: &'static str = " or ";
/// Negation
pub const CONNECTER_NEGATION: &'static str = " not ";
/// Sequential conjunction
pub const CONNECTER_SEQ_CONJUNCTION: &'static str = " , ";
/// Parallel conjunction
pub const CONNECTER_PAR_CONJUNCTION: &'static str = " ; ";

// Copulas //

/// Inheritance
pub const COPULA_INHERITANCE: &'static str = " arrow.r ";
/// Similarity
pub const COPULA_SIMILARITY: &'static str = " arrow.l.r ";
/// Implication
pub const COPULA_IMPLICATION: &'static str = " arrow.r.double ";
/// Equivalence
pub const COPULA_EQUIVALENCE: &'static str = " arrow.l.r.double ";
/// Instance
pub const COPULA_INSTANCE: &'static str = " compose#h(-0.05em)arrow.r ";
/// Property
pub const COPULA_PROPERTY: &'static str = " arrow.r#h(-0.05em)compose ";
/// Instance property
pub const COPULA_INSTANCE_PROPERTY: &'static str = " compose#h(-0.05em)arrow.r#h(-0.05em)compose ";
/// Predictive implication
pub const COPULA_IMPLICATION_PREDICTIVE: &'static str = " space\\/#h(-0.6em)arrow.r.double ";
/// Concurrent implication
pub const COPULA_IMPLICATION_CONCURRENT: &'static str = " space\\|#h(-0.6em)arrow.r.double ";
/// Retrospective implication
pub const COPULA_IMPLICATION_RETROSPECTIVE: &'static str = " space\\\\#h(-0.6em)arrow.r.double ";
/// Predictive equivalence
pub const COPULA_EQUIVALENCE_PREDICTIVE: &'static str = " space\\/#h(-0.6em)arrow.l.r.double ";
/// Concurrent equivalence
pub const COPULA_EQUIVALENCE_CONCURRENT: &'static str = " space\\|#h(-0.6em)arrow.l.r.double ";
/// Retrospective equivalence
pub const COPULA_EQUIVALENCE_RETROSPECTIVE: &'static str = " space\\\\#h(-0.6em)arrow.l.r.double ";

// Stamps: a prefix, then the time of a fixed stamp //

/// Eternal
pub const STAMP_ETERNAL: &'static str = "";
/// Past
pub const STAMP_PAST: &'static str = " \\/#h(-0.6em)arrow.r.double ";
/// Present
pub const STAMP_PRESENT: &'static str = " \\|#h(-0.6em)arrow.r.double ";
/// Future
pub const STAMP_FUTURE: &'static str = " \\\\#h(-0.6em)arrow.r.double ";
/// Fixed
pub const STAMP_FIXED: &'static str = " t= ";

// Punctuations //

/// Judgement
pub const PUNCTUATION_JUDGEMENT: &'static str = " . ";
/// Goal
pub const PUNCTUATION_GOAL: &'static str = " ! ";
/// Question
pub const PUNCTUATION_QUESTION: &'static str = " ? ";
/// Quest
pub const PUNCTUATION_QUEST: &'static str = " quest.inv ";

// Post-processing //

/// The first position from `i` on whose character is no white space (the length where
/// there is none).
pub open spec fn first_non_ws(s: Seq<char>, i: int) -> int
    decreases s.len() - i,
{
    if i < 0 || i >= s.len() {
        i
    } else if char_is_whitespace(s[i]) {
        first_non_ws(s, i + 1)
    } else {
        i
    }
}

/// The position after the last character before `j` that is no white space, looking no
/// further back than `lo`.
pub open spec fn end_non_ws(s: Seq<char>, lo: int, j: int) -> int
    decreases j - lo,
{
    if j <= lo {
        lo
    } else if char_is_whitespace(s[j - 1]) {
        end_non_ws(s, lo, j - 1)
    } else {
        j
    }
}

/// `s` without the white space at either end (std's `str::trim`).
pub open spec fn trimmed(s: Seq<char>) -> Seq<char> {
    let a = first_non_ws(s, 0);
    s.subrange(a, end_non_ws(s, a, s.len() as int))
}

/// `t` with each run of white space cut to its first character.
pub open spec fn squeezed(t: Seq<char>) -> Seq<char>
    decreases t.len(),
{
    if t.len() <= 1 {
        t
    } else {
        let p = squeezed(t.drop_last());
        if char_is_whitespace(t[t.len() - 2]) && char_is_whitespace(t.last()) {
            p
        } else {
            p.push(t.last())
        }
    }
}

/// What the post-processing makes of a text: trimmed, its runs of white space cut to one
/// character.
pub open spec fn whitespace_processed(s: Seq<char>) -> Seq<char> {
    squeezed(trimmed(s))
}

/// The start that a trim finds: white space before it, none at it.
proof fn lemma_first_non_ws(s: Seq<char>, i: int)
    requires
        0 <= i <= s.len(),
    ensures
        i <= first_non_ws(s, i) <= s.len(),
        forall|k: int| i <= k < first_non_ws(s, i) ==> char_is_whitespace(#[trigger] s[k]),
        first_non_ws(s, i) < s.len() ==> !char_is_whitespace(s[first_non_ws(s, i)]),
    decreases s.len() - i,
{
    if i < s.len() && char_is_whitespace(s[i]) {
        lemma_first_non_ws(s, i + 1);
    }
}

/// The end that a trim finds: white space after it, none just before it.
proof fn lemma_end_non_ws(s: Seq<char>, lo: int, j: int)
    requires
        0 <= lo <= j <= s.len(),
    ensures
        lo <= end_non_ws(s, lo, j) <= j,
        forall|k: int| end_non_ws(s, lo, j) <= k < j ==> char_is_whitespace(#[trigger] s[k]),
        end_non_ws(s, lo, j) > lo ==> !char_is_whitespace(s[end_non_ws(s, lo, j) - 1]),
    decreases j - lo,
{
    if lo < j && char_is_whitespace(s[j - 1]) {
        lemma_end_non_ws(s, lo, j - 1);
    }
}

/// Squeezing keeps the first character, keeps the last one where it is no white space
/// (and ends in white space where the text does), and leaves no two white-space
/// characters in a row.
proof fn lemma_squeezed(t: Seq<char>)
    ensures
        t.len() > 0 ==> squeezed(t).len() > 0 && squeezed(t)[0] == t[0],
        t.len() > 0 ==> (char_is_whitespace(squeezed(t).last()) <==> char_is_whitespace(t.last())),
        t.len() > 0 && !char_is_whitespace(t.last()) ==> squeezed(t).last() == t.last(),
        forall|i: int|
            0 <= i < squeezed(t).len() - 1 ==> !(char_is_whitespace(#[trigger] squeezed(t)[i])
                && char_is_whitespace(squeezed(t)[i + 1])),
    decreases t.len(),
{
    if t.len() > 1 {
        let p = squeezed(t.drop_last());
        lemma_squeezed(t.drop_last());
        assert(t.drop_last().last() == t[t.len() - 2]);
        if !(char_is_whitespace(t[t.len() - 2]) && char_is_whitespace(t.last())) {
            let r = p.push(t.last());
            assert forall|i: int| 0 <= i < r.len() - 1 implies !(char_is_whitespace(#[trigger] r[i])
                && char_is_whitespace(r[i + 1])) by {
                if i < p.len() - 1 {
                    assert(r[i] == p[i] && r[i + 1] == p[i + 1]);
                }
            }
        }
    }
}

/// The post-processed text has no white space at either end and no two white-space
/// characters in a row.
pub proof fn law_whitespace_processed(s: Seq<char>)
    ensures
        whitespace_processed(s).len() > 0 ==> !char_is_whitespace(whitespace_processed(s)[0])
            && !char_is_whitespace(whitespace_processed(s).last()),
        forall|i: int|
            0 <= i < whitespace_processed(s).len() - 1 ==> !(char_is_whitespace(
                #[trigger] whitespace_processed(s)[i],
            ) && char_is_whitespace(whitespace_processed(s)[i + 1])),
{
    let a = first_non_ws(s, 0);
    lemma_first_non_ws(s, 0);
    lemma_end_non_ws(s, a, s.len() as int);
    let e = end_non_ws(s, a, s.len() as int);
    let t = trimmed(s);
    if t.len() > 0 {
        assert(t[0] == s[a]);
        assert(t.last() == s[e - 1]);
    }
    lemma_squeezed(t);
}

/// A text without two white-space characters in a row is its own squeeze.
proof fn lemma_squeezed_unchanged(t: Seq<char>)
    requires
        forall|i: int| 0 <= i < t.len() - 1 ==> !(char_is_whitespace(#[trigger] t[i]) && char_is_whitespace(t[i + 1])),
    ensures
        squeezed(t) == t,
    decreases t.len(),
{
    if t.len() > 1 {
        let p = t.drop_last();
        assert forall|i: int| 0 <= i < p.len() - 1 implies !(char_is_whitespace(#[trigger] p[i]) && char_is_whitespace(p[i + 1])) by {
            assert(p[i] == t[i] && p[i + 1] == t[i + 1]);
        }
        lemma_squeezed_unchanged(p);
        assert(!(char_is_whitespace(t[t.len() - 2]) && char_is_whitespace(t[t.len() - 1])));
        assert(p.push(t.last()) =~= t);
    }
}

/// Post-processing a post-processed text changes nothing.
pub proof fn law_whitespace_processed_idempotent(s: Seq<char>)
    ensures
        whitespace_processed(whitespace_processed(s)) == whitespace_processed(s),
{
    let r = whitespace_processed(s);
    law_whitespace_processed(s);
    lemma_first_non_ws(r, 0);
    let a = first_non_ws(r, 0);
    if r.len() > 0 {
        assert(a == 0);
    }
    lemma_end_non_ws(r, a, r.len() as int);
    let e = end_non_ws(r, a, r.len() as int);
    if r.len() > 0 {
        assert(e == r.len()) by {
            if e < r.len() {
                assert(char_is_whitespace(r[r.len() - 1]));
            }
        }
    }
    assert(trimmed(r) =~= r);
    lemma_squeezed_unchanged(r);
}

/// The characters of `s` that are no white space, in their order.
pub open spec fn visible(s: Seq<char>) -> Seq<char>
    decreases s.len(),
{
    if s.len() == 0 {
        Seq::empty()
    } else if char_is_whitespace(s.last()) {
        visible(s.drop_last())
    } else {
        visible(s.drop_last()).push(s.last())
    }
}

/// A text shows nothing exactly when it is all white space.
proof fn lemma_visible_empty(s: Seq<char>)
    ensures
        visible(s).len() == 0 <==> forall|i: int| 0 <= i < s.len() ==> char_is_whitespace(#[trigger] s[i]),
    decreases s.len(),
{
    if s.len() > 0 {
        let p = s.drop_last();
        lemma_visible_empty(p);
        if visible(s).len() == 0 {
            assert forall|i: int| 0 <= i < s.len() implies char_is_whitespace(#[trigger] s[i]) by {
                if i < p.len() {
                    assert(p[i] == s[i]);
                }
            }
        }
        if forall|i: int| 0 <= i < s.len() ==> char_is_whitespace(#[trigger] s[i]) {
            assert forall|i: int| 0 <= i < p.len() implies char_is_whitespace(#[trigger] p[i]) by {
                assert(p[i] == s[i]);
            }
            assert(char_is_whitespace(s[s.len() - 1]));
        }
    }
}

/// What two texts one after the other show is what the first shows, then what the second
/// shows.
proof fn lemma_visible_add(a: Seq<char>, b: Seq<char>)
    ensures
        visible(a + b) == visible(a) + visible(b),
    decreases b.len(),
{
    if b.len() == 0 {
        assert(a + b =~= a);
        assert(visible(b) =~= Seq::<char>::empty());
        assert(visible(a) + visible(b) =~= visible(a));
    } else {
        lemma_visible_add(a, b.drop_last());
        assert((a + b).drop_last() =~= a + b.drop_last());
        assert((a + b).last() == b.last());
        if !char_is_whitespace(b.last()) {
            assert(visible(a) + visible(b.drop_last()).push(b.last()) =~= (visible(a) + visible(
                b.drop_last(),
            )).push(b.last()));
        }
    }
}

/// Squeezing keeps what the text shows.
proof fn lemma_squeezed_visible(t: Seq<char>)
    ensures
        visible(squeezed(t)) == visible(t),
    decreases t.len(),
{
    if t.len() > 1 {
        let p = squeezed(t.drop_last());
        lemma_squeezed_visible(t.drop_last());
        if !(char_is_whitespace(t[t.len() - 2]) && char_is_whitespace(t.last())) {
            let r = p.push(t.last());
            assert(r.drop_last() =~= p);
            assert(r.last() == t.last());
        }
    }
}

/// Trimming keeps what the text shows.
proof fn lemma_trimmed_visible(s: Seq<char>)
    ensures
        visible(trimmed(s)) == visible(s),
{
    let a = first_non_ws(s, 0);
    lemma_first_non_ws(s, 0);
    lemma_end_non_ws(s, a, s.len() as int);
    let e = end_non_ws(s, a, s.len() as int);
    let head = s.subrange(0, a);
    let tail = s.subrange(e, s.len() as int);
    let t = s.subrange(a, e);
    assert(s =~= head + t + tail);
    assert forall|i: int| 0 <= i < head.len() implies char_is_whitespace(#[trigger] head[i]) by {
        assert(head[i] == s[i]);
    }
    assert forall|i: int| 0 <= i < tail.len() implies char_is_whitespace(#[trigger] tail[i]) by {
        assert(tail[i] == s[e + i]);
    }
    lemma_visible_empty(head);
    lemma_visible_empty(tail);
    lemma_visible_add(head, t);
    lemma_visible_add(head + t, tail);
    assert(visible(head) =~= Seq::<char>::empty());
    assert(visible(tail) =~= Seq::<char>::empty());
    assert(visible(head) + visible(t) =~= visible(t));
    assert(visible(head + t) + visible(tail) =~= visible(head + t));
}

/// The post-processing keeps every character that is no white space, in its order, and
/// gives the empty text exactly for a text of white space only.
pub proof fn law_whitespace_processed_keeps_the_rest(s: Seq<char>)
    ensures
        visible(whitespace_processed(s)) == visible(s),
        whitespace_processed(s).len() == 0 <==> forall|i: int|
            0 <= i < s.len() ==> char_is_whitespace(#[trigger] s[i]),
{
    lemma_trimmed_visible(s);
    lemma_squeezed_visible(trimmed(s));
    lemma_visible_empty(s);
    let r = whitespace_processed(s);
    law_whitespace_processed(s);
    if r.len() > 0 {
        assert(!char_is_whitespace(r[0]));
        lemma_visible_empty(r);
    } else {
        assert(visible(r) =~= Seq::<char>::empty());
    }
}

/// Trims the text and cuts each run of white space in it to its first character (see
/// [`whitespace_processed`]).
pub fn post_process_whitespace(s: &mut String)
    ensures
        final(s)@ == whitespace_processed(old(s)@),
{
    let chars = chars_of(s.as_str());
    let len = chars.len();
    let mut start: usize = 0;
    while start < len && is_whitespace(chars[start])
        invariant
            len == chars@.len(),
            start <= len,
            first_non_ws(chars@, start as int) == first_non_ws(chars@, 0),
        decreases len - start,
    {
        start += 1;
    }
    let mut end: usize = len;
    while end > start && is_whitespace(chars[end - 1])
        invariant
            len == chars@.len(),
            start <= end <= len,
            start == first_non_ws(chars@, 0),
            end_non_ws(chars@, start as int, end as int) == end_non_ws(chars@, start as int, len as int),
        decreases end - start,
    {
        end -= 1;
    }
    let ghost t = chars@.subrange(start as int, end as int);
    assert(t == trimmed(chars@));
    let mut result = String::new();
    if start < end {
        push_char(&mut result, chars[start]);
        let mut i: usize = start + 1;
        proof {
            assert(t.subrange(0, 1) =~= seq![chars@[start as int]]);
            assert(result@ =~= squeezed(t.subrange(0, 1)));
        }
        while i < end
            invariant
                len == chars@.len(),
                start < i <= end <= len,
                t == chars@.subrange(start as int, end as int),
                result@ == squeezed(t.subrange(0, i - start)),
            decreases end - i,
        {
            let ghost u = t.subrange(0, i - start + 1);
            proof {
                assert(u.drop_last() =~= t.subrange(0, i - start));
                assert(u[u.len() - 2] == chars@[i - 1]);
                assert(u.last() == chars@[i as int]);
            }
            if !(is_whitespace(chars[i - 1]) && is_whitespace(chars[i])) {
                push_char(&mut result, chars[i]);
            }
            i += 1;
        }
        proof {
            assert(t.subrange(0, end - start) =~= t);
        }
    } else {
        assert(t.len() == 0);
        assert(result@ =~= squeezed(t));
    }
    *s = result;
}

} // verus!
