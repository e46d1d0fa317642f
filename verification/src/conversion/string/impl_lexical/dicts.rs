//! The dictionaries of prefixes and suffixes that the lexical formats match against:
//! those of `nar_dev_utils`, with what their source shows of them.
use vstd::prelude::*;
use nar_dev_utils::{
    BiFixMatchDictPair, PrefixMatch, StartsWithStr, SuffixMatch, SuffixMatchDictPair, XFixMatchDict,
};

verus! {

/// `p` begins `s`.
pub open spec fn is_prefix(p: Seq<char>, s: Seq<char>) -> bool {
    p.len() <= s.len() && s.take(p.len() as int) == p
}

/// `x` ends `s`.
pub open spec fn is_suffix(x: Seq<char>, s: Seq<char>) -> bool {
    x.len() <= s.len() && s.skip(s.len() - x.len()) == x
}

/// `a` comes before `b` in the order of strings (character by character; a proper
/// prefix first).
pub open spec fn lex_lt(a: Seq<char>, b: Seq<char>) -> bool
    decreases a.len(),
{
    if b.len() == 0 {
        false
    } else if a.len() == 0 {
        true
    } else if a[0] != b[0] {
        a[0] < b[0]
    } else {
        lex_lt(a.drop_first(), b.drop_first())
    }
}

/// `a` and `b` are the same string or one comes before the other.
pub proof fn lemma_lex_total(a: Seq<char>, b: Seq<char>)
    ensures
        a == b || lex_lt(a, b) || lex_lt(b, a),
    decreases a.len(),
{
    if a.len() > 0 && b.len() > 0 && a[0] == b[0] {
        lemma_lex_total(a.drop_first(), b.drop_first());
        if a.drop_first() == b.drop_first() {
            assert(a =~= seq![a[0]] + a.drop_first());
            assert(b =~= seq![b[0]] + b.drop_first());
        }
    } else if a.len() == 0 && b.len() == 0 {
        assert(a =~= b);
    }
}

/// No string comes before itself, and of two strings at most one comes first.
pub proof fn lemma_lex_asymmetric(a: Seq<char>, b: Seq<char>)
    ensures
        !(lex_lt(a, b) && lex_lt(b, a)),
        !lex_lt(a, a),
    decreases a.len(),
{
    if a.len() > 0 && b.len() > 0 && a[0] == b[0] {
        lemma_lex_asymmetric(a.drop_first(), b.drop_first());
    }
    if a.len() > 0 {
        lemma_lex_asymmetric(a.drop_first(), a.drop_first());
    }
}

/// `p` is a longest string of `set` that begins `s`.
pub open spec fn is_longest_prefix(set: Set<Seq<char>>, s: Seq<char>, p: Seq<char>) -> bool {
    &&& set.contains(p)
    &&& is_prefix(p, s)
    &&& forall|q: Seq<char>| set.contains(q) && is_prefix(q, s) ==> q.len() <= p.len()
}

/// The longest string of `set` that begins `s`, if any does.
pub open spec fn longest_prefix(set: Set<Seq<char>>, s: Seq<char>) -> Option<Seq<char>> {
    if exists|p: Seq<char>| is_longest_prefix(set, s, p) {
        Some(choose|p: Seq<char>| is_longest_prefix(set, s, p))
    } else {
        None
    }
}

/// A longest prefix is the longest prefix; where no string of the set begins `s`, there
/// is none.
pub proof fn lemma_longest_prefix(set: Set<Seq<char>>, s: Seq<char>, r: Option<Seq<char>>)
    requires
        match r {
            Some(p) => is_longest_prefix(set, s, p),
            None => forall|q: Seq<char>| set.contains(q) ==> !is_prefix(q, s),
        },
    ensures
        longest_prefix(set, s) == r,
{
    match r {
        Some(p) => {
            let c = choose|p: Seq<char>| is_longest_prefix(set, s, p);
            assert(is_longest_prefix(set, s, c));
            assert(c.len() == p.len());
            assert(c =~= s.take(c.len() as int));
            assert(p =~= s.take(p.len() as int));
        },
        None => {},
    }
}

/// `x` is a greatest string of `set` that ends `s`.
pub open spec fn is_greatest_suffix(set: Set<Seq<char>>, s: Seq<char>, x: Seq<char>) -> bool {
    &&& set.contains(x)
    &&& is_suffix(x, s)
    &&& forall|q: Seq<char>| set.contains(q) && is_suffix(q, s) ==> !lex_lt(x, q)
}

/// The greatest string of `set` that ends `s`, if any does.
pub open spec fn greatest_suffix(set: Set<Seq<char>>, s: Seq<char>) -> Option<Seq<char>> {
    if exists|x: Seq<char>| is_greatest_suffix(set, s, x) {
        Some(choose|x: Seq<char>| is_greatest_suffix(set, s, x))
    } else {
        None
    }
}

/// A greatest suffix is the greatest suffix; where no string of the set ends `s`, there is
/// none.
pub proof fn lemma_greatest_suffix(set: Set<Seq<char>>, s: Seq<char>, r: Option<Seq<char>>)
    requires
        match r {
            Some(x) => is_greatest_suffix(set, s, x),
            None => forall|q: Seq<char>| set.contains(q) ==> !is_suffix(q, s),
        },
    ensures
        greatest_suffix(set, s) == r,
{
    match r {
        Some(x) => {
            let c = choose|x: Seq<char>| is_greatest_suffix(set, s, x);
            assert(is_greatest_suffix(set, s, c));
            assert(!lex_lt(c, x));
            assert(!lex_lt(x, c));
            lemma_lex_total(c, x);
        },
        None => {},
    }
}

/// No pairs of strings.
pub open spec fn no_pairs() -> Map<Seq<char>, Seq<char>> {
    Map::empty()
}

/// A dictionary of strings (`XFixMatchDict`, also named `PrefixMatchDict`,
/// `SuffixMatchDict` and `BiFixMatchDict`).
#[verifier::external_type_specification]
#[verifier::external_body]
pub struct ExXFixMatchDict(XFixMatchDict);

/// A dictionary of pairs keyed by suffix (`SuffixMatchDictPair`).
#[verifier::external_type_specification]
#[verifier::external_body]
#[verifier::reject_recursive_types(T)]
pub struct ExSuffixMatchDictPair<T>(SuffixMatchDictPair<T>);

/// A dictionary of prefix-suffix pairs (`BiFixMatchDictPair`).
#[verifier::external_type_specification]
#[verifier::external_body]
pub struct ExBiFixMatchDictPair(BiFixMatchDictPair);

/// The strings that a dictionary holds.
pub uninterp spec fn x_fixes_of(d: XFixMatchDict) -> Set<Seq<char>>;

/// The pairs that a dictionary of pairs holds: the associated string of each suffix.
pub uninterp spec fn suffix_pairs_of(d: SuffixMatchDictPair<String>) -> Map<Seq<char>, Seq<char>>;

/// The pairs that a dictionary of prefix-suffix pairs holds: the suffix of each prefix.
pub uninterp spec fn bi_fixes_of(d: BiFixMatchDictPair) -> Map<Seq<char>, Seq<char>>;

/// An empty dictionary of strings (`XFixMatchDict::default`).
#[verifier::external_body]
pub(crate) fn new_x_fix_dict() -> (d: XFixMatchDict)
    ensures
        x_fixes_of(d) == Set::<Seq<char>>::empty(),
{
    XFixMatchDict::default()
}

/// Adds a string to a dictionary (`XFixMatchDict::insert`: kept once).
#[verifier::external_body]
pub(crate) fn x_fix_dict_insert(d: &mut XFixMatchDict, x: &str)
    ensures
        x_fixes_of(*final(d)) == x_fixes_of(*old(d)).insert(x@),
{
    d.insert(x.to_string())
}

/// The longest string of the dictionary that begins `s`
/// (`PrefixMatch::match_prefix_char_slice`: the strings are tried from the greatest down,
/// and of two that begin `s` the longer is the greater).
#[verifier::external_body]
pub(crate) fn x_fix_dict_match_prefix(d: &XFixMatchDict, s: &[char]) -> (r: Option<String>)
    ensures
        match r {
            Some(p) => x_fixes_of(*d).contains(p@) && is_prefix(p@, s@) && forall|q: Seq<char>|
                x_fixes_of(*d).contains(q) && is_prefix(q, s@) ==> q.len() <= p@.len(),
            None => forall|q: Seq<char>| x_fixes_of(*d).contains(q) ==> !is_prefix(q, s@),
        },
{
    d.match_prefix_char_slice(s).cloned()
}

/// The greatest string of the dictionary that ends `s`
/// (`SuffixMatch::match_suffix_char_slice`: the strings are tried from the greatest
/// down).
#[verifier::external_body]
pub(crate) fn x_fix_dict_match_suffix(d: &XFixMatchDict, s: &[char]) -> (r: Option<String>)
    ensures
        match r {
            Some(x) => x_fixes_of(*d).contains(x@) && is_suffix(x@, s@) && forall|q: Seq<char>|
                x_fixes_of(*d).contains(q) && is_suffix(q, s@) ==> !lex_lt(x@, q),
            None => forall|q: Seq<char>| x_fixes_of(*d).contains(q) ==> !is_suffix(q, s@),
        },
{
    d.match_suffix_char_slice(s).cloned()
}

/// An empty dictionary of pairs keyed by suffix (`SuffixMatchDictPair::default`).
#[verifier::external_body]
pub(crate) fn new_suffix_pair_dict() -> (d: SuffixMatchDictPair<String>)
    ensures
        suffix_pairs_of(d) == no_pairs(),
{
    SuffixMatchDictPair::default()
}

/// Adds the pair of `associated` and `suffix` unless the suffix is there already
/// (`SuffixMatchDictPair::insert`).
#[verifier::external_body]
pub(crate) fn suffix_pair_dict_insert(d: &mut SuffixMatchDictPair<String>, associated: &str, suffix: &str)
    ensures
        suffix_pairs_of(*final(d)) == if suffix_pairs_of(*old(d)).dom().contains(suffix@) {
            suffix_pairs_of(*old(d))
        } else {
            suffix_pairs_of(*old(d)).insert(suffix@, associated@)
        },
{
    let _ = d.insert((associated.to_string(), suffix.to_string()));
}

/// The pair with the greatest suffix that ends `s`, as (associated string, suffix)
/// (`SuffixMatch::match_suffix_char_slice`: the suffixes are tried from the greatest
/// down).
#[verifier::external_body]
pub(crate) fn suffix_pair_dict_match(d: &SuffixMatchDictPair<String>, s: &[char]) -> (r: Option<(String, String)>)
    ensures
        r is Some ==> suffix_pairs_of(*d).dom().contains(r->Some_0.1@) && suffix_pairs_of(
            *d,
        )[r->Some_0.1@] == r->Some_0.0@ && is_suffix(r->Some_0.1@, s@) && forall|q: Seq<char>|
            suffix_pairs_of(*d).dom().contains(q) && is_suffix(q, s@) ==> !lex_lt(
                r->Some_0.1@,
                q,
            ),
        r is None ==> forall|q: Seq<char>|
            suffix_pairs_of(*d).dom().contains(q) ==> !is_suffix(q, s@),
{
    d.match_suffix_char_slice(s).cloned()
}

/// An empty dictionary of prefix-suffix pairs (`BiFixMatchDictPair::default`).
#[verifier::external_body]
pub(crate) fn new_bi_fix_dict() -> (d: BiFixMatchDictPair)
    ensures
        bi_fixes_of(d) == no_pairs(),
{
    BiFixMatchDictPair::default()
}

/// Adds a prefix-suffix pair unless the prefix or the suffix is there already
/// (`BiFixMatchDictPair::insert`).
#[verifier::external_body]
pub(crate) fn bi_fix_dict_insert(d: &mut BiFixMatchDictPair, prefix: &str, suffix: &str)
    ensures
        bi_fixes_of(*final(d)) == if bi_fixes_of(*old(d)).dom().contains(prefix@) || exists|p: Seq<char>|
            bi_fixes_of(*old(d)).dom().contains(p) && bi_fixes_of(*old(d))[p] == suffix@ {
            bi_fixes_of(*old(d))
        } else {
            bi_fixes_of(*old(d)).insert(prefix@, suffix@)
        },
{
    let _ = d.insert((prefix.to_string(), suffix.to_string()));
}

/// The pair with the longest prefix that begins `s`, as (prefix, suffix)
/// (`PrefixMatch::match_prefix_char_slice`: the prefixes are tried from the greatest
/// down, and of two that begin `s` the longer is the greater).
#[verifier::external_body]
pub(crate) fn bi_fix_dict_match_prefix(d: &BiFixMatchDictPair, s: &[char]) -> (r: Option<(String, String)>)
    ensures
        r is Some ==> bi_fixes_of(*d).dom().contains(r->Some_0.0@) && bi_fixes_of(*d)[r->Some_0.0@]
            == r->Some_0.1@ && is_prefix(r->Some_0.0@, s@) && forall|q: Seq<char>|
            bi_fixes_of(*d).dom().contains(q) && is_prefix(q, s@) ==> q.len() <= r->Some_0.0@.len(),
        r is None ==> forall|q: Seq<char>| bi_fixes_of(*d).dom().contains(q) ==> !is_prefix(q, s@),
{
    d.match_prefix_char_slice(s).cloned()
}

/// What `StartsWithStr::starts_with_str` answers: `needle` is empty, or `s` is not and
/// agrees with `needle` at every position that both have (so a nonempty `s` that is shorter
/// than `needle` and begins it passes too).
pub open spec fn agrees_at_start(s: Seq<char>, needle: Seq<char>) -> bool {
    needle.len() == 0 || (s.len() > 0 && forall|i: int|
        0 <= i < s.len() && i < needle.len() ==> s[i] == needle[i])
}

/// Whether the characters begin with the string as `StartsWithStr::starts_with_str` tests
/// it (see [`agrees_at_start`]).
#[verifier::external_body]
pub(crate) fn starts_with_str(s: &[char], needle: &str) -> (b: bool)
    ensures
        b == agrees_at_start(s@, needle@),
{
    s.starts_with_str(needle)
}

} // verus!
