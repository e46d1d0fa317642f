//! What the string formats share: the result of a parse, the templates that lay out
//! atoms, compounds, statements and sentences, and the joining of items.
use vstd::prelude::*;
use crate::text::push_str;
pub use crate::text::texts;

verus! {

/// What a parse gives: a term, a sentence or a task.
#[derive(Debug, Clone)]
pub enum NarseseResult<Term, Sentence, Task> {
    /// A term
    Term(Term),
    /// A sentence
    Sentence(Sentence),
    /// A task
    Task(Task),
}

/// The items, each after the first preceded by `separator` and `space`.
pub open spec fn joined(items: Seq<Seq<char>>, separator: Seq<char>, space: Seq<char>) -> Seq<char>
    decreases items.len(),
{
    if items.len() == 0 {
        Seq::empty()
    } else if items.len() == 1 {
        items[0]
    } else {
        joined(items.drop_last(), separator, space) + separator + space + items.last()
    }
}

/// The items joined by `separator`, an empty item after the first one adding nothing (no
/// separator either).
pub open spec fn joined_lest_empty(items: Seq<Seq<char>>, separator: Seq<char>) -> Seq<char>
    decreases items.len(),
{
    if items.len() == 0 {
        Seq::empty()
    } else if items.len() == 1 {
        items[0]
    } else {
        joined_lest_empty(items.drop_last(), separator) + if items.last().len() == 0 {
            Seq::empty()
        } else {
            separator + items.last()
        }
    }
}

/// Items joined with empty ones left out end with the last item.
pub proof fn lemma_joined_lest_empty_ends_with_last(items: Seq<Seq<char>>, separator: Seq<char>)
    requires
        items.len() > 0,
    ensures
        joined_lest_empty(items, separator).len() >= items.last().len(),
        joined_lest_empty(items, separator).subrange(
            joined_lest_empty(items, separator).len() - items.last().len(),
            joined_lest_empty(items, separator).len() as int,
        ) == items.last(),
{
    let j = joined_lest_empty(items, separator);
    let l = items.last();
    if items.len() == 1 {
        assert(j.subrange(0, j.len() as int) =~= j);
    } else if l.len() == 0 {
        assert(j.subrange(j.len() as int, j.len() as int) =~= l);
    } else {
        let p = joined_lest_empty(items.drop_last(), separator);
        assert(j == p + (separator + l));
        assert(j.subrange(j.len() - l.len(), j.len() as int) =~= l);
    }
}

/// Appends an atom: its prefix, then its name.
pub fn template_atom(out: &mut String, prefix: &str, name: &str)
    ensures
        final(out)@ == old(out)@ + prefix@ + name@,
{
    push_str(out, prefix);
    push_str(out, name);
}

/// Appends the components, each after the first preceded by `separator` and `space`.
pub fn template_components(out: &mut String, components: &Vec<String>, separator: &str, space: &str)
    ensures
        final(out)@ == old(out)@ + joined(texts(components@), separator@, space@),
{
    let ghost o0 = out@;
    let ghost items = texts(components@);
    let mut i: usize = 0;
    while i < components.len()
        invariant
            i <= components.len(),
            items == texts(components@),
            out@ == o0 + joined(items.take(i as int), separator@, space@),
        decreases components.len() - i,
    {
        let ghost before = out@;
        if i != 0 {
            push_str(out, separator);
            push_str(out, space);
        }
        push_str(out, components[i].as_str());
        proof {
            let t = items.take(i + 1);
            assert(t.drop_last() =~= items.take(i as int));
            assert(t.last() == components@[i as int]@);
            if i == 0 {
                assert(joined(items.take(0), separator@, space@) =~= Seq::<char>::empty());
                assert(out@ =~= o0 + joined(t, separator@, space@));
            } else {
                assert(out@ =~= o0 + joined(t, separator@, space@));
            }
        }
        i += 1;
    }
    proof {
        assert(items.take(components.len() as int) =~= items);
    }
}

/// Appends a compound: left bracket, connector, separator and space, the components,
/// right bracket.
pub fn template_compound(
    out: &mut String,
    left_bracket: &str,
    connecter: &str,
    components: &Vec<String>,
    separator: &str,
    space: &str,
    right_bracket: &str,
)
    ensures
        final(out)@ == old(out)@ + left_bracket@ + connecter@ + separator@ + space@ + joined(
            texts(components@),
            separator@,
            space@,
        ) + right_bracket@,
{
    push_str(out, left_bracket);
    push_str(out, connecter);
    push_str(out, separator);
    push_str(out, space);
    template_components(out, components, separator, space);
    push_str(out, right_bracket);
}

/// Appends a set: left bracket, the components, right bracket.
pub fn template_compound_set(
    out: &mut String,
    left_bracket: &str,
    components: &Vec<String>,
    separator: &str,
    space: &str,
    right_bracket: &str,
)
    ensures
        final(out)@ == old(out)@ + left_bracket@ + joined(texts(components@), separator@, space@)
            + right_bracket@,
{
    push_str(out, left_bracket);
    template_components(out, components, separator, space);
    push_str(out, right_bracket);
}

/// Appends a statement: left bracket, subject, space, copula, space, predicate, right
/// bracket.
pub fn template_statement(
    out: &mut String,
    left_bracket: &str,
    subject: &str,
    copula: &str,
    predicate: &str,
    space: &str,
    right_bracket: &str,
)
    ensures
        final(out)@ == old(out)@ + left_bracket@ + subject@ + space@ + copula@ + space@
            + predicate@ + right_bracket@,
{
    push_str(out, left_bracket);
    push_str(out, subject);
    push_str(out, space);
    push_str(out, copula);
    push_str(out, space);
    push_str(out, predicate);
    push_str(out, right_bracket);
}

/// Appends a sentence: the term, then punctuation, stamp and truth joined by `separator`
/// where they are not empty (the punctuation always follows the term directly).
pub fn template_sentence(
    out: &mut String,
    term: &str,
    punctuation: &str,
    stamp: &str,
    truth: &str,
    separator: &str,
)
    ensures
        final(out)@ == old(out)@ + term@ + joined_lest_empty(
            seq![punctuation@, stamp@, truth@],
            separator@,
        ),
{
    push_str(out, term);
    let items: [&str; 3] = [punctuation, stamp, truth];
    join_lest_multiple_separators(out, &items, separator);
    proof {
        assert(items@.map_values(|s: &str| s@) =~= seq![punctuation@, stamp@, truth@]);
    }
}

/// Appends the items joined by `separator`, an empty item after the first adding nothing
/// (see [`joined_lest_empty`]).
pub fn join_lest_multiple_separators(out: &mut String, elements: &[&str], separator: &str)
    ensures
        final(out)@ == old(out)@ + joined_lest_empty(
            elements@.map_values(|s: &str| s@),
            separator@,
        ),
{
    let ghost o0 = out@;
    let ghost items = elements@.map_values(|s: &str| s@);
    let mut i: usize = 0;
    while i < elements.len()
        invariant
            i <= elements.len(),
            items == elements@.map_values(|s: &str| s@),
            out@ == o0 + joined_lest_empty(items.take(i as int), separator@),
        decreases elements.len() - i,
    {
        let e = elements[i];
        proof {
            let t = items.take(i + 1);
            assert(t.drop_last() =~= items.take(i as int));
            assert(t.last() == e@);
        }
        if i == 0 {
            push_str(out, e);
            proof {
                assert(joined_lest_empty(items.take(0), separator@) =~= Seq::<char>::empty());
                assert(out@ =~= o0 + joined_lest_empty(items.take(1), separator@));
            }
        } else if e.unicode_len() != 0 {
            push_str(out, separator);
            push_str(out, e);
            proof {
                assert(out@ =~= o0 + joined_lest_empty(items.take(i + 1), separator@));
            }
        } else {
            proof {
                assert(out@ =~= o0 + joined_lest_empty(items.take(i + 1), separator@));
            }
        }
        i += 1;
    }
    proof {
        assert(items.take(elements.len() as int) =~= items);
    }
}

/// Appends `separator` and the buffer to `out` and empties the buffer, unless the buffer
/// is empty already.
pub fn add_space_if_necessary_and_flush_buffer(out: &mut String, buffer: &mut String, separator: &str)
    ensures
        final(out)@ == if old(buffer)@.len() == 0 {
            old(out)@
        } else {
            old(out)@ + separator@ + old(buffer)@
        },
        final(buffer)@ == Seq::<char>::empty(),
{
    if buffer.as_str().unicode_len() != 0 {
        push_str(out, separator);
        push_str(out, buffer.as_str());
        *buffer = String::new();
    }
}

} // verus!
