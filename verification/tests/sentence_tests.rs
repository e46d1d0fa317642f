use narsese::api::{EvidentValue, GetPunctuation, GetStamp, GetTerm, GetTruth, TryCastToSentence, CastToTask};
use narsese::enum_narsese::{Budget, Punctuation, Sentence, Stamp, Task, Term, Truth};

fn bits(x: f64) -> u64 {
    x.to_bits()
}

fn new_examples(f: u64, c: u64) -> (Truth, Truth, Truth) {
    let empty = Truth::new_empty();
    let single = Truth::new_single(f);
    let double = Truth::new_double(f, c);
    (empty, single, double)
}

#[test]
fn test_new_valid() {
    let (f, c) = (bits(0.5), bits(0.5));
    let (empty, single, double) = new_examples(f, c);
    println!("empty: {empty:?}");
    println!("single: {single:?}");
    println!("double: {double:?}");
}

#[test]
fn test_valid_get() {
    let (f, c) = (bits(0.5), bits(0.5));
    let (_, single, double) = new_examples(f, c);
    assert_eq!(single.f(), f);
    assert_eq!(double.f(), f);
    assert_eq!(double.c(), c);
}

#[test]
fn truth_from_floats() {
    assert_eq!(Truth::try_from_floats(&[]), Ok(Truth::Empty));
    assert_eq!(Truth::try_from_floats(&[bits(1.0)]), Ok(Truth::Single(bits(1.0))));
    assert_eq!(
        Truth::try_from_floats(&[bits(1.0), bits(0.9), bits(7.0)]),
        Ok(Truth::Double(bits(1.0), bits(0.9)))
    );
    assert_eq!(
        Truth::try_from_floats(&[bits(1.5)]),
        Err("「0-1」区间外的值（建议：`0<x<1`）".to_string())
    );
    assert!(Truth::try_from_floats(&[bits(0.5), bits(-0.5)]).is_err());
    assert!(Truth::try_from_floats(&[bits(-0.0)]).is_ok());
    assert_eq!(Truth::Single(bits(0.0)), Truth::Single(bits(-0.0)));
    assert_eq!(Truth::Double(bits(0.5), bits(0.5)).get_frequency_confidence(), (bits(0.5), bits(0.5)));
}

#[test]
fn sentence_parts() {
    let term = Term::new_word("A");
    let s = Sentence::from_punctuation(term.clone(), Punctuation::Question, Stamp::Present, Truth::Single(bits(1.0)));
    assert_eq!(s.get_truth(), None);
    assert_eq!(*s.get_punctuation(), Punctuation::Question);
    assert_eq!(*s.get_stamp(), Stamp::Present);
    assert_eq!(*s.get_term(), term);
    assert!(Stamp::Eternal.is_eternal());
    assert!(Stamp::Fixed(-3).is_fixed());
    let j = Sentence::new_judgement(term.clone(), Truth::Single(bits(1.0)), Stamp::Eternal);
    assert_eq!(j.get_truth(), Some(&Truth::Single(bits(1.0))));
}

#[test]
fn task_and_sentence() {
    let s = Sentence::new_goal(Term::new_word("A"), Truth::Empty, Stamp::Future);
    let t = s.clone().cast_to_task();
    assert!(t.1.is_empty());
    assert_eq!(t.clone().try_cast_to_sentence(), Ok(s.clone()));
    let t2 = Task::new(s.clone(), Budget::Single(bits(0.5)));
    assert_eq!(t2.clone().try_cast_to_sentence(), Err(t2.clone()));
    assert_eq!(*t2.get_sentence(), s);
}
