use narsese::api::{GetPunctuation, GetStamp, GetTerm, GetTruth};
use narsese::lexical::{Sentence, Task, Term};

#[test]
fn sentence_main() {
    let term = Term::new_atom("", "word in sentence");
    let sentence = Sentence::new(term.clone(), ".", ":|:", vec!["1.0".into(), "0.9".into()]);
    println!("{sentence:?}");
    assert_eq!(sentence.get_term(), &term);
    assert_eq!(sentence.get_punctuation(), ".");
    assert_eq!(sentence.get_stamp(), ":|:");
    assert_eq!(sentence.get_truth().unwrap(), &["1.0", "0.9"]);

    let sentence = Sentence::new(term.clone(), ".", "", vec![]);
    println!("{sentence:?}");
    assert_eq!(sentence.get_stamp(), "");
    assert!(sentence.get_truth().unwrap().is_empty());

    let sentence = Sentence::new(term.clone(), ".", ":|:", vec![]);
    println!("{sentence:?}");
    assert_eq!(sentence.get_stamp(), ":|:");
    assert!(sentence.get_truth().unwrap().is_empty());
}

#[test]
fn task_main() {
    let term = Term::new_atom("", "word in sentence");
    let task = Task::new(
        vec!["0.5".to_string(), "0.5".to_string(), "0.5".to_string()],
        term,
        ".",
        ":|:",
        vec!["1.0".into(), "0.9".into()],
    );
    println!("{task:?}");
}

#[test]
fn lexical_terms() {
    let s = Term::new_statement_infix(Term::new_atom("+", "123"), "-->", Term::new_atom("-", "1"));
    let t = Term::new_statement("-->", Term::new_atom("+", "123"), Term::new_atom("-", "1"));
    assert_eq!(s, t);
    let c = Term::new_compound("&&", vec![Term::new_atom("^", "op"), Term::new_set("{", vec![Term::new_atom("", "SELF")], "}")]);
    assert_eq!(c.clone(), c);
}
