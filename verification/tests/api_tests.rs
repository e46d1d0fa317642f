use narsese::api::{GetCapacity, GetCategory, NarseseOptions, NarseseValue, TermCapacity, TermCategory};
use narsese::enum_narsese::{Budget, Narsese, Punctuation, Sentence, Stamp, Task, Term, Truth};

fn sentence() -> Sentence {
    Sentence::new_judgement(Term::new_word("A"), Truth::Empty, Stamp::Eternal)
}

#[test]
fn narsese_values_convert_by_kind() {
    let term: Narsese = NarseseValue::from_term(Term::new_word("A"));
    assert!(term.is_term() && !term.is_sentence() && !term.is_task());
    let error = term.clone().try_into_task_compatible().unwrap_err();
    assert_eq!(error.message, "类型「词项」不匹配，无法转换为任务");
    assert_eq!(term.clone().try_into_term().unwrap(), Term::new_word("A"));
    assert_eq!(
        term.try_into_sentence().unwrap_err().message,
        "类型「词项」不匹配，无法转换为语句"
    );
    let s: Narsese = NarseseValue::from_sentence(sentence());
    assert!(s.is_sentence());
    let task = s.try_into_task_compatible().unwrap();
    assert_eq!(task, Task::new(sentence(), Budget::Empty));
    let t: Narsese = NarseseValue::from_task(Task::new(sentence(), Budget::new_triple(1, 2, 3)));
    assert!(t.is_task());
    assert_eq!(
        t.try_into_sentence().unwrap_err().message,
        "类型「任务」不匹配，无法转换为语句"
    );
}

#[test]
fn options_give_up_what_they_hold() {
    let mut options: NarseseOptions<Budget, Term, Punctuation, Stamp, Truth> = NarseseOptions::new();
    assert!(!options.has_sentence() && !options.has_task());
    options.term = Some(Term::new_word("A"));
    options.punctuation = Some(Punctuation::Goal);
    options.stamp = Some(Stamp::Future);
    assert!(options.has_sentence() && !options.has_task());
    assert_eq!(options.take_task(), None);
    let taken = options.take_sentence().unwrap();
    assert_eq!(taken.0, Term::new_word("A"));
    assert_eq!(taken.1, Punctuation::Goal);
    assert_eq!(taken.2, Some(Stamp::Future));
    assert_eq!(taken.3, None);
    assert!(options.term.is_none() && options.stamp.is_none());

    options.budget = Some(Budget::Empty);
    options.term = Some(Term::new_word("B"));
    options.punctuation = Some(Punctuation::Question);
    options.truth = Some(Truth::Empty);
    assert!(options.has_task());
    let (budget, term, punctuation, stamp, truth) = options.take_task().unwrap();
    assert_eq!((budget, punctuation, stamp, truth), (Budget::Empty, Punctuation::Question, None, Some(Truth::Empty)));
    assert_eq!(term, Term::new_word("B"));
    assert!(options.budget.is_none() && options.truth.is_none());

    options.stamp = Some(Stamp::Past);
    assert_eq!(options.take_stamp(), Some(Stamp::Past));
    assert_eq!(options.take_stamp(), None);
    options.budget = Some(Budget::new_single(7));
    assert_eq!(options.take_budget(), Some(Budget::Single(7)));
    options.term = Some(Term::new_word("C"));
    assert_eq!(options.take_term(), Some(Term::new_word("C")));
    options.punctuation = Some(Punctuation::Quest);
    assert_eq!(options.take_punctuation(), Some(Punctuation::Quest));
    options.truth = Some(Truth::Single(5));
    assert_eq!(options.take_truth(), Some(Truth::Single(5)));
    options.term = Some(Term::new_word("D"));
    let all = options.take();
    assert_eq!(all.term, Some(Term::new_word("D")));
    assert!(options.term.is_none());
}

#[test]
fn categories_and_capacities_through_the_traits() {
    let set = Term::new_set_extension(vec![Term::new_word("a")]);
    assert_eq!(GetCategory::get_category(&set), TermCategory::Compound);
    assert!(GetCategory::is_compound(&set) && !GetCategory::is_atom(&set));
    assert!(GetCapacity::is_capacity_set(&set) && GetCapacity::is_capacity_multi(&set));
    let negation = Term::new_negation(Term::new_word("a"));
    assert!(GetCapacity::is_capacity_unary(&negation));
    let inheritance = Term::new_inheritance(Term::new_word("a"), Term::new_word("b"));
    assert!(GetCategory::is_statement(&inheritance));
    assert!(GetCapacity::is_capacity_binary_vec(&inheritance) && GetCapacity::is_capacity_binary(&inheritance));
    let similarity = Term::new_similarity(Term::new_word("a"), Term::new_word("b"));
    assert!(GetCapacity::is_capacity_binary_set(&similarity));
    let product = Term::new_product(vec![]);
    assert!(GetCapacity::is_capacity_vec(&product));
    assert_eq!(GetCapacity::get_capacity(&Term::new_word("w")), TermCapacity::Atom);
    assert!(GetCapacity::is_capacity_atom(&Term::new_word("w")));
}
