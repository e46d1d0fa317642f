use narsese::api::{ExtractTerms, FormatTo};
use narsese::conversion::string::typst_formatter::{post_process_whitespace, FormatterTypst};
use narsese::enum_narsese::{Budget, Punctuation, Sentence, Stamp, Task, Term, Truth};

fn number_text(x: f64) -> String {
    x.to_string()
}

fn truth_texts(t: &Truth) -> Vec<String> {
    match t {
        Truth::Empty => vec![],
        Truth::Single(f) => vec![number_text(f64::from_bits(*f))],
        Truth::Double(f, c) => vec![number_text(f64::from_bits(*f)), number_text(f64::from_bits(*c))],
    }
}

fn budget_texts(b: &Budget) -> Vec<String> {
    let n = |x: &u64| number_text(f64::from_bits(*x));
    match b {
        Budget::Empty => vec![],
        Budget::Single(p) => vec![n(p)],
        Budget::Double(p, d) => vec![n(p), n(d)],
        Budget::Triple(p, d, q) => vec![n(p), n(d), n(q)],
    }
}

fn sentence_truth_texts(s: &Sentence) -> Vec<String> {
    match s {
        Sentence::Judgement(_, t, _) | Sentence::Goal(_, t, _) => truth_texts(t),
        _ => vec![],
    }
}

fn typst_task(task: &Task) -> String {
    FormatterTypst.format_task(task, &budget_texts(&task.1), &sentence_truth_texts(&task.0))
}

fn typst_sentence(sentence: &Sentence) -> String {
    FormatterTypst.format_sentence(sentence, &sentence_truth_texts(sentence))
}

fn term_testset() -> Vec<Term> {
    let a = Term::new_word("A");
    let b = Term::new_word("B");
    vec![
        Term::new_word("word"),
        Term::new_placeholder(),
        Term::new_variable_independent("i_var"),
        Term::new_variable_dependent("d_var"),
        Term::new_variable_query("q_var"),
        Term::new_interval(1),
        Term::new_operator("op"),
        Term::new_set_extension(vec![a.clone(), b.clone()]),
        Term::new_set_intension(vec![a.clone(), b.clone()]),
        Term::new_intersection_extension(vec![a.clone(), b.clone()]),
        Term::new_intersection_intension(vec![a.clone(), b.clone()]),
        Term::new_difference_extension(a.clone(), b.clone()),
        Term::new_difference_intension(a.clone(), b.clone()),
        Term::new_product(vec![a.clone(), b.clone()]),
        Term::new_image_extension(1, vec![a.clone(), b.clone()]),
        Term::new_image_intension(0, vec![a.clone(), b.clone()]),
        Term::new_conjunction(vec![a.clone(), b.clone()]),
        Term::new_disjunction(vec![a.clone(), b.clone()]),
        Term::new_negation(a.clone()),
        Term::new_conjunction_sequential(vec![a.clone(), b.clone()]),
        Term::new_conjunction_parallel(vec![a.clone(), b.clone()]),
        Term::new_inheritance(a.clone(), b.clone()),
        Term::new_similarity(a.clone(), b.clone()),
        Term::new_implication(a.clone(), b.clone()),
        Term::new_equivalence(a.clone(), b.clone()),
        Term::new_implication_predictive(a.clone(), b.clone()),
        Term::new_implication_concurrent(a.clone(), b.clone()),
        Term::new_implication_retrospective(a.clone(), b.clone()),
        Term::new_equivalence_predictive(a.clone(), b.clone()),
        Term::new_equivalence_concurrent(a.clone(), b),
    ]
}

fn sample_task() -> Task {
    let ball_left = Term::new_instance_property(Term::new_word("ball"), Term::new_word("left"));
    let conditional_operation = Term::new_conjunction_sequential(vec![
        ball_left.clone(),
        Term::new_inheritance(
            Term::new_product(vec![
                Term::new_set_extension(vec![Term::new_word("SELF")]),
                Term::new_variable_independent("any"),
                Term::new_variable_dependent("some"),
            ]),
            Term::new_operator("do"),
        ),
    ]);
    let self_good = Term::new_instance_property(Term::new_word("SELF"), Term::new_word("good"));
    let term = Term::new_implication(conditional_operation, self_good);
    let truth = Truth::Double(1.0f64.to_bits(), 0.9f64.to_bits());
    let sentence = Sentence::new_judgement(term, truth, Stamp::Fixed(-1));
    Task::new(sentence, Budget::Triple(0.5f64.to_bits(), 0.75f64.to_bits(), 0.4f64.to_bits()))
}

fn check_clean(formatted: &str) {
    println!("{formatted}");
    assert_eq!(formatted, formatted.trim());
    assert!(!formatted.contains("  "));
}

fn processed(s: &str) -> String {
    let mut s = s.to_string();
    post_process_whitespace(&mut s);
    s
}

#[test]
fn definition_test() {
    for s in [
        "",
        " ",
        "  ",
        "a",
        "a ",
        " a",
        " a ",
        " a ",
        "a b",
        " a b",
        "a b ",
        " a b ",
        " a  b ",
        " lr(\\$ 0.5\";\"0.75\";\"0.4 \\$)  lr(angle.l  lr((  ,  space  lr(angle.l  lr({  space \"ball\" })  arrow.r  lr([  space \"left\" ])  angle.r)  space  lr(angle.l  lr((  times  space  lr({  space \"SELF\" })  space  \\$ #h(-0.05em) \"any\" space  \\# #h(-0.05em) \"some\" ))  arrow.r  arrow.t.double #h(-0.05em) \"do\" angle.r)  ))  arrow.l.r  lr(angle.l  lr({  space \"SELF\" })  arrow.r  lr([  space \"good\" ])  angle.r)  angle.r)  .  t= -1 lr(angle.l 1,0.9 angle.r) ",
    ] {
        assert!(!processed(s).contains("  "));
    }
}

#[test]
fn whitespace_runs_are_cut_to_their_first_character() {
    assert_eq!(processed(""), "");
    assert_eq!(processed(" \t\n "), "");
    assert_eq!(processed("  a \t b  "), "a b");
    assert_eq!(processed("a\t \tb"), "a\tb");
    assert_eq!(processed("x\u{3000}\u{3000}y"), "x\u{3000}y");
}

#[test]
fn formatter_enum_test() {
    for term in term_testset() {
        check_clean(&FormatterTypst.format(&term));
    }
    check_clean(&typst_task(&sample_task()));
}

#[test]
fn test_examples() {
    let a = Term::new_word("A");
    let b = Term::new_word("B");
    assert_eq!(
        FormatterTypst.format(&Term::new_inheritance(a.clone(), b.clone())),
        r#"lr(angle.l "A" arrow.r "B" angle.r)"#
    );
    let judgement = Sentence::new_judgement(Term::new_implication(a, b), Truth::Empty, Stamp::Eternal);
    assert_eq!(typst_sentence(&judgement), r#"lr(angle.l "A" arrow.r.double "B" angle.r) . space"#);
    let goal = Sentence::new_goal(
        Term::new_inheritance(
            Term::new_set_extension(vec![Term::new_word("SELF")]),
            Term::new_set_intension(vec![Term::new_word("good")]),
        ),
        Truth::Double(1.0f64.to_bits(), 0.9f64.to_bits()),
        Stamp::Present,
    );
    let task = Task::new(goal, Budget::Triple(0.4f64.to_bits(), 0.4f64.to_bits(), 0.4f64.to_bits()));
    assert_eq!(
        typst_task(&task),
        r#"lr(\$ 0.4";"0.4";"0.4 \$) space lr(angle.l lr({ "SELF" }) arrow.r lr([ "good" ]) angle.r) ! space \|#h(-0.6em)arrow.r.double space lr(angle.l 1,0.9 angle.r)"#
    );
}

#[test]
fn typst_atoms_compounds_and_images() {
    assert_eq!(FormatterTypst.format(&Term::new_placeholder()), r#"diamond.small """#);
    assert_eq!(FormatterTypst.format(&Term::new_interval(7)), r#"+ #h(-0.05em) "7""#);
    assert_eq!(FormatterTypst.format(&Term::new_variable_query("q")), r#"? #h(-0.05em) "q""#);
    let a = Term::new_word("A");
    let b = Term::new_word("B");
    assert_eq!(
        FormatterTypst.format(&Term::new_image_extension(1, vec![a.clone(), b.clone()])),
        r#"lr(( \/ space "A" space diamond.small "" space "B" ))"#
    );
    assert_eq!(
        FormatterTypst.format(&Term::new_difference_extension(a.clone(), b.clone())),
        r#"lr(( "A" minus "B" ))"#
    );
    assert_eq!(FormatterTypst.format(&Term::new_negation(a.clone())), r#"lr(( not space "A" ))"#);
    assert_eq!(
        FormatterTypst.format(&Term::new_equivalence_retrospective(a, b)),
        r#"lr(angle.l "B" space\/#h(-0.6em)arrow.l.r.double "A" angle.r)"#
    );
}

#[test]
fn typst_items() {
    assert_eq!(FormatterTypst.format(&Punctuation::Quest), "quest.inv");
    assert_eq!(FormatterTypst.format(&Stamp::Fixed(-3)), "t= -3");
    assert_eq!(FormatterTypst.format(&Stamp::Eternal), "");
    assert_eq!(FormatterTypst.format_truth(&Truth::Empty, &vec![]), "");
    assert_eq!(
        FormatterTypst.format_truth(&Truth::Single(0.5f64.to_bits()), &vec!["0.5".to_string()]),
        "lr(angle.l 0.5 angle.r)"
    );
    assert_eq!(FormatterTypst.format_budget(&Budget::Empty, &vec![]), r#"lr(\$ \$)"#);
    let question = Sentence::new_question(Term::new_word("A"), Stamp::Past);
    assert_eq!(typst_sentence(&question), r#""A" ? \/#h(-0.6em)arrow.r.double space"#);
    assert_eq!(Term::new_word("A").format_to(&FormatterTypst), r#""A""#);
}

#[test]
fn extract_terms() {
    let a = Term::new_word("A");
    let b = Term::new_word("B");
    assert_eq!(a.clone().extract_terms_to_vec(), vec![a.clone()]);
    assert_eq!(
        Term::new_image_intension(0, vec![a.clone(), b.clone()]).extract_terms_to_vec(),
        vec![Term::new_placeholder(), a.clone(), b.clone()]
    );
    assert_eq!(
        Term::new_inheritance(a.clone(), b.clone()).extract_terms_to_vec(),
        vec![a.clone(), b.clone()]
    );
    assert_eq!(Term::new_negation(a.clone()).extract_terms_to_vec(), vec![a]);
}

#[test]
fn post_processing_twice_changes_nothing() {
    for s in ["", "  a  b ", "\t x\n\n y \u{3000}", "lr(( \"A\"  minus  \"B\" ))"] {
        let once = processed(s);
        assert_eq!(processed(&once), once);
        assert_eq!(once, once.trim());
    }
}

#[test]
fn post_processing_keeps_the_visible_characters() {
    let mut blank = String::from(" \t\n\u{3000} ");
    post_process_whitespace(&mut blank);
    assert_eq!(blank, "");
    let input = "  a \u{2003}\t b\n\nc  ";
    let mut s = String::from(input);
    post_process_whitespace(&mut s);
    assert_eq!(s, "a b\nc");
    let kept: String = s.chars().filter(|c| !c.is_whitespace()).collect();
    let before: String = input.chars().filter(|c| !c.is_whitespace()).collect();
    assert_eq!(kept, before);
}
