use narsese::api::{TermCapacity, TermCategory};
use narsese::enum_narsese::term::{new_term_vec_for_image, test_term_vec_for_image, TermError};
use narsese::enum_narsese::{Term, TermVecType};

fn universal(term: &Term) {
    println!("term: {term:?}");
}

#[test]
fn atoms() {
    universal(&Term::new_word("word"));
    universal(&Term::new_variable_independent("independent"));
    universal(&Term::new_variable_dependent("dependent"));
    universal(&Term::new_variable_query("query"));
    universal(&Term::new_interval(42));
    universal(&Term::new_operator("op"));
}

#[test]
fn compound() {
    let a = Term::new_word("A");
    let b: Term = Term::new_word("B");
    let ab = vec![a.clone(), b.clone()];
    let a_c = || a.clone();
    let b_c = || b.clone();
    let ab_c = || ab.clone();
    universal(&Term::new_set_extension(ab_c()));
    universal(&Term::new_set_intension(ab_c()));
    universal(&Term::new_intersection_extension(ab_c()));
    universal(&Term::new_intersection_intension(ab_c()));
    universal(&Term::new_difference_extension(a_c(), b_c()));
    universal(&Term::new_difference_intension(a_c(), b_c()));
    universal(&Term::new_product(ab_c()));
    universal(&Term::new_image_extension(0, ab_c()));
    universal(&Term::new_image_intension(2, ab_c()));
    universal(&Term::new_conjunction(ab_c()));
    universal(&Term::new_disjunction(ab_c()));
    universal(&Term::new_negation(a_c()));
    universal(&Term::new_conjunction_sequential(ab_c()));
    universal(&Term::new_conjunction_parallel(ab_c()));
}

#[test]
fn statement() {
    let a = Term::new_word("A");
    let b: Term = Term::new_word("B");
    let a_c = || a.clone();
    let b_c = || b.clone();
    universal(&Term::new_inheritance(a_c(), b_c()));
    universal(&Term::new_inheritance(a_c(), b_c()));
    universal(&Term::new_similarity(a_c(), b_c()));
    universal(&Term::new_equivalence(a_c(), b_c()));
}

#[test]
fn valid_image() {
    let x = Term::new_word("");
    const N: usize = 10000;
    for len in 1..(N + 1) {
        let mut vec: TermVecType = vec![];
        for _ in 0..len {
            vec.push(x.clone());
        }
        assert_eq!(vec.len(), len);
        for i in 0..(len + 1) {
            assert!(test_term_vec_for_image(i, &vec));
        }
    }
}

#[test]
fn test_components() {
    let set = Term::new_set_extension(vec![Term::new_word("a"), Term::new_word("b")]);
    println!("set: {:?}", set.get_components());
    assert_eq!(set.get_components().len(), 2);
}

fn generate_term_testset() -> Vec<Term> {
    let a = Term::new_word("A");
    let b = Term::new_word("B");
    vec![
        Term::new_word("word"),
        Term::new_placeholder(),
        Term::new_variable_independent("i_var"),
        Term::new_variable_dependent("d_var"),
        Term::new_variable_query("q_var"),
        Term::new_interval(1),
        Term::new_operator("op"),
        Term::new_set_extension(vec![a.clone(), b.clone()]),
        Term::new_set_intension(vec![a.clone(), b.clone()]),
        Term::new_intersection_extension(vec![a.clone(), b.clone()]),
        Term::new_intersection_intension(vec![a.clone(), b.clone()]),
        Term::new_difference_extension(a.clone(), b.clone()),
        Term::new_difference_intension(a.clone(), b.clone()),
        Term::new_product(vec![a.clone(), b.clone()]),
        Term::new_image_extension(1, vec![a.clone(), b.clone()]),
        Term::new_image_intension(0, vec![a.clone(), b.clone()]),
        Term::new_conjunction(vec![a.clone(), b.clone()]),
        Term::new_disjunction(vec![a.clone(), b.clone()]),
        Term::new_negation(a.clone()),
        Term::new_conjunction_sequential(vec![a.clone(), b.clone()]),
        Term::new_conjunction_parallel(vec![a.clone(), b.clone()]),
        Term::new_inheritance(a.clone(), b.clone()),
        Term::new_similarity(a.clone(), b.clone()),
        Term::new_implication(a.clone(), b.clone()),
        Term::new_equivalence(a.clone(), b.clone()),
        Term::new_implication_predictive(a.clone(), b.clone()),
        Term::new_implication_concurrent(a.clone(), b.clone()),
        Term::new_implication_retrospective(a.clone(), b.clone()),
        Term::new_equivalence_predictive(a.clone(), b.clone()),
        Term::new_equivalence_concurrent(a.clone(), b.clone()),
    ]
}

fn check_term(term: &Term) {
    assert!(term.is_atom() || term.is_compound() || term.is_statement());
    println!("{:?}", term.get_category());
    println!("{:?}", term.get_capacity());
}

fn check_atom(atom: Term) {
    check_term(&atom);
    assert!(atom.is_atom());
    assert_eq!(atom.get_category(), TermCategory::Atom);
    assert!(!atom.is_compound());
    assert!(!atom.is_statement());
    println!("{:?}", atom.get_atom_name());
    assert_eq!(atom, atom.clone());
}

fn check_compound(compound: Term) {
    check_term(&compound);
    assert!(compound.is_compound());
    assert_eq!(compound.get_category(), TermCategory::Compound);
    assert!(!compound.is_atom());
    assert!(!compound.is_statement());
    println!("{:?}", compound.get_compound_components());
    assert_eq!(compound, compound.clone());
}

fn check_statement(statement: Term) {
    check_term(&statement);
    assert!(statement.is_statement());
    assert_eq!(statement.get_category(), TermCategory::Statement);
    assert!(!statement.is_atom());
    assert!(!statement.is_compound());
    println!("{:?}", statement.get_components());
}

#[test]
fn test_term() {
    for term in generate_term_testset() {
        match term.get_category() {
            TermCategory::Atom => check_atom(term),
            TermCategory::Compound => check_compound(term),
            TermCategory::Statement => check_statement(term),
        }
    }
}

#[test]
fn sets_keep_each_term_once_in_order() {
    let set = Term::new_set_extension(vec![
        Term::new_word("b"),
        Term::new_word("a"),
        Term::new_word("b"),
        Term::new_placeholder(),
        Term::new_placeholder(),
    ]);
    let expected = Term::new_set_extension(vec![
        Term::new_word("a"),
        Term::new_word("b"),
        Term::new_placeholder(),
    ]);
    assert_eq!(set.get_components().len(), 3);
    assert_eq!(*set.get_components()[0], Term::new_word("b"));
    assert_eq!(*set.get_components()[1], Term::new_word("a"));
    assert_eq!(set, expected);
}

#[test]
fn temporal_statements_equal_by_their_components() {
    let a = Term::new_word("A");
    let b = Term::new_word("B");
    let t = Term::new_implication_predictive(a.clone(), b.clone());
    assert_eq!(t, t.clone());
    assert_ne!(t, Term::new_implication_predictive(b.clone(), a.clone()));
    assert_ne!(t, Term::new_implication_concurrent(a.clone(), b.clone()));
    assert_eq!(
        Term::new_equivalence_concurrent(a.clone(), b.clone()),
        Term::new_equivalence_concurrent(b.clone(), a.clone())
    );
    assert_ne!(
        Term::new_equivalence_predictive(a.clone(), b.clone()),
        Term::new_equivalence_predictive(b.clone(), a.clone())
    );
    let set1 = Term::new_set_extension(vec![t.clone(), a.clone(), t.clone()]);
    let set2 = Term::new_set_extension(vec![a.clone(), t.clone()]);
    assert_eq!(set1.get_components().len(), 2);
    assert_eq!(set1, set2);
    let temporal_subject = Term::new_implication_retrospective(a.clone(), b.clone());
    assert_eq!(
        Term::new_similarity(temporal_subject.clone(), b.clone()),
        Term::new_similarity(b.clone(), temporal_subject)
    );
    let s1 = Term::new_similarity(a.clone(), b.clone());
    let s2 = Term::new_similarity(b.clone(), a.clone());
    assert_eq!(s1, s2);
    let i1 = Term::new_inheritance(a.clone(), b.clone());
    let i2 = Term::new_inheritance(b, a);
    assert_ne!(i1, i2);
}

#[test]
fn retrospective_equivalence_is_predictive_reversed() {
    let a = Term::new_word("A");
    let c = Term::new_word("C");
    let t = Term::new_equivalence_retrospective(a.clone(), c.clone());
    match t {
        Term::EquivalencePredictive(x, y) => {
            assert_eq!(*x, c);
            assert_eq!(*y, a);
        }
        _ => panic!("not a predictive equivalence"),
    }
}

#[test]
fn images_from_placeholders() {
    let terms = vec![
        Term::new_word("a"),
        Term::new_placeholder(),
        Term::new_word("b"),
        Term::new_placeholder(),
    ];
    let mut target = vec![];
    let index = Term::to_terms_with_image(terms, &mut target);
    assert_eq!(index, Some(1));
    assert_eq!(target, vec![Term::new_word("a"), Term::new_word("b"), Term::new_placeholder()]);
    let none = Term::to_image_extension_with_placeholder(vec![Term::new_word("a")]);
    assert!(none.is_none());
    let image = Term::to_image_intension_with_placeholder(vec![
        Term::new_placeholder(),
        Term::new_word("x"),
    ])
    .unwrap();
    assert_eq!(image, Term::new_image_intension(0, vec![Term::new_word("x")]));
    match &image {
        Term::ImageIntension(i, v) => {
            let read: Vec<Term> = narsese::enum_narsese::term::ImageIterator::new(v, *i)
                .collect_terms()
                .into_iter()
                .cloned()
                .collect();
            assert_eq!(read, vec![Term::new_placeholder(), Term::new_word("x")]);
        }
        _ => panic!("not an image"),
    }
}

#[test]
fn atom_names() {
    let mut w = Term::new_word("w");
    assert_eq!(w.set_atom_name("v"), Ok(()));
    assert_eq!(w.get_atom_name(), Some("v".to_string()));
    let mut i = Term::new_interval(3);
    assert_eq!(i.get_atom_name_unchecked(), "3");
    assert_eq!(i.set_atom_name("+17"), Ok(()));
    assert_eq!(i, Term::new_interval(17));
    assert_eq!(i.set_atom_name("x"), Err(TermError::InvalidInterval));
    assert_eq!(TermError::InvalidInterval.message(), "尝试在间隔中设置无效的数值");
    let mut p = Term::new_placeholder();
    assert_eq!(p.set_atom_name("q"), Ok(()));
    assert_eq!(p.get_atom_name(), Some(String::new()));
    let mut n = Term::new_negation(Term::new_word("a"));
    assert_eq!(n.set_atom_name("q"), Err(TermError::NotAnAtom));
    assert_eq!(n.get_atom_name(), None);
}

#[test]
fn pushing_components() {
    let mut p = Term::new_product(vec![Term::new_word("a")]);
    assert_eq!(p.push_components(vec![Term::new_word("a")]), Ok(()));
    assert_eq!(p.get_components().len(), 2);
    let mut s = Term::new_conjunction(vec![Term::new_word("a")]);
    assert_eq!(s.push_components(vec![Term::new_word("a"), Term::new_word("b")]), Ok(()));
    assert_eq!(s.get_components().len(), 2);
    let mut n = Term::new_negation(Term::new_word("a"));
    assert_eq!(n.push_components(vec![Term::new_word("b")]), Err(TermError::FixedCapacity));
    assert_eq!(n.get_capacity(), TermCapacity::Unary);
    assert_eq!(Term::new_similarity(Term::new_word("a"), Term::new_word("b")).get_capacity(), TermCapacity::BinarySet);
}

#[test]
fn invalid_image_index_is_reported() {
    assert!(!test_term_vec_for_image(1, &vec![]));
    assert!(!test_term_vec_for_image(2, &vec![Term::new_word("")]));
    assert_eq!(new_term_vec_for_image(1, vec![Term::new_word("")]).len(), 1);
}

#[test]
fn clone_copies_and_equals() {
    let t = Term::new_implication(
        Term::new_set_extension(vec![Term::new_word("a"), Term::new_interval(3)]),
        Term::new_image_extension(1, vec![Term::new_variable_query("q")]),
    );
    let c = t.clone();
    assert_eq!(c, t);
    assert_eq!(format!("{c:?}"), format!("{t:?}"));
    let temporal = Term::new_implication_predictive(Term::new_word("a"), Term::new_word("b"));
    let copy = temporal.clone();
    assert_eq!(copy, temporal);
    assert_eq!(format!("{copy:?}"), format!("{temporal:?}"));
}

#[test]
fn capacities_order_by_base_number() {
    assert_eq!(TermCapacity::Atom.base_num(), 1);
    assert_eq!(TermCapacity::Unary.base_num(), 1);
    assert_eq!(TermCapacity::BinarySet.base_num(), 2);
    assert_eq!(TermCapacity::BinaryVec.base_num(), 2);
    assert_eq!(TermCapacity::SetMany.base_num(), 3);
    assert_eq!(TermCapacity::Vec.base_num(), 3);
    assert_eq!(TermCapacity::Atom.partial_cmp(&TermCapacity::Unary), Some(std::cmp::Ordering::Equal));
    assert!(TermCapacity::Unary < TermCapacity::BinarySet);
    assert_eq!(TermCapacity::BinarySet.partial_cmp(&TermCapacity::BinaryVec), Some(std::cmp::Ordering::Equal));
    assert!(TermCapacity::BinaryVec < TermCapacity::SetMany);
    assert_eq!(TermCapacity::SetMany.partial_cmp(&TermCapacity::Vec), Some(std::cmp::Ordering::Equal));
    assert!(TermCapacity::Atom != TermCapacity::Unary);
}

#[test]
fn equality_is_symmetric_and_transitive_on_built_terms() {
    let a = Term::new_word("A");
    let b = Term::new_word("B");
    let s1 = Term::new_set_extension(vec![a.clone(), b.clone()]);
    let s2 = Term::new_set_extension(vec![b.clone(), a.clone(), b.clone()]);
    let s3 = Term::new_set_extension(vec![b.clone(), a.clone()]);
    assert!(s1 == s2 && s2 == s1);
    assert!(s2 == s3 && s1 == s3);
    let x = Term::new_similarity(a.clone(), s1.clone());
    let y = Term::new_similarity(s2.clone(), a.clone());
    assert!(x == y && y == x);
    // A set written with a repeated component is not what the constructors build, and
    // there equality is one-sided.
    let repeated = Term::SetExtension(vec![a.clone(), a.clone()]);
    let other = Term::SetExtension(vec![a.clone(), b.clone()]);
    assert!(repeated == other);
    assert!(other != repeated);
}

#[test]
fn inheritance_keeps_its_order() {
    let a = Term::new_word("A");
    let b = Term::new_set_extension(vec![Term::new_word("B"), Term::new_word("C")]);
    let forward = Term::new_inheritance(a.clone(), b.clone());
    let backward = Term::new_inheritance(b.clone(), a.clone());
    assert_ne!(forward, backward);
    assert_eq!(forward.get_components(), vec![&a, &b]);
    let same = Term::new_inheritance(a.clone(), a.clone());
    assert_eq!(same, Term::new_inheritance(a.clone(), a.clone()));
}

#[test]
fn sets_ignore_order_and_repetition() {
    let a = Term::new_word("a");
    let b = Term::new_word("b");
    let c = Term::new_implication_predictive(a.clone(), b.clone());
    let s1 = Term::new_set_intension(vec![a.clone(), b.clone(), c.clone(), a.clone()]);
    let s2 = Term::new_set_intension(vec![c.clone(), b.clone(), a.clone(), c.clone()]);
    assert_eq!(s1, s2);
    assert_eq!(s1.get_components().len(), 3);
    assert_eq!(s2.get_components().len(), 3);
}

#[test]
fn equal_terms_built_alike_hash_alike() {
    let t = Term::new_similarity(Term::new_word("x"), Term::new_operator("op"));
    let u = t.clone();
    let mut h1 = std::collections::hash_map::DefaultHasher::new();
    let mut h2 = std::collections::hash_map::DefaultHasher::new();
    std::hash::Hash::hash(&t, &mut h1);
    std::hash::Hash::hash(&u, &mut h2);
    assert_eq!(t, u);
    assert_eq!(std::hash::Hasher::finish(&h1), std::hash::Hasher::finish(&h2));
}
