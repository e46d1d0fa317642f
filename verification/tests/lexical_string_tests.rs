use narsese::api::FormatTo;
use narsese::api::NarseseValue;
use narsese::conversion::string::impl_lexical::format_instances::{
    create_format_ascii, create_format_han, create_format_latex,
};
use narsese::conversion::string::impl_lexical::parser::{idealize_env, ParseState};
use narsese::conversion::string::impl_lexical::{CharClass, NarseseFormat};
use narsese::lexical::{Narsese, Task, Term};

fn atom(prefix: &str, name: &str) -> Term {
    Term::new_atom(prefix, name)
}

fn statement(subject: Term, copula: &str, predicate: Term) -> Term {
    Term::new_statement_infix(subject, copula, predicate)
}

fn compound(connecter: &str, terms: Vec<Term>) -> Term {
    Term::new_compound(connecter, terms)
}

fn set(left: &str, terms: Vec<Term>, right: &str) -> Term {
    Term::new_set(left, terms, right)
}

fn strings(v: &[&str]) -> Vec<String> {
    v.iter().map(|s| s.to_string()).collect()
}

fn sample_task_ascii(operator: &str) -> Task {
    let ball_left = statement(atom("", "ball"), "{-]", atom("", "left"));
    let conditional_operation = compound(
        "&/",
        vec![
            ball_left,
            statement(
                compound(
                    "*",
                    vec![
                        set("{", vec![atom("", "SELF")], "}"),
                        atom("$", "any"),
                        atom("#", "some"),
                    ],
                ),
                "-->",
                atom("^", operator),
            ),
        ],
    );
    let self_good = statement(atom("", "SELF"), "{-]", atom("", "good"));
    let term = statement(conditional_operation, "==>", self_good);
    Task::new(strings(&["0.5", "0.75", "0.4"]), term, ".", ":!-1:", strings(&["1.0", "0.9"]))
}

fn format_result(format: &NarseseFormat, result: &Narsese) -> String {
    format.format_narsese(result)
}

fn parse_and_format(format: &NarseseFormat, input: &str) -> String {
    let narsese = format.parse(input).expect("parse");
    let formatted = format_result(format, &narsese);
    println!("{narsese:?}\n{formatted}");
    formatted
}

fn format_and_parse(format: &NarseseFormat, input: Task) -> Narsese {
    let formatted = format.format_task(&input);
    let narsese = format.parse(&formatted).expect("parse");
    println!("{formatted}\n{narsese:?}");
    narsese
}

#[test]
fn lexical_formatter_test() {
    let task = sample_task_ascii("go-to");
    let cases: [(NarseseFormat, &str); 3] = [
        (create_format_ascii(), "$0.5;0.75;0.4$ <(&/, <ball {-] left>, <(*, {SELF}, $any, #some) --> ^go-to>) ==> <SELF {-] good>>. :!-1: %1.0;0.9%"),
        (create_format_latex(), r#"\$0.5;0.75;0.4\$ \left<\left(&/\; \left<ball {-] left\right>\; \left<\left(*\; {SELF}\; $any\; #some\right) --> ^go-to\right>\right) ==> \left<SELF {-] good\right>\right>. :!-1: \langle{}1.0,0.9\rangle{}"#),
        (create_format_han(), "预0.5、0.75、0.4算 「（&/，「ball{-]left」，「（*，{SELF}，$any，#some）-->^go-to」）==>「SELF{-]good」」. :!-1: 真1.0、0.9值"),
    ];
    for (format, expected) in cases.iter() {
        let formatted = format.format_task(&task);
        assert_eq!(&formatted, expected);
    }
}

#[test]
fn test_is_atom_identifier() {
    assert!(CharClass::Identifier.has('a'));
    assert!(CharClass::Identifier.has('-'));
    assert!(!CharClass::Identifier.has('❗'));
    let format = create_format_ascii();
    assert!(format.sentence.is_stamp_content.has('+'));
}

#[test]
fn lexical_tests_ascii() {
    let format = create_format_ascii();
    let inputs = [
        "<(&/, <{powerup_good_front} --> [seen]>, +30000, <(*, {SELF}) --> ^right>, +30000) =/> <{SELF} --> [powered]>>. :|: %1.0;0.99%",
        "$$ 空预算要表示出来_空真值因为标点而无需必要. :|:",
    ];
    for input in inputs {
        assert_eq!(parse_and_format(&format, input), input);
    }
    let task = sample_task_ascii("do");
    let parsed = format_and_parse(&format, task);
    assert!(matches!(parsed, NarseseValue::Task(_)));
}

const LATEX_INPUT: &str = r"\$0.5;0.75;0.4\$ \left<\left(,\; \left<\left\{ball\right\} \rightarrow{} \left[left\right]\right>\; \left<\left(\times{}\; \left\{SELF\right\}\; \$any\; \#some\right) \rightarrow{} \Uparrow{}do\right>\right) \Rightarrow{} \left<\left\{SELF\right\} \rightarrow{} \left[good\right]\right>\right>. t=-1 \langle{}1,0.9\rangle{}";

const HAN_INPUT: &str = "预0.5、0.75、0.4算
                「（接连，「『ball』是【left】」，「（积，『SELF』，任一any，其一some ）是操作do」）得「『SELF』是【good】」」。
                发生在-1 真1、0.9值";

#[test]
fn lexical_tests_latex() {
    let format = create_format_latex();
    assert_eq!(parse_and_format(&format, LATEX_INPUT), LATEX_INPUT);
    let task = format.parse(LATEX_INPUT).unwrap().try_into_task().unwrap();
    let parsed = format_and_parse(&format, task.clone());
    assert_eq!(parsed, NarseseValue::Task(task));
}

#[test]
fn lexical_tests_han() {
    let format = create_format_han();
    assert_eq!(parse_and_format(&format, "「我是谁」"), "「我是谁」");
    assert_eq!(
        parse_and_format(&format, HAN_INPUT),
        "预0.5、0.75、0.4算 「（接连，「『ball』是【left】」，「（积，『SELF』，任一any，其一some）是操作do」）得「『SELF』是【good】」」。 发生在-1 真1、0.9值"
    );
    let task = format.parse(HAN_INPUT).unwrap().try_into_task().unwrap();
    let parsed = format_and_parse(&format, task.clone());
    assert_eq!(parsed, NarseseValue::Task(task));
}

#[test]
fn test_segment_budget() {
    let format = create_format_ascii();
    let state = ParseState::new(&format);
    let env = idealize_env(&format, "$0.5; 0.5; 0.5$");
    let idealized = "$0.5;0.5;0.5$";
    assert_eq!(
        state.segment_budget(&env),
        Some((strings(&["0.5", "0.5", "0.5"]), idealized.chars().count()))
    );
    for input in ["$0.5; 0.5; 0.5", "(0.5; 0.5; 0.5)", "0.5; 0.5; 0.5$", "$0.5; 0.5; +0.5$", "$", "❌$0.5; 0.5; 0.5$"] {
        let env = idealize_env(&format, input);
        assert_eq!(state.segment_budget(&env), None, "{input}");
    }
}

#[test]
fn test_segment_truth() {
    let format = create_format_ascii();
    let state = ParseState::new(&format);
    let expected = strings(&["1.0", "0.9"]);
    let env = idealize_env(&format, "%1.0; 0.9%");
    assert_eq!(state.segment_truth(&env), Some((expected.clone(), 0)));
    let env = idealize_env(&format, "<A --> B>.\n:|:\t%1.0; 0.9%");
    assert_eq!(
        state.segment_truth(&env),
        Some((expected, "<A-->B>.:|:%1.0;0.9%".find('%').unwrap()))
    );
    for input in ["1.0; 0.9%", "(1.0; 0.9)", "%1.0; 0.9", "%1.0; +0.9%", "%", "%1.0; 0.9%❌"] {
        let env = idealize_env(&format, input);
        assert_eq!(state.segment_truth(&env), None, "{input}");
    }
}

#[test]
fn test_segment_stamp() {
    let format = create_format_ascii();
    let state = ParseState::new(&format);
    let cases = [
        (":|:", ":|:", 0),
        (" :!\t-123: ", ":!-123:", 0),
        ("<A --> B>.\n:|:\t", ":|:", "<A-->B>.:|:".find(':').unwrap()),
    ];
    for (input, stamp, index) in cases {
        let env = idealize_env(&format, input);
        assert_eq!(state.segment_stamp(&env), Some((stamp.to_string(), index)), "{input}");
    }
    for input in ["+123:", "(+123)", ":!+123", ":!_+123:", ":", ":!+123:❌"] {
        let env = idealize_env(&format, input);
        assert_eq!(state.segment_stamp(&env), None, "{input}");
    }
}

#[test]
fn test_segment_punctuation() {
    let format = create_format_ascii();
    let state = ParseState::new(&format);
    let env = idealize_env(&format, "! ");
    assert_eq!(state.segment_punctuation(&env), Some(("!".to_string(), 0)));
    let env = idealize_env(&format, "<A --> B>.");
    assert_eq!(state.segment_punctuation(&env), Some((".".to_string(), "<A-->B>".chars().count())));
    for input in [";", "#", "$", "%", "^", "&", "*", "-", "_", "+", "=", "/", ":", "|", r"\", "0"] {
        let env = idealize_env(&format, input);
        assert_eq!(state.segment_punctuation(&env), None, "{input}");
    }
}

#[test]
fn test_parse_term() {
    let format = create_format_ascii();
    let state = ParseState::new(&format);
    let cases: Vec<(&str, Term)> = vec![
        ("\n\tA", atom("", "A")),
        ("#A", atom("#", "A")),
        ("真の词项", atom("", "真の词项")),
        ("_", atom("_", "")),
        ("_占位符", atom("_", "占位符")),
        ("$A❗", atom("$", "A")),
        ("+123%%%", atom("+", "123")),
        ("^op --> あ", atom("^", "op")),
        ("<^op --> あ>", statement(atom("^", "op"), "-->", atom("", "あ"))),
        (
            "<<A --> B> ==> <B --> C>>",
            statement(
                statement(atom("", "A"), "-->", atom("", "B")),
                "==>",
                statement(atom("", "B"), "-->", atom("", "C")),
            ),
        ),
        ("(*, A, B, C)", compound("*", vec![atom("", "A"), atom("", "B"), atom("", "C")])),
        ("(* A, B, C)", compound("*", vec![atom("", "A"), atom("", "B"), atom("", "C")])),
        ("(* A #B #C)", compound("*", vec![atom("", "A"), atom("#", "B"), atom("#", "C")])),
        ("(*, A  B, C)", compound("*", vec![atom("", "AB"), atom("", "C")])),
        ("(*, A)", compound("*", vec![atom("", "A")])),
        ("(*, _)", compound("*", vec![atom("_", "")])),
        (
            "(&&, <A --> B>, <B --> C>, <C --> D>)",
            compound(
                "&&",
                vec![
                    statement(atom("", "A"), "-->", atom("", "B")),
                    statement(atom("", "B"), "-->", atom("", "C")),
                    statement(atom("", "C"), "-->", atom("", "D")),
                ],
            ),
        ),
        ("{SELF}", set("{", vec![atom("", "SELF")], "}")),
    ];
    for (input, expected) in cases {
        let parsed = state.parse_term(input).unwrap_or_else(|e| panic!("{}: {}", input, e.to_text()));
        assert_eq!(parsed, expected, "{input}");
    }
    let failures = [
        "", "@A", "&A", "*A", "%A", "!A", "❗", "!",
        "!因为前面这个非法前缀_这玩意儿无法被解析成原子词项",
        "~不会被解析到",
        "(A, B, C)", "(@, A, B, C)", "(;, A, B, C)", "(%, A, B, C)", "($, A, B, C)",
        "(#, A, B, C)", "(!, A, B, C)", "(^, A, B, C)", "(_, A, B, C)",
        "(*, A, B, C", "[A, B, C", "{A, B, C",
        "((*, A, B, C)", "[[A, B, C]", "{{A, B, C}",
        "(*,, A,  B,  C )", "(*,  A,, B,  C )", "(*,  A,  B,, C )", "(*,  A,  B,  C,)",
        "<A --> B", "<<A ==> B>", "<A --> B ==> C>",
        "<A -|> B>", "<A -?> B>", "<A -#> B>", "<A ==< B>", "<A =>> B>", "<A -=> B>",
        "<A <-- B>", "<A <== B>", "<A <:> B>", "<A <#> B>", "<A ==@ B>", "<A --} B>", "<A [-- B>",
    ];
    for input in failures {
        let parsed = state.parse_term(input);
        assert!(parsed.is_err(), "{input}: {parsed:?}");
    }
}

#[test]
fn test_parse_items() {
    let format = create_format_ascii();
    for input in [
        "$0.5; 0.5; 0.5$ <A --> B>. :|: %1.0; 0.9%",
        "$0.5; 0.5; 0.5$ ?v? :|: %1.0; 0.9%",
        "$0.5; 0.5; 0.5$ $i_var@ :|: %1.0; 0.9%",
    ] {
        let mut state = ParseState::new(&format);
        let result = state.parse_items(&idealize_env(&format, input)).expect("条目解析失败！");
        assert!(result.budget.is_some());
        assert!(result.truth.is_some());
        assert!(result.stamp.is_some());
        assert!(result.punctuation.is_some());
    }
}

#[test]
fn test_parse_robust() {
    let format = create_format_ascii();
    let inputs = [
        "<(&&, <<$x-->A>==><$x-->B>>, <<$y-->C>==><$y-->D>>) ==> E>.",
        "<{tim} --> (/,livingIn,_,{graz})>. %0%",
        "<<(*,$1,sunglasses) --> own> ==> <$1 --> [aggressive]>>.",
        "<(*,{tom},sunglasses) --> own>.",
        "<<$1 --> [aggressive]> ==> <$1 --> murder>>.",
        "<<$1 --> (/,livingIn,_,{graz})> ==> <$1 --> murder>>.",
        "<{?who} --> murder>?",
        "<{tim} --> (/,livingIn,_,{graz})>.",
        "<{tim} --> (/,livingIn,_,{graz})>. %0%",
        "<<(*,$1,sunglasses) --> own> ==> <$1 --> [aggressive]>>.",
        "<(*,{tom},(&,[black],glasses)) --> own>.",
        "<<$1 --> [aggressive]> ==> <$1 --> murder>>.",
        "<<$1 --> (/,livingIn,_,{graz})> ==> <$1 --> murder>>.",
        "<sunglasses --> (&,[black],glasses)>.",
        "<{?who} --> murder>?",
        "<(&&,<(*,{$1},{$2},$d) --> 方向>, <(*,{$1},$c) --> 格点状态>, <(*,{$2},无缺陷) --> 格点状态>) ==> <(*,$d,$c,{$1},{$2}) --> [同色连空]>>. %1.00;0.999%",
        "<(*,{格点-4-5},缺陷1) --> 格点状态>. %1.00;0.999%",
    ];
    for input in inputs {
        let result = format.parse(input).unwrap_or_else(|e| panic!("解析失败 {}: {}", input, e.to_text()));
        println!("{result:?}");
    }
}

#[test]
fn lexical_parse_errors() {
    let format = create_format_ascii();
    let error = format.parse("$0.5; 0.5; 0.5$").unwrap_err();
    assert_eq!(error.get_message(), "缺省条目，无法解析成词项/语句/任务");
    assert_eq!(error.get_env_scope(), "$0.5;0.5;0.5$");
    let error = format.parse("@A.").unwrap_err();
    assert_eq!(error.get_message(), "原子词项名称与前缀不能同时为空");
    assert_eq!(error.get_env_scope(), "@A");
    assert_eq!(error.to_text(), "Narsese解析错误：原子词项名称与前缀不能同时为空 in \"@A\"");
    let format = create_format_han();
    let parsed = format.parse("「我是谁」？").unwrap();
    assert!(matches!(parsed, NarseseValue::Sentence(_)));
}

#[test]
fn term_main() {
    let lex_c = compound(
        "&&",
        vec![
            atom("^", "op"),
            set("{", vec![atom("", "word1"), atom("", "word2")], "}"),
            set("{", vec![atom("", "SELF")], "}"),
            statement(atom("+", "123"), "-->", atom("-", "1")),
            statement(atom("$", "A"), "=/>", atom("#", "B")),
        ],
    );
    println!("{lex_c:?}");
    let format = create_format_ascii();
    assert_eq!(
        format.format_term(&lex_c),
        "(&&, ^op, {word1, word2}, {SELF}, <+123 --> -1>, <$A =/> #B>)"
    );
}

#[test]
fn lexical_format_through_the_common_interface() {
    let format = create_format_ascii();
    let task = sample_task_ascii("go-to");
    assert_eq!(format.format(&task), format.format_task(&task));
    assert_eq!(task.format_to(&format), format.format_task(&task));
    let term = atom("$", "x");
    assert_eq!(format.format(&term), "$x");
    let narsese: Narsese = NarseseValue::Term(term.clone());
    assert_eq!(narsese.format_to(&format), format.format_term(&term));
    let truth = strings(&["1.0", "0.9"]);
    assert_eq!(format.format(&truth), "%1.0;0.9%");
    assert_eq!(format.format(&Vec::<String>::new()), "");
}

#[test]
fn mod_main() {
    let task = Task::new(
        strings(&["0.5", "0.5", "0.5"]),
        compound(
            "复合词项连接词",
            vec![
                atom("", "word term"),
                atom("^", "操作"),
                set("{", vec![atom("", "SELF")], "}"),
                statement(
                    set("{", vec![atom("", "word1"), atom("", "word2")], "}"),
                    "-->",
                    set("[", vec![atom("", "word1"), atom("", "word2")], "]"),
                ),
            ],
        ),
        ".",
        ":|:",
        strings(&["1.0", "0.9"]),
    );
    println!("{task:?}");
    assert_eq!(
        create_format_ascii().format_task(&task),
        "$0.5;0.5;0.5$ (复合词项连接词, word term, ^操作, {SELF}, <{word1, word2} --> [word1, word2]>). :|: %1.0;0.9%"
    );
}

#[test]
fn trying_a_term_reads_what_parse_term_reads() {
    let format = create_format_ascii();
    let state = ParseState::new(&format);
    let read = state.try_parse_term("<A --> B>").expect("no overrun").expect("a term");
    assert_eq!(read, statement(atom("", "A"), "-->", atom("", "B")));
    let refused = state.try_parse_term("@A").expect("no overrun");
    assert!(refused.is_err());
    for input in ["{SELF}", "(*, A, B)", "_", "!A"] {
        let tried = state.try_parse_term(input).expect("no overrun");
        let parsed = state.parse_term(input);
        assert_eq!(tried.is_ok(), parsed.is_ok(), "{input}");
        if let (Ok(a), Ok(b)) = (tried, parsed) {
            assert_eq!(a, b, "{input}");
        }
    }
}
