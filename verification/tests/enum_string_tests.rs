use narsese::conversion::string::impl_lexical::format_instances::{
    create_format_ascii, create_format_han, create_format_latex,
};
use narsese::conversion::string::impl_enum::format_instances::{format_ascii, format_han, format_latex};
use narsese::conversion::string::impl_enum::parser::{form_result, EnumNarseseResult, ParseError};
use narsese::conversion::string::impl_enum::NarseseFormat;
use narsese::conversion::string::impl_enum::result::KindMismatch;
use narsese::conversion::string::NarseseResult;
use narsese::enum_narsese::{Budget, Sentence, Stamp, Task, Term, Truth};

fn bits(x: f64) -> u64 {
    x.to_bits()
}

fn number_text(b: u64) -> String {
    f64::from_bits(b).to_string()
}

fn truth_texts(t: &Truth) -> Vec<String> {
    match t {
        Truth::Empty => vec![],
        Truth::Single(f) => vec![number_text(*f)],
        Truth::Double(f, c) => vec![number_text(*f), number_text(*c)],
    }
}

fn budget_texts(b: &Budget) -> Vec<String> {
    match b {
        Budget::Empty => vec![],
        Budget::Single(p) => vec![number_text(*p)],
        Budget::Double(p, d) => vec![number_text(*p), number_text(*d)],
        Budget::Triple(p, d, q) => vec![number_text(*p), number_text(*d), number_text(*q)],
    }
}

fn sentence_truth_texts(s: &Sentence) -> Vec<String> {
    match s {
        Sentence::Judgement(_, t, _) | Sentence::Goal(_, t, _) => truth_texts(t),
        _ => vec![],
    }
}

fn format_sentence(format: &NarseseFormat<&str>, s: &Sentence) -> String {
    format.format_sentence(s, &sentence_truth_texts(s))
}

fn format_task(format: &NarseseFormat<&str>, task: &Task) -> String {
    format.format_task(task, &budget_texts(&task.1), &sentence_truth_texts(&task.0))
}

fn format_result(format: &NarseseFormat<&str>, result: &EnumNarseseResult) -> String {
    match result {
        NarseseResult::Term(term) => format.format_term(term),
        NarseseResult::Sentence(sentence) => format_sentence(format, sentence),
        NarseseResult::Task(task) => format_task(format, task),
    }
}

fn literal_bits(literals: &Option<Vec<String>>) -> Vec<u64> {
    match literals {
        Some(v) => v.iter().map(|l| l.parse::<f64>().unwrap().to_bits()).collect(),
        None => vec![],
    }
}

fn parse(format: &NarseseFormat<&str>, input: &str) -> Result<EnumNarseseResult, ParseError> {
    let mid = format
        .try_parse_to_mid_result(input)
        .expect("the reading stays within the text")?;
    let truth_bits = literal_bits(&mid.truth);
    let budget_bits = literal_bits(&mid.budget);
    Ok(form_result(mid, truth_bits, budget_bits))
}

fn sample_task() -> Task {
    let ball_left = Term::new_instance_property(Term::new_word("ball"), Term::new_word("left"));
    let conditional_operation = Term::new_conjunction_sequential(vec![
        ball_left.clone(),
        Term::new_inheritance(
            Term::new_product(vec![
                Term::new_set_extension(vec![Term::new_word("SELF")]),
                Term::new_variable_independent("any"),
                Term::new_variable_dependent("some"),
            ]),
            Term::new_operator("do"),
        ),
    ]);
    let self_good = Term::new_instance_property(Term::new_word("SELF"), Term::new_word("good"));
    let term = Term::new_implication(conditional_operation.clone(), self_good.clone());
    let truth = Truth::Double(bits(1.0), bits(0.9));
    let stamp = Stamp::Fixed(-1);
    let sentence = Sentence::new_judgement(term.clone(), truth, stamp);
    let budget = Budget::Triple(bits(0.5), bits(0.75), bits(0.4));
    Task::new(sentence.clone(), budget)
}

fn check_format(format: NarseseFormat<&str>, name: &str, expected: &str) {
    println!("Test of {name}");
    let task = sample_task();
    let formatted = format_task(&format, &task);
    println!("{formatted}");
    assert_eq!(formatted, expected);
}

#[test]
fn formatter_test() {
    check_format(format_ascii(), "ascii", "$0.5;0.75;0.4$ <(&/, <{ball} --> [left]>, <(*, {SELF}, $any, #some) --> ^do>) ==> <{SELF} --> [good]>>. :!-1: %1;0.9%");
    check_format(format_latex(), "latex", r#"\$0.5;0.75;0.4\$ \left<\left(,  \left<\left\{ball\right\} \rightarrow  \left[left\right]\right>  \left<\left(\times   \left\{SELF\right\}  \$any  \#some\right) \rightarrow  \Uparrow do\right>\right) \Rightarrow  \left<\left\{SELF\right\} \rightarrow  \left[good\right]\right>\right>. t=-1 \langle1,0.9\rangle"#);
    check_format(format_han(), "漢", "预0.5、0.75、0.4算 「（接连，「『ball』是【left】」，「（积，『SELF』，任一any，其一some）是操作do」）得「『SELF』是【good】」」。发生在-1真1、0.9值");
}

#[test]
fn test_ascii() {
    let format = &format_ascii();
    println!("ASCII format: {format:#?}");
    let term = Term::new_inheritance(Term::new_word("A"), Term::new_word("B"));
    let term2 = Term::new_implication(
        Term::new_inheritance(
            Term::new_product(vec![
                Term::new_set_extension(vec![Term::new_word("SELF")]),
                Term::new_variable_independent("any"),
                Term::new_variable_dependent("some"),
            ]),
            Term::new_operator("do"),
        ),
        Term::new_inheritance(
            Term::new_set_extension(vec![Term::new_word("SELF")]),
            Term::new_set_intension(vec![Term::new_word("good")]),
        ),
    );
    println!("ASCII formatted term: {:#?}", format.format_term(&term));
    println!("ASCII formatted term: {:#?}", format.format_term(&term2));
    assert_eq!(format.format_term(&term), "<A --> B>");
}

fn parse_and_format(format: &NarseseFormat<&str>, input: &str) -> String {
    let narsese = match parse(format, input) {
        Ok(n) => n,
        Err(e) => panic!("{}", e.to_text()),
    };
    let formatted = format_result(format, &narsese);
    println!("{narsese:?}");
    println!("{formatted}");
    formatted
}

fn format_and_parse(format: &NarseseFormat<&str>, input: Task) -> EnumNarseseResult {
    let formatted = format_task(format, &input);
    let narsese = match parse(format, &formatted) {
        Ok(n) => n,
        Err(e) => panic!("{}", e.to_text()),
    };
    println!("{formatted}");
    println!("{narsese:?}");
    narsese
}

#[test]
fn mod_tests_ascii() {
    let format = format_ascii();
    parse_and_format(&format, "<(&/, <{powerup_good_front} --> [seen]>, +30000, <(*, {SELF}) --> ^right>, +30000) =/> <{SELF} --> [powered]>>. :|: %1.0;0.99%");
    parse_and_format(&format, "$$ 空预算要表示出来_空真值因为标点而无需必要. :|:");
    format_and_parse(&format, sample_task());
}

#[test]
fn mod_tests_latex() {
    let format = format_latex();
    parse_and_format(&format, r"\$0.5;0.75;0.4\$ \left<\left(,  \left<\left\{ball\right\} \rightarrow  \left[left\right]\right>  \left<\left(\times   \left\{SELF\right\}  \$any  \#some\right) \rightarrow  \Uparrow do\right>\right) \Rightarrow  \left<\left\{SELF\right\} \rightarrow  \left[good\right]\right>\right>. t=-1 \langle1,0.9\rangle");
    format_and_parse(&format, sample_task());
}

#[test]
fn mod_tests_han() {
    let format = format_han();
    parse_and_format(&format, "预0.5、0.75、0.4算「（接连，「『ball』是【left】」，「（积，『SELF』，任一any，其一some ）是操作do」）得「『SELF』是【good】」」。 发生在-1 真1、0.9值");
    parse_and_format(&format, "「我是谁」");
    format_and_parse(&format, sample_task());
}

fn parse_ok(format: &NarseseFormat<&str>, input: &str) -> EnumNarseseResult {
    match parse(format, input) {
        Ok(result) => result,
        Err(e) => panic!("{}", e.to_text()),
    }
}

fn mismatch_text(e: &KindMismatch) -> String {
    format!("{}{:?}", e.message_head(), e.value)
}

fn parse_term(format: &NarseseFormat<&str>, input: &str) {
    match Term::try_from(parse_ok(format, input)) {
        Ok(term) => println!("{term:?}"),
        Err(e) => panic!("{}", mismatch_text(&e)),
    }
}

fn parse_sentence(format: &NarseseFormat<&str>, input: &str) {
    match Sentence::try_from(parse_ok(format, input)) {
        Ok(sentence) => println!("{sentence:?}"),
        Err(e) => panic!("{}", mismatch_text(&e)),
    }
}

fn parse_task(format: &NarseseFormat<&str>, input: &str) {
    match Task::try_from(parse_ok(format, input)) {
        Ok(task) => println!("{task:?}"),
        Err(e) => panic!("{}", mismatch_text(&e)),
    }
}

fn parse_common(format: &NarseseFormat<&str>, input: &str) {
    match parse_ok(format, input) {
        NarseseResult::Term(term) => println!("[词项] {term:#?}"),
        NarseseResult::Sentence(sentence) => println!("[语句] {sentence:#?}"),
        NarseseResult::Task(task) => println!("[任务] {task:#?}"),
    }
}

#[test]
fn test_parse_atom() {
    let format = format_ascii();
    for input in ["word", "_", "$i_var", "#d_var", "?q_var", "+137", "^op"] {
        parse_term(&format, input);
    }
}

#[test]
fn test_parse_compound() {
    let format = format_ascii();
    for input in [
        "{word, w2}",
        "{{word}, {w2}}",
        "{{{{{{嵌套狂魔}}}}}}",
        "[1 , 2 , 3  , 4 ,   5 ]",
        "[_ , _ , _  , _ ,   _ ]",
        "(&, word, $i_var, #d_var, ?q_var, _, +137, ^op)",
        "(|, word, $i_var, #d_var, ?q_var, _, +137, ^op)",
        "(-, {被减的}, [减去的])",
        "(~, {[被减的]}, [{减去的}])",
        "(~, (-, 被减的被减的, {[被减的减去的]}), [{减去的}])",
        "(*, word, $i_var, #d_var, ?q_var, _, +137, ^op)",
        "(/, word, _, $i_var, #d_var, ?q_var, +137, ^op)",
        "(\\,word,$i_var,#d_var,?q_var,_,+137,^op)",
        "(/, _, 0)",
        "(\\, 0, _)",
        "( &&  , word  , $i_var  , #d_var  , ?q_var  , _  , +137  , ^op )",
        "( ||  , word  , $i_var  , #d_var  , ?q_var  , _  , +137  , ^op )",
        "( --  , 我是被否定的)",
        "( &/  , word  , $i_var  , #d_var  , ?q_var  , _  , +137  , ^op )",
        "( &|  , word  , $i_var  , #d_var  , ?q_var  , _  , +137  , ^op )",
    ] {
        parse_term(&format, input);
    }
}

#[test]
fn test_parse_statement() {
    let format = format_ascii();
    for input in [
        "<外延-->内涵>",
        "<我是右边的外延 --> 我是左边的内涵>",
        "<前提 ==> 结论>",
        "<等价物 <=> 等價物>",
        "<实例 {-- 类型>",
        "<类型 --] 属性>",
        "<实例 {-] 属性>",
        r#"<当下行动 =/> 未来预期>"#,
        r#"<当下条件 =|> 当下结论>"#,
        r#"<当下结果 =\> 过往原因>"#,
        r#"<统一前提 </> 未来等价>"#,
        r#"<统一前提 <|> 当下等价>"#,
        r#"<统一前提 <\> 过往等价>"#,
        "<[蕴含]==>{怪论}>",
        "<$我很相似 <-> #我也是>",
        "<^咱俩相同<->^咱俩相同>",
        "<+123<->加一二三>",
        "<(*, {SELF}) --> ^left>",
    ] {
        parse_term(&format, input);
    }
}

#[test]
fn test_parse_punctuation() {
    let format = format_ascii();
    for input in ["判断.", "目标!", "问题?", "请求@", "?查询变量vs问题?"] {
        parse_sentence(&format, input);
    }
}

#[test]
fn test_parse_truth() {
    let format = format_ascii();
    for input in [
        "判断. %1.0;0.9%",
        "目标! %.0;.9%",
        "问题?",
        "请求@",
        "单真值. %1.0%",
        "单真值. %00%",
        "单真值. %00.00%",
        "单真值2. %.0%",
        "空真值. %%",
        "空真值2. %",
        "空真值3.",
    ] {
        parse_sentence(&format, input);
    }
}

#[test]
fn test_parse_budget() {
    let format = format_ascii();
    for input in [
        "$0.5;0.5;0.5$ 判断. %1.0%",
        "$.7;.75;0.555$目标! %.0;.9%",
        "$1;1;1$ 问题?",
        "$0;0;0$请求@",
        "$0;0$双预算?",
        "$0$单预算@",
        "$$空预算?",
        "$$$独立变量vs空运算?",
    ] {
        parse_task(&format, input);
    }
}

#[test]
fn test_parse_stamp() {
    let format = format_ascii();
    for input in [
        "固定.:!114514:",
        "固定正.:!+137:",
        "固定负.:!-442:",
        "过去.:\\:",
        "现在? :|:",
        "未来! :/:",
        "永恒.",
    ] {
        parse_sentence(&format, input);
    }
}

#[test]
fn test_parse_stability_cases() {
    let format = format_ascii();
    for input in [
        "1. %1;1;1%",
        "$1;1;1;1$ 1.",
        "$1;1;1;1;1;1;1;1;1;1;1$ 1. %1;1;1;1;1;1;1;1;1%",
    ] {
        let _ = parse(&format, input);
    }
}

#[test]
fn test_parse_integrated() {
    let format = format_ascii();
    for input in [
        "<(&&, <<$x-->A>==><$x-->B>>, <<$y-->C>==><$y-->D>>) ==> E>.",
        "<{tim} --> (/,livingIn,_,{graz})>. %0%",
        "<<(*,$1,sunglasses) --> own> ==> <$1 --> [aggressive]>>.",
        "<(*,{tom},sunglasses) --> own>.",
        "<<$1 --> [aggressive]> ==> <$1 --> murder>>.",
        "<<$1 --> (/,livingIn,_,{graz})> ==> <$1 --> murder>>.",
        "<{?who} --> murder>?",
        "<{tim} --> (/,livingIn,_,{graz})>.",
        "<{tim} --> (/,livingIn,_,{graz})>. %0%",
        "<<(*,$1,sunglasses) --> own> ==> <$1 --> [aggressive]>>.",
        "<(*,{tom},(&,[black],glasses)) --> own>.",
        "<<$1 --> [aggressive]> ==> <$1 --> murder>>.",
        "<<$1 --> (/,livingIn,_,{graz})> ==> <$1 --> murder>>.",
        "<sunglasses --> (&,[black],glasses)>.",
        "<{?who} --> murder>?",
        "<(*,toothbrush,plastic) --> made_of>.",
        "<(&/,<(*,$1,plastic) --> made_of>,<(*,{SELF},$1) --> ^lighter>) =/> <$1 --> [heated]>>.",
        "<<$1 --> [heated]> =/> <$1 --> [melted]>>.",
        "<<$1 --> [melted]> <|> <$1 --> [pliable]>>.",
        "<(&/,<$1 --> [pliable]>,<(*,{SELF},$1) --> ^reshape>) =/> <$1 --> [hardened]>>.",
        "<<$1 --> [hardened]> =|> <$1 --> [unscrewing]>>.",
        "<toothbrush --> object>.",
        "(&&,<#1 --> object>,<#1 --> [unscrewing]>)!",
        "<{SELF} --> [hurt]>! %0%",
        "<{SELF} --> [hurt]>. :|: %0%",
        "<(&/,<(*,{SELF},wolf) --> close_to>,+1000) =/> <{SELF} --> [hurt]>>.",
        "<(*,{SELF},wolf) --> close_to>. :|:",
        "<(&|,<(*,{SELF},$1,FALSE) --> ^want>,<(*,{SELF},$1) --> ^anticipate>) =|> <(*,{SELF},$1) --> afraid_of>>.",
        "<(*,{SELF},?what) --> afraid_of>?",
        "<a --> A>. :|: %1.00;0.90%",
        "<b --> B>. :|: %1.00;0.90%",
        "<c --> C>. :|: %1.00;0.90%",
        "<a --> A>. :|: %1.00;0.90%",
        "<b --> B>. :|: %1.00;0.90%",
        "<?1 =/> <c --> C>>?",
        "<(*,cup,plastic) --> made_of>.",
        "<cup --> object>.",
        "<cup --> [bendable]>.",
        "<toothbrush --> [bendable]>.",
        "<toothbrush --> object>.",
        "<(&/,<(*,$1,plastic) --> made_of>,<(*,{SELF},$1) --> ^lighter>) =/> <$1 --> [heated]>>.",
        "<<$1 --> [heated]> =/> <$1 --> [melted]>>.",
        "<<$1 --> [melted]> <|> <$1 --> [pliable]>>.",
        "<(&/,<$1 --> [pliable]>,<(*,{SELF},$1) --> ^reshape>) =/> <$1 --> [hardened]>>.",
        "<<$1 --> [hardened]> =|> <$1 --> [unscrewing]>>.",
        "(&&,<#1 --> object>,<#1 --> [unscrewing]>)!",
    ] {
        parse_common(&format, input);
    }
}

#[test]
fn format_instances_tests() {
    let task = sample_task();
    for (label, format) in [("ASCII", format_ascii()), ("LaTeX", format_latex()), ("漢文", format_han())] {
        let sentence = &task.0;
        println!("{label} formatted term: {:#?}", format.format_term(narsese::api::GetTerm::get_term(sentence)));
        println!("{label} formatted sentence: {:#?}", format_sentence(&format, sentence));
        println!("{label} formatted task: {:#?}", format_task(&format, &task));
        assert!(!format_task(&format, &task).is_empty());
    }
    let lexical_task = narsese::lexical::Task::new(
        vec!["0.5".to_string()],
        narsese::lexical::Term::new_atom("", "A"),
        ".",
        ":|:",
        vec!["1.0".to_string(), "0.9".to_string()],
    );
    for (label, format) in [("ASCII", create_format_ascii()), ("LaTeX", create_format_latex()), ("漢文", create_format_han())] {
        let formatted = format.format_task(&lexical_task);
        println!("{label} formatted task: {formatted:#?}");
        assert!(formatted.contains('A'));
    }
}

#[test]
fn readings_past_the_end_are_cut_short() {
    let format = format_ascii();
    assert!(format.try_parse_to_mid_result("<(&, A").is_none());
    assert!(format.try_parse_to_mid_result("(&, (&, A").is_none());
    assert!(format.try_parse_to_mid_result("<A --> {B").is_none());
    assert!(format.try_parse_to_mid_result(". (--, A, (&, B").is_none());
    let open_compound = format.try_parse_to_mid_result("(&, A").unwrap().unwrap();
    assert!(open_compound.term.is_some());
    let open_set = format.try_parse_to_mid_result("{A").unwrap().unwrap();
    assert!(open_set.term.is_some());
    let missing = format.try_parse_to_mid_result(".").unwrap().unwrap_err();
    assert_eq!(missing.get_message(), "词项缺失");
    assert!(format.parse_to_mid_result("<A --> B>.").is_ok());
}

#[test]
fn results_of_another_kind_are_refused_as_they_are() {
    let format = format_ascii();
    let term = parse_ok(&format, "<A --> B>");
    let sentence = parse_ok(&format, "<A --> B>.");
    let task = parse_ok(&format, "$0.5;0.5;0.5$ <A --> B>.");
    // each conversion takes its own kind
    let t = Term::try_from(term.clone()).ok().unwrap();
    assert_eq!(format.format_term(&t), "<A --> B>");
    let s = Sentence::try_from(sentence.clone()).ok().unwrap();
    assert_eq!(format.format_term(narsese::api::GetTerm::get_term(&s)), "<A --> B>");
    assert!(Task::try_from(task.clone()).is_ok());
    // and refuses the others, naming the kind asked for and keeping the value
    let e = Term::try_from(sentence.clone()).err().unwrap();
    assert_eq!(e.expected, "词项");
    assert_eq!(e.message_head(), "类型不匹配，无法转换为词项：");
    assert!(matches!(e.value, NarseseResult::Sentence(_)));
    let e = Sentence::try_from(task.clone()).err().unwrap();
    assert_eq!(e.expected, "语句");
    assert!(matches!(e.value, NarseseResult::Task(_)));
    let e = Task::try_from(term).err().unwrap();
    assert_eq!(e.expected, "任务");
    assert!(mismatch_text(&e).starts_with("类型不匹配，无法转换为任务：Term("));
}
