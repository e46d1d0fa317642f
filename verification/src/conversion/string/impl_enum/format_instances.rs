//! The formats of enum Narsese in use: ASCII, LaTeX and Han (Chinese characters).
use vstd::prelude::*;
use crate::conversion::string::impl_enum::parser::parse_wf;
use crate::conversion::string::impl_enum::format::{
    NarseseFormat, NarseseFormatAtom, NarseseFormatCompound, NarseseFormatSentence,
    NarseseFormatSpace, NarseseFormatStatement, NarseseFormatTask,
};

verus! {

/// The ASCII format: `<A --> B>. :|: %1.0;0.9%`.
pub fn format_ascii() -> (f: NarseseFormat<&'static str>)
    ensures
        parse_wf(f),
        f.space.parse@ == " "@,
        f.space.format_terms@ == " "@,
        f.space.format_items@ == " "@,
        f.atom.prefix_word@ == ""@,
        f.atom.prefix_placeholder@ == "_"@,
        f.atom.prefix_variable_independent@ == "$"@,
        f.atom.prefix_variable_dependent@ == "#"@,
        f.atom.prefix_variable_query@ == "?"@,
        f.atom.prefix_interval@ == "+"@,
        f.atom.prefix_operator@ == "^"@,
        f.compound.brackets.0@ == "("@,
        f.compound.brackets.1@ == ")"@,
        f.compound.separator@ == ","@,
        f.compound.brackets_set_extension.0@ == "{"@,
        f.compound.brackets_set_extension.1@ == "}"@,
        f.compound.brackets_set_intension.0@ == "["@,
        f.compound.brackets_set_intension.1@ == "]"@,
        f.compound.connecter_intersection_extension@ == "&"@,
        f.compound.connecter_intersection_intension@ == "|"@,
        f.compound.connecter_difference_extension@ == "-"@,
        f.compound.connecter_difference_intension@ == "~"@,
        f.compound.connecter_product@ == "*"@,
        f.compound.connecter_image_extension@ == "/"@,
        f.compound.connecter_image_intension@ == r"\"@,
        f.compound.connecter_conjunction@ == "&&"@,
        f.compound.connecter_disjunction@ == "||"@,
        f.compound.connecter_negation@ == "--"@,
        f.compound.connecter_conjunction_sequential@ == "&/"@,
        f.compound.connecter_conjunction_parallel@ == "&|"@,
        f.statement.brackets.0@ == "<"@,
        f.statement.brackets.1@ == ">"@,
        f.statement.copula_inheritance@ == "-->"@,
        f.statement.copula_similarity@ == "<->"@,
        f.statement.copula_implication@ == "==>"@,
        f.statement.copula_equivalence@ == "<=>"@,
        f.statement.copula_instance@ == "{--"@,
        f.statement.copula_property@ == "--]"@,
        f.statement.copula_instance_property@ == "{-]"@,
        f.statement.copula_implication_predictive@ == "=/>"@,
        f.statement.copula_implication_concurrent@ == "=|>"@,
        f.statement.copula_implication_retrospective@ == r"=\>"@,
        f.statement.copula_equivalence_predictive@ == "</>"@,
        f.statement.copula_equivalence_concurrent@ == "<|>"@,
        f.statement.copula_equivalence_retrospective@ == r"<\>"@,
        f.sentence.punctuation_judgement@ == "."@,
        f.sentence.punctuation_goal@ == "!"@,
        f.sentence.punctuation_question@ == "?"@,
        f.sentence.punctuation_quest@ == "@"@,
        f.sentence.stamp_brackets.0@ == ":"@,
        f.sentence.stamp_brackets.1@ == ":"@,
        f.sentence.stamp_past@ == r"\"@,
        f.sentence.stamp_present@ == "|"@,
        f.sentence.stamp_future@ == "/"@,
        f.sentence.stamp_fixed@ == "!"@,
        f.sentence.truth_brackets.0@ == "%"@,
        f.sentence.truth_brackets.1@ == "%"@,
        f.sentence.truth_separator@ == ";"@,
        f.task.budget_brackets.0@ == "$"@,
        f.task.budget_brackets.1@ == "$"@,
        f.task.budget_separator@ == ";"@,
{
    proof {
        reveal_strlit(" ");
        reveal_strlit(",");
        reveal_strlit("(");
        reveal_strlit("{");
        reveal_strlit("[");
        reveal_strlit("<");
        reveal_strlit("_");
        reveal_strlit(";");
    }
    NarseseFormat {
        space: NarseseFormatSpace {
            parse: " ",
            format_terms: " ",
            format_items: " ",
        },
        atom: NarseseFormatAtom {
            prefix_word: "",
            prefix_placeholder: "_",
            prefix_variable_independent: "$",
            prefix_variable_dependent: "#",
            prefix_variable_query: "?",
            prefix_interval: "+",
            prefix_operator: "^",
        },
        compound: NarseseFormatCompound {
            brackets: ("(", ")"),
            separator: ",",
            brackets_set_extension: ("{", "}"),
            brackets_set_intension: ("[", "]"),
            connecter_intersection_extension: "&",
            connecter_intersection_intension: "|",
            connecter_difference_extension: "-",
            connecter_difference_intension: "~",
            connecter_product: "*",
            connecter_image_extension: "/",
            connecter_image_intension: r"\",
            connecter_conjunction: "&&",
            connecter_disjunction: "||",
            connecter_negation: "--",
            connecter_conjunction_sequential: "&/",
            connecter_conjunction_parallel: "&|",
        },
        statement: NarseseFormatStatement {
            brackets: ("<", ">"),
            copula_inheritance: "-->",
            copula_similarity: "<->",
            copula_implication: "==>",
            copula_equivalence: "<=>",
            copula_instance: "{--",
            copula_property: "--]",
            copula_instance_property: "{-]",
            copula_implication_predictive: "=/>",
            copula_implication_concurrent: "=|>",
            copula_implication_retrospective: r"=\>",
            copula_equivalence_predictive: "</>",
            copula_equivalence_concurrent: "<|>",
            copula_equivalence_retrospective: r"<\>",
        },
        sentence: NarseseFormatSentence {
            punctuation_judgement: ".",
            punctuation_goal: "!",
            punctuation_question: "?",
            punctuation_quest: "@",
            stamp_brackets: (":", ":"),
            stamp_past: r"\",
            stamp_present: "|",
            stamp_future: "/",
            stamp_fixed: "!",
            truth_brackets: ("%", "%"),
            truth_separator: ";",
        },
        task: NarseseFormatTask {
            budget_brackets: ("$", "$"),
            budget_separator: ";",
        },

    }
}

/// The LaTeX format.
pub fn format_latex() -> (f: NarseseFormat<&'static str>)
    ensures
        parse_wf(f),
        f.space.parse@ == " "@,
        f.space.format_terms@ == " "@,
        f.space.format_items@ == " "@,
        f.atom.prefix_word@ == ""@,
        f.atom.prefix_variable_independent@ == r"\$"@,
        f.atom.prefix_variable_dependent@ == r"\#"@,
        f.atom.prefix_variable_query@ == "?"@,
        f.atom.prefix_interval@ == "+"@,
        f.atom.prefix_operator@ == r"\Uparrow "@,
        f.atom.prefix_placeholder@ == r"\diamond "@,
        f.compound.brackets.0@ == r"\left("@,
        f.compound.brackets.1@ == r"\right)"@,
        f.compound.separator@ == " "@,
        f.compound.brackets_set_extension.0@ == r"\left\{"@,
        f.compound.brackets_set_extension.1@ == r"\right\}"@,
        f.compound.brackets_set_intension.0@ == r"\left["@,
        f.compound.brackets_set_intension.1@ == r"\right]"@,
        f.compound.connecter_intersection_extension@ == r"\cap "@,
        f.compound.connecter_intersection_intension@ == r"\cup "@,
        f.compound.connecter_difference_extension@ == r"\minus "@,
        f.compound.connecter_difference_intension@ == r"\sim "@,
        f.compound.connecter_product@ == r"\times "@,
        f.compound.connecter_image_extension@ == "/"@,
        f.compound.connecter_image_intension@ == r"\backslash "@,
        f.compound.connecter_conjunction@ == r"\wedge "@,
        f.compound.connecter_disjunction@ == r"\vee "@,
        f.compound.connecter_negation@ == r"\neg "@,
        f.compound.connecter_conjunction_sequential@ == ","@,
        f.compound.connecter_conjunction_parallel@ == ";"@,
        f.statement.brackets.0@ == r"\left<"@,
        f.statement.brackets.1@ == r"\right>"@,
        f.statement.copula_inheritance@ == r"\rightarrow "@,
        f.statement.copula_similarity@ == r"\leftrightarrow "@,
        f.statement.copula_implication@ == r"\Rightarrow "@,
        f.statement.copula_equivalence@ == r"\Leftrightarrow "@,
        f.statement.copula_instance@ == r"\circ\!\!\!\rightarrow  "@,
        f.statement.copula_property@ == r"\rightarrow\!\!\!\circ  "@,
        f.statement.copula_instance_property@ == r"\circ\!\!\!\rightarrow\!\!\!\circ  "@,
        f.statement.copula_implication_predictive@ == r"/\!\!\!\Rightarrow "@,
        f.statement.copula_implication_concurrent@ == r"|\!\!\!\Rightarrow "@,
        f.statement.copula_implication_retrospective@ == r"\backslash\!\!\!\Rightarrow "@,
        f.statement.copula_equivalence_predictive@ == r"/\!\!\!\Leftrightarrow "@,
        f.statement.copula_equivalence_concurrent@ == r"|\!\!\!\Leftrightarrow "@,
        f.statement.copula_equivalence_retrospective@ == r"\backslash\!\!\!\Leftrightarrow "@,
        f.sentence.punctuation_judgement@ == "."@,
        f.sentence.punctuation_goal@ == "!"@,
        f.sentence.punctuation_question@ == "?"@,
        f.sentence.punctuation_quest@ == "¿"@,
        f.sentence.stamp_brackets.0@ == ""@,
        f.sentence.stamp_brackets.1@ == ""@,
        f.sentence.stamp_past@ == r"\backslash\!\!\!\Rightarrow"@,
        f.sentence.stamp_present@ == r"|\!\!\!\Rightarrow"@,
        f.sentence.stamp_future@ == r"/\!\!\!\Rightarrow"@,
        f.sentence.stamp_fixed@ == "t="@,
        f.sentence.truth_brackets.0@ == r"\langle"@,
        f.sentence.truth_brackets.1@ == r"\rangle"@,
        f.sentence.truth_separator@ == ","@,
        f.task.budget_brackets.0@ == r"\$"@,
        f.task.budget_brackets.1@ == r"\$"@,
        f.task.budget_separator@ == ";"@,
{
    proof {
        reveal_strlit(" ");
        reveal_strlit(r"\left(");
        reveal_strlit(r"\left\{");
        reveal_strlit(r"\left[");
        reveal_strlit(r"\left<");
        reveal_strlit(r"\diamond ");
        reveal_strlit(",");
        reveal_strlit(";");
    }
    NarseseFormat {
        space: NarseseFormatSpace {
            parse: " ",
            format_terms: " ",
            format_items: " ",
        },
        atom: NarseseFormatAtom {
            prefix_word: "",
            prefix_variable_independent: r"\$",
            prefix_variable_dependent: r"\#",
            prefix_variable_query: "?",
            prefix_interval: "+",
            prefix_operator: r"\Uparrow ",
            prefix_placeholder: r"\diamond ",
        },
        compound: NarseseFormatCompound {
            brackets: (r"\left(", r"\right)"),
            separator: " ",
            brackets_set_extension: (r"\left\{", r"\right\}"),
            brackets_set_intension: (r"\left[", r"\right]"),
            connecter_intersection_extension: r"\cap ",
            connecter_intersection_intension: r"\cup ",
            connecter_difference_extension: r"\minus ",
            connecter_difference_intension: r"\sim ",
            connecter_product: r"\times ",
            connecter_image_extension: "/",
            connecter_image_intension: r"\backslash ",
            connecter_conjunction: r"\wedge ",
            connecter_disjunction: r"\vee ",
            connecter_negation: r"\neg ",
            connecter_conjunction_sequential: ",",
            connecter_conjunction_parallel: ";",
        },
        statement: NarseseFormatStatement {
            brackets: (r"\left<", r"\right>"),
            copula_inheritance: r"\rightarrow ",
            copula_similarity: r"\leftrightarrow ",
            copula_implication: r"\Rightarrow ",
            copula_equivalence: r"\Leftrightarrow ",
            copula_instance: r"\circ\!\!\!\rightarrow  ",
            copula_property: r"\rightarrow\!\!\!\circ  ",
            copula_instance_property: r"\circ\!\!\!\rightarrow\!\!\!\circ  ",
            copula_implication_predictive: r"/\!\!\!\Rightarrow ",
            copula_implication_concurrent: r"|\!\!\!\Rightarrow ",
            copula_implication_retrospective: r"\backslash\!\!\!\Rightarrow ",
            copula_equivalence_predictive: r"/\!\!\!\Leftrightarrow ",
            copula_equivalence_concurrent: r"|\!\!\!\Leftrightarrow ",
            copula_equivalence_retrospective: r"\backslash\!\!\!\Leftrightarrow ",
        },
        sentence: NarseseFormatSentence {
            punctuation_judgement: ".",
            punctuation_goal: "!",
            punctuation_question: "?",
            punctuation_quest: "¿",
            stamp_brackets: ("", ""),
            stamp_past: r"\backslash\!\!\!\Rightarrow",
            stamp_present: r"|\!\!\!\Rightarrow",
            stamp_future: r"/\!\!\!\Rightarrow",
            stamp_fixed: "t=",
            truth_brackets: (r"\langle", r"\rangle"),
            truth_separator: ",",
        },
        task: NarseseFormatTask {
            budget_brackets: (r"\$", r"\$"),
            budget_separator: ";",
        },
    }
}

/// The Han format, in Chinese characters: `「A是B」。`.
pub fn format_han() -> (f: NarseseFormat<&'static str>)
    ensures
        parse_wf(f),
        f.space.parse@ == " "@,
        f.space.format_terms@ == ""@,
        f.space.format_items@ == " "@,
        f.atom.prefix_word@ == ""@,
        f.atom.prefix_placeholder@ == "某"@,
        f.atom.prefix_variable_independent@ == "任一"@,
        f.atom.prefix_variable_dependent@ == "其一"@,
        f.atom.prefix_variable_query@ == "所问"@,
        f.atom.prefix_interval@ == "间隔"@,
        f.atom.prefix_operator@ == "操作"@,
        f.compound.brackets.0@ == "（"@,
        f.compound.brackets.1@ == "）"@,
        f.compound.separator@ == "，"@,
        f.compound.brackets_set_extension.0@ == "『"@,
        f.compound.brackets_set_extension.1@ == "』"@,
        f.compound.brackets_set_intension.0@ == "【"@,
        f.compound.brackets_set_intension.1@ == "】"@,
        f.compound.connecter_intersection_extension@ == "外交"@,
        f.compound.connecter_intersection_intension@ == "内交"@,
        f.compound.connecter_difference_extension@ == "外差"@,
        f.compound.connecter_difference_intension@ == "内差"@,
        f.compound.connecter_product@ == "积"@,
        f.compound.connecter_image_extension@ == "外像"@,
        f.compound.connecter_image_intension@ == "内像"@,
        f.compound.connecter_conjunction@ == "与"@,
        f.compound.connecter_disjunction@ == "或"@,
        f.compound.connecter_negation@ == "非"@,
        f.compound.connecter_conjunction_sequential@ == "接连"@,
        f.compound.connecter_conjunction_parallel@ == "同时"@,
        f.statement.brackets.0@ == "「"@,
        f.statement.brackets.1@ == "」"@,
        f.statement.copula_inheritance@ == "是"@,
        f.statement.copula_similarity@ == "似"@,
        f.statement.copula_implication@ == "得"@,
        f.statement.copula_equivalence@ == "同"@,
        f.statement.copula_instance@ == "为"@,
        f.statement.copula_property@ == "有"@,
        f.statement.copula_instance_property@ == "具有"@,
        f.statement.copula_implication_predictive@ == "将得"@,
        f.statement.copula_implication_concurrent@ == "现得"@,
        f.statement.copula_implication_retrospective@ == "曾得"@,
        f.statement.copula_equivalence_predictive@ == "将同"@,
        f.statement.copula_equivalence_concurrent@ == "现同"@,
        f.statement.copula_equivalence_retrospective@ == "曾同"@,
        f.sentence.punctuation_judgement@ == "。"@,
        f.sentence.punctuation_goal@ == "！"@,
        f.sentence.punctuation_question@ == "？"@,
        f.sentence.punctuation_quest@ == "；"@,
        f.sentence.stamp_brackets.0@ == ""@,
        f.sentence.stamp_brackets.1@ == ""@,
        f.sentence.stamp_past@ == "过去"@,
        f.sentence.stamp_present@ == "现在"@,
        f.sentence.stamp_future@ == "将来"@,
        f.sentence.stamp_fixed@ == "发生在"@,
        f.sentence.truth_brackets.0@ == "真"@,
        f.sentence.truth_brackets.1@ == "值"@,
        f.sentence.truth_separator@ == "、"@,
        f.task.budget_brackets.0@ == "预"@,
        f.task.budget_brackets.1@ == "算"@,
        f.task.budget_separator@ == "、"@,
{
    proof {
        reveal_strlit(" ");
        reveal_strlit("，");
        reveal_strlit("（");
        reveal_strlit("『");
        reveal_strlit("【");
        reveal_strlit("「");
        reveal_strlit("某");
        reveal_strlit("、");
    }
    NarseseFormat {
        space: NarseseFormatSpace {
            parse: " ",
            format_terms: "",
            format_items: " ",
        },
        atom: NarseseFormatAtom {
            prefix_word: "",
            prefix_placeholder: "某",
            prefix_variable_independent: "任一",
            prefix_variable_dependent: "其一",
            prefix_variable_query: "所问",
            prefix_interval: "间隔",
            prefix_operator: "操作",
        },
        compound: NarseseFormatCompound {
            brackets: ("（", "）"),
            separator: "，",
            brackets_set_extension: ("『", "』"),
            brackets_set_intension: ("【", "】"),
            connecter_intersection_extension: "外交",
            connecter_intersection_intension: "内交",
            connecter_difference_extension: "外差",
            connecter_difference_intension: "内差",
            connecter_product: "积",
            connecter_image_extension: "外像",
            connecter_image_intension: "内像",
            connecter_conjunction: "与",
            connecter_disjunction: "或",
            connecter_negation: "非",
            connecter_conjunction_sequential: "接连",
            connecter_conjunction_parallel: "同时",
        },
        statement: NarseseFormatStatement {
            brackets: ("「", "」"),
            copula_inheritance: "是",
            copula_similarity: "似",
            copula_implication: "得",
            copula_equivalence: "同",
            copula_instance: "为",
            copula_property: "有",
            copula_instance_property: "具有",
            copula_implication_predictive: "将得",
            copula_implication_concurrent: "现得",
            copula_implication_retrospective: "曾得",
            copula_equivalence_predictive: "将同",
            copula_equivalence_concurrent: "现同",
            copula_equivalence_retrospective: "曾同",
        },
        sentence: NarseseFormatSentence {
            punctuation_judgement: "。",
            punctuation_goal: "！",
            punctuation_question: "？",
            punctuation_quest: "；",
            stamp_brackets: ("", ""),
            stamp_past: "过去",
            stamp_present: "现在",
            stamp_future: "将来",
            stamp_fixed: "发生在",
            truth_brackets: ("真", "值"),
            truth_separator: "、",
        },
        task: NarseseFormatTask {
            budget_brackets: ("预", "算"),
            budget_separator: "、",
        },

    }
}

} // verus!
