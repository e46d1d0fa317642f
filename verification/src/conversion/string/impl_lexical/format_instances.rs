//! The lexical formats in use: ASCII, LaTeX and Han (Chinese characters).
use vstd::prelude::*;
use crate::conversion::string::impl_lexical::dicts::{
    no_pairs,
    bi_fix_dict_insert, bi_fixes_of, new_bi_fix_dict, new_suffix_pair_dict, new_x_fix_dict,
    suffix_pair_dict_insert, suffix_pairs_of, x_fix_dict_insert, x_fixes_of,
};
use crate::conversion::string::impl_lexical::format::{
    class_has, lexical_parse_wf, CharClass, NarseseFormat, NarseseFormatAtom, NarseseFormatCompound,
    NarseseFormatSentence, NarseseFormatSpace, NarseseFormatStatement, NarseseFormatTask,
};

verus! {

/// The characters of a class: the decimal digits and the given characters.
fn digits_and(extra: &[char]) -> (c: CharClass)
    ensures
        c == CharClass::DigitsAnd(c->DigitsAnd_0) && c->DigitsAnd_0@ == extra@,
{
    let mut v: Vec<char> = Vec::new();
    let mut i: usize = 0;
    while i < extra.len()
        invariant
            i <= extra@.len(),
            v@ == extra@.take(i as int),
        decreases extra.len() - i,
    {
        v.push(extra[i]);
        proof {
            assert(v@ =~= extra@.take(i + 1));
        }
        i += 1;
    }
    proof {
        assert(extra@.take(extra@.len() as int) =~= extra@);
    }
    CharClass::DigitsAnd(v)
}


/// The ASCII format: `<A --> B>. :|: %1.0;0.9%`.
pub fn create_format_ascii() -> (f: NarseseFormat)
    ensures
        f.space.is_for_parse == CharClass::Whitespace,
        f.space.remove_spaces_before_parse,
        f.space.format_terms@ == " "@,
        f.space.format_items@ == " "@,
        x_fixes_of(f.atom.prefixes) == set![""@, "_"@, "$"@, "#"@, "?"@, "+"@, "^"@],
        f.atom.is_identifier == CharClass::Identifier,
        bi_fixes_of(f.compound.set_brackets) == map!["{"@ => "}"@, "["@ => "]"@],
        f.compound.brackets.0@ == "("@,
        f.compound.brackets.1@ == ")"@,
        f.compound.separator@ == ","@,
        x_fixes_of(f.compound.connecters) == set!["&"@, "|"@, "-"@, "~"@, "*"@, r"/"@, r"\"@, "&&"@, "||"@, "--"@, "&/"@, "&|"@],
        f.statement.brackets.0@ == "<"@,
        f.statement.brackets.1@ == ">"@,
        x_fixes_of(f.statement.copulas) == set!["-->"@, "<->"@, "==>"@, "<=>"@, "{--"@, "--]"@, "{-]"@, r"=/>"@, r"=|>"@, r"=\>"@, r"</>"@, r"<|>"@, r"<\>"@],
        x_fixes_of(f.sentence.punctuations) == set!["."@, "!"@, "?"@, "@"@],
        suffix_pairs_of(f.sentence.stamp_brackets) == map![r":\:"@ => ""@, r":|:"@ => ""@, r":/:"@ => ""@, r":"@ => ":!"@],
        f.sentence.truth_brackets.0@ == "%"@,
        f.sentence.truth_brackets.1@ == "%"@,
        f.sentence.truth_separator@ == ";"@,
        f.sentence.is_truth_content->DigitsAnd_0@ == seq!['.', ';'],
        f.sentence.is_stamp_content->DigitsAnd_0@ == seq!['+', '-'],
        f.task.budget_brackets.0@ == "$"@,
        f.task.budget_brackets.1@ == "$"@,
        f.task.budget_separator@ == ";"@,
        f.task.is_budget_content->DigitsAnd_0@ == seq!['.', ';'],
        lexical_parse_wf(f),
{
    proof {
        reveal_strlit("");
        reveal_strlit(r":\:");
        reveal_strlit(r":|:");
        reveal_strlit(r":/:");
        reveal_strlit(":!");
        reveal_strlit(r":");
        reveal_strlit("{");
        reveal_strlit("}");
        reveal_strlit("[");
        reveal_strlit("]");
        reveal_strlit("(");
        reveal_strlit("<");
        reveal_strlit(")");
        reveal_strlit(">");
        reveal_strlit(",");
    }
    let mut dict_prefixes = new_x_fix_dict();
    x_fix_dict_insert(&mut dict_prefixes, "");
    x_fix_dict_insert(&mut dict_prefixes, "_");
    x_fix_dict_insert(&mut dict_prefixes, "$");
    x_fix_dict_insert(&mut dict_prefixes, "#");
    x_fix_dict_insert(&mut dict_prefixes, "?");
    x_fix_dict_insert(&mut dict_prefixes, "+");
    x_fix_dict_insert(&mut dict_prefixes, "^");
    let mut dict_connecters = new_x_fix_dict();
    x_fix_dict_insert(&mut dict_connecters, "&");
    x_fix_dict_insert(&mut dict_connecters, "|");
    x_fix_dict_insert(&mut dict_connecters, "-");
    x_fix_dict_insert(&mut dict_connecters, "~");
    x_fix_dict_insert(&mut dict_connecters, "*");
    x_fix_dict_insert(&mut dict_connecters, r"/");
    x_fix_dict_insert(&mut dict_connecters, r"\");
    x_fix_dict_insert(&mut dict_connecters, "&&");
    x_fix_dict_insert(&mut dict_connecters, "||");
    x_fix_dict_insert(&mut dict_connecters, "--");
    x_fix_dict_insert(&mut dict_connecters, "&/");
    x_fix_dict_insert(&mut dict_connecters, "&|");
    let mut dict_copulas = new_x_fix_dict();
    x_fix_dict_insert(&mut dict_copulas, "-->");
    x_fix_dict_insert(&mut dict_copulas, "<->");
    x_fix_dict_insert(&mut dict_copulas, "==>");
    x_fix_dict_insert(&mut dict_copulas, "<=>");
    x_fix_dict_insert(&mut dict_copulas, "{--");
    x_fix_dict_insert(&mut dict_copulas, "--]");
    x_fix_dict_insert(&mut dict_copulas, "{-]");
    x_fix_dict_insert(&mut dict_copulas, r"=/>");
    x_fix_dict_insert(&mut dict_copulas, r"=|>");
    x_fix_dict_insert(&mut dict_copulas, r"=\>");
    x_fix_dict_insert(&mut dict_copulas, r"</>");
    x_fix_dict_insert(&mut dict_copulas, r"<|>");
    x_fix_dict_insert(&mut dict_copulas, r"<\>");
    let mut dict_punctuations = new_x_fix_dict();
    x_fix_dict_insert(&mut dict_punctuations, ".");
    x_fix_dict_insert(&mut dict_punctuations, "!");
    x_fix_dict_insert(&mut dict_punctuations, "?");
    x_fix_dict_insert(&mut dict_punctuations, "@");
    let mut set_brackets = new_bi_fix_dict();
    bi_fix_dict_insert(&mut set_brackets, "{", "}");
    assert(!no_pairs().dom().contains("{"@));
    assert(bi_fixes_of(set_brackets) =~= no_pairs().insert("{"@, "}"@));
    assert("}"@ != "]"@) by {
        assert("}"@[0] != "]"@[0]);
    }
    assert(forall|p: Seq<char>| bi_fixes_of(set_brackets).dom().contains(p) ==> bi_fixes_of(set_brackets)[p] != "]"@);
    assert("{"@ != "["@) by {
        assert("{"@[0] != "["@[0]);
    }
    bi_fix_dict_insert(&mut set_brackets, "[", "]");
    assert(bi_fixes_of(set_brackets) =~= map!["{"@ => "}"@, "["@ => "]"@]);
    let mut stamp_brackets = new_suffix_pair_dict();
    assert(r":\:"@ != r":|:"@ && r":\:"@ != r":/:"@ && r":|:"@ != r":/:"@) by {
        assert(r":\:"@[1] != r":|:"@[1] && r":\:"@[1] != r":/:"@[1] && r":|:"@[1] != r":/:"@[1]);
    }
    suffix_pair_dict_insert(&mut stamp_brackets, "", r":\:");
    assert(suffix_pairs_of(stamp_brackets) =~= map![r":\:"@ => ""@]);
    suffix_pair_dict_insert(&mut stamp_brackets, "", r":|:");
    assert(suffix_pairs_of(stamp_brackets) =~= map![r":\:"@ => ""@, r":|:"@ => ""@]);
    suffix_pair_dict_insert(&mut stamp_brackets, "", r":/:");
    assert(suffix_pairs_of(stamp_brackets) =~= map![r":\:"@ => ""@, r":|:"@ => ""@, r":/:"@ => ""@]);
    assert(r":"@.len() != r":\:"@.len() && r":"@.len() != r":|:"@.len() && r":"@.len() != r":/:"@.len());
    suffix_pair_dict_insert(&mut stamp_brackets, ":!", r":");
    assert(suffix_pairs_of(stamp_brackets) =~= map![r":\:"@ => ""@, r":|:"@ => ""@, r":/:"@ => ""@, r":"@ => ":!"@]);
    let f = NarseseFormat {
        space: NarseseFormatSpace {
            is_for_parse: CharClass::Whitespace,
            remove_spaces_before_parse: true,
            format_terms: " ".to_string(),
            format_items: " ".to_string(),
        },
        atom: NarseseFormatAtom {
            prefixes: dict_prefixes,
            is_identifier: CharClass::Identifier,
        },
        compound: NarseseFormatCompound {
            set_brackets,
            brackets: ("(".to_string(), ")".to_string()),
            separator: ",".to_string(),
            connecters: dict_connecters,
        },
        statement: NarseseFormatStatement {
            brackets: ("<".to_string(), ">".to_string()),
            copulas: dict_copulas,
        },
        sentence: NarseseFormatSentence {
            punctuations: dict_punctuations,
            truth_brackets: ("%".to_string(), "%".to_string()),
            truth_separator: ";".to_string(),
            is_truth_content: digits_and(&['.', ';']),
            stamp_brackets,
            is_stamp_content: digits_and(&['+', '-']),
        },
        task: NarseseFormatTask {
            budget_brackets: ("$".to_string(), "$".to_string()),
            budget_separator: ";".to_string(),
            is_budget_content: digits_and(&['.', ';']),
        },
    };
    f
}


/// The LaTeX format.
pub fn create_format_latex() -> (f: NarseseFormat)
    ensures
        f.space.is_for_parse == CharClass::Whitespace,
        f.space.remove_spaces_before_parse,
        f.space.format_terms@ == " "@,
        f.space.format_items@ == " "@,
        x_fixes_of(f.atom.prefixes) == set![""@, r"\diamond{}"@, r"\$"@, r"\#"@, "?"@, "+"@, r"\Uparrow{}"@],
        f.atom.is_identifier == CharClass::Identifier,
        bi_fixes_of(f.compound.set_brackets) == map![r"\left\{"@ => r"\right\}"@, r"\left["@ => r"\right]"@],
        f.compound.brackets.0@ == r"\left("@,
        f.compound.brackets.1@ == r"\right)"@,
        f.compound.separator@ == r"\;"@,
        x_fixes_of(f.compound.connecters) == set![r"\cap{}"@, r"\cup{}"@, r"\minus{}"@, r"\sim{}"@, r"\times{}"@, "/"@, r"\backslash{}"@, r"\wedge{}"@, r"\vee{}"@, r"\neg{}"@, ","@, ";"@],
        f.statement.brackets.0@ == r"\left<"@,
        f.statement.brackets.1@ == r"\right>"@,
        x_fixes_of(f.statement.copulas) == set![r"\rightarrow{}"@, r"\leftrightarrow{}"@, r"\Rightarrow{}"@, r"\Leftrightarrow{}"@, r"\circ\!\!\!\rightarrow{}"@, r"\rightarrow\!\!\!\circ{}"@, r"\circ\!\!\!\rightarrow\!\!\!\circ{}"@, r"/\!\!\!\!\!\Rightarrow{}"@, r"|\!\!\!\!\!\Rightarrow{}"@, r"\backslash\!\!\!\!\!\Rightarrow{}"@, r"/\!\!\!\Leftrightarrow{}"@, r"|\!\!\!\Leftrightarrow{}"@, r"\backslash\!\!\!\Leftrightarrow{}"@],
        x_fixes_of(f.sentence.punctuations) == set!["."@, "!"@, "?"@, "¿"@],
        suffix_pairs_of(f.sentence.stamp_brackets) == map![r"\backslash\!\!\!\!\!\Rightarrow{}"@ => ""@, r"|\!\!\!\!\!\Rightarrow{}"@ => ""@, r"/\!\!\!\!\!\Rightarrow{}"@ => ""@, ""@ => "t="@],
        f.sentence.truth_brackets.0@ == r"\langle{}"@,
        f.sentence.truth_brackets.1@ == r"\rangle{}"@,
        f.sentence.truth_separator@ == ","@,
        f.sentence.is_truth_content->DigitsAnd_0@ == seq!['.', ','],
        f.sentence.is_stamp_content->DigitsAnd_0@ == seq!['+', '-'],
        f.task.budget_brackets.0@ == r"\$"@,
        f.task.budget_brackets.1@ == r"\$"@,
        f.task.budget_separator@ == ";"@,
        f.task.is_budget_content->DigitsAnd_0@ == seq!['.', ';'],
        lexical_parse_wf(f),
{
    proof {
        reveal_strlit("");
        reveal_strlit(r"\backslash\!\!\!\!\!\Rightarrow{}");
        reveal_strlit(r"|\!\!\!\!\!\Rightarrow{}");
        reveal_strlit(r"/\!\!\!\!\!\Rightarrow{}");
        reveal_strlit("t=");
        reveal_strlit(r"\left\{");
        reveal_strlit(r"\right\}");
        reveal_strlit(r"\left[");
        reveal_strlit(r"\right]");
        reveal_strlit(r"\left(");
        reveal_strlit(r"\left<");
        reveal_strlit(r"\right)");
        reveal_strlit(r"\right>");
        reveal_strlit(r"\;");
    }
    let mut dict_prefixes = new_x_fix_dict();
    x_fix_dict_insert(&mut dict_prefixes, "");
    x_fix_dict_insert(&mut dict_prefixes, r"\diamond{}");
    x_fix_dict_insert(&mut dict_prefixes, r"\$");
    x_fix_dict_insert(&mut dict_prefixes, r"\#");
    x_fix_dict_insert(&mut dict_prefixes, "?");
    x_fix_dict_insert(&mut dict_prefixes, "+");
    x_fix_dict_insert(&mut dict_prefixes, r"\Uparrow{}");
    let mut dict_connecters = new_x_fix_dict();
    x_fix_dict_insert(&mut dict_connecters, r"\cap{}");
    x_fix_dict_insert(&mut dict_connecters, r"\cup{}");
    x_fix_dict_insert(&mut dict_connecters, r"\minus{}");
    x_fix_dict_insert(&mut dict_connecters, r"\sim{}");
    x_fix_dict_insert(&mut dict_connecters, r"\times{}");
    x_fix_dict_insert(&mut dict_connecters, "/");
    x_fix_dict_insert(&mut dict_connecters, r"\backslash{}");
    x_fix_dict_insert(&mut dict_connecters, r"\wedge{}");
    x_fix_dict_insert(&mut dict_connecters, r"\vee{}");
    x_fix_dict_insert(&mut dict_connecters, r"\neg{}");
    x_fix_dict_insert(&mut dict_connecters, ",");
    x_fix_dict_insert(&mut dict_connecters, ";");
    let mut dict_copulas = new_x_fix_dict();
    x_fix_dict_insert(&mut dict_copulas, r"\rightarrow{}");
    x_fix_dict_insert(&mut dict_copulas, r"\leftrightarrow{}");
    x_fix_dict_insert(&mut dict_copulas, r"\Rightarrow{}");
    x_fix_dict_insert(&mut dict_copulas, r"\Leftrightarrow{}");
    x_fix_dict_insert(&mut dict_copulas, r"\circ\!\!\!\rightarrow{}");
    x_fix_dict_insert(&mut dict_copulas, r"\rightarrow\!\!\!\circ{}");
    x_fix_dict_insert(&mut dict_copulas, r"\circ\!\!\!\rightarrow\!\!\!\circ{}");
    x_fix_dict_insert(&mut dict_copulas, r"/\!\!\!\!\!\Rightarrow{}");
    x_fix_dict_insert(&mut dict_copulas, r"|\!\!\!\!\!\Rightarrow{}");
    x_fix_dict_insert(&mut dict_copulas, r"\backslash\!\!\!\!\!\Rightarrow{}");
    x_fix_dict_insert(&mut dict_copulas, r"/\!\!\!\Leftrightarrow{}");
    x_fix_dict_insert(&mut dict_copulas, r"|\!\!\!\Leftrightarrow{}");
    x_fix_dict_insert(&mut dict_copulas, r"\backslash\!\!\!\Leftrightarrow{}");
    let mut dict_punctuations = new_x_fix_dict();
    x_fix_dict_insert(&mut dict_punctuations, ".");
    x_fix_dict_insert(&mut dict_punctuations, "!");
    x_fix_dict_insert(&mut dict_punctuations, "?");
    x_fix_dict_insert(&mut dict_punctuations, "¿");
    let mut set_brackets = new_bi_fix_dict();
    bi_fix_dict_insert(&mut set_brackets, r"\left\{", r"\right\}");
    assert(!no_pairs().dom().contains(r"\left\{"@));
    assert(bi_fixes_of(set_brackets) =~= no_pairs().insert(r"\left\{"@, r"\right\}"@));
    assert(r"\right\}"@ != r"\right]"@) by {
        assert(r"\right\}"@[6] != r"\right]"@[6]);
    }
    assert(forall|p: Seq<char>| bi_fixes_of(set_brackets).dom().contains(p) ==> bi_fixes_of(set_brackets)[p] != r"\right]"@);
    assert(r"\left\{"@ != r"\left["@) by {
        assert(r"\left\{"@[5] != r"\left["@[5]);
    }
    bi_fix_dict_insert(&mut set_brackets, r"\left[", r"\right]");
    assert(bi_fixes_of(set_brackets) =~= map![r"\left\{"@ => r"\right\}"@, r"\left["@ => r"\right]"@]);
    let mut stamp_brackets = new_suffix_pair_dict();
    assert(r"\backslash\!\!\!\!\!\Rightarrow{}"@[0] != r"|\!\!\!\!\!\Rightarrow{}"@[0]);
    assert(r"\backslash\!\!\!\!\!\Rightarrow{}"@[0] != r"/\!\!\!\!\!\Rightarrow{}"@[0]);
    assert(r"|\!\!\!\!\!\Rightarrow{}"@[0] != r"/\!\!\!\!\!\Rightarrow{}"@[0]);
    suffix_pair_dict_insert(&mut stamp_brackets, "", r"\backslash\!\!\!\!\!\Rightarrow{}");
    suffix_pair_dict_insert(&mut stamp_brackets, "", r"|\!\!\!\!\!\Rightarrow{}");
    suffix_pair_dict_insert(&mut stamp_brackets, "", r"/\!\!\!\!\!\Rightarrow{}");
    assert(""@.len() != r"\backslash\!\!\!\!\!\Rightarrow{}"@.len() && ""@.len() != r"|\!\!\!\!\!\Rightarrow{}"@.len() && ""@.len() != r"/\!\!\!\!\!\Rightarrow{}"@.len());
    suffix_pair_dict_insert(&mut stamp_brackets, "t=", "");
    assert(suffix_pairs_of(stamp_brackets) =~= map![r"\backslash\!\!\!\!\!\Rightarrow{}"@ => ""@, r"|\!\!\!\!\!\Rightarrow{}"@ => ""@, r"/\!\!\!\!\!\Rightarrow{}"@ => ""@, ""@ => "t="@]);
    let f = NarseseFormat {
        space: NarseseFormatSpace {
            is_for_parse: CharClass::Whitespace,
            remove_spaces_before_parse: true,
            format_terms: " ".to_string(),
            format_items: " ".to_string(),
        },
        atom: NarseseFormatAtom {
            prefixes: dict_prefixes,
            is_identifier: CharClass::Identifier,
        },
        compound: NarseseFormatCompound {
            set_brackets,
            brackets: (r"\left(".to_string(), r"\right)".to_string()),
            separator: r"\;".to_string(),
            connecters: dict_connecters,
        },
        statement: NarseseFormatStatement {
            brackets: (r"\left<".to_string(), r"\right>".to_string()),
            copulas: dict_copulas,
        },
        sentence: NarseseFormatSentence {
            punctuations: dict_punctuations,
            truth_brackets: (r"\langle{}".to_string(), r"\rangle{}".to_string()),
            truth_separator: ",".to_string(),
            is_truth_content: digits_and(&['.', ',']),
            stamp_brackets,
            is_stamp_content: digits_and(&['+', '-']),
        },
        task: NarseseFormatTask {
            budget_brackets: (r"\$".to_string(), r"\$".to_string()),
            budget_separator: ";".to_string(),
            is_budget_content: digits_and(&['.', ';']),
        },
    };
    f
}


/// The Han format, in Chinese characters: `「A是B」。`.
pub fn create_format_han() -> (f: NarseseFormat)
    ensures
        f.space.is_for_parse == CharClass::Whitespace,
        f.space.remove_spaces_before_parse,
        f.space.format_terms@ == ""@,
        f.space.format_items@ == " "@,
        x_fixes_of(f.atom.prefixes) == set![""@, "某"@, "任一"@, "其一"@, "所问"@, "间隔"@, "操作"@],
        f.atom.is_identifier == CharClass::Identifier,
        bi_fixes_of(f.compound.set_brackets) == map!["『"@ => "』"@, "【"@ => "】"@],
        f.compound.brackets.0@ == "（"@,
        f.compound.brackets.1@ == "）"@,
        f.compound.separator@ == "，"@,
        x_fixes_of(f.compound.connecters) == set!["外交"@, "内交"@, "外差"@, "内差"@, "积"@, "外像"@, "内像"@, "与"@, "或"@, "非"@, "接连"@, "同时"@],
        f.statement.brackets.0@ == "「"@,
        f.statement.brackets.1@ == "」"@,
        x_fixes_of(f.statement.copulas) == set!["是"@, "似"@, "得"@, "同"@, "为"@, "有"@, "具有"@, "将得"@, "现得"@, "曾得"@, "将同"@, "现同"@, "曾同"@],
        x_fixes_of(f.sentence.punctuations) == set!["。"@, "！"@, "？"@, "；"@],
        suffix_pairs_of(f.sentence.stamp_brackets) == map!["过去"@ => ""@, "现在"@ => ""@, "将来"@ => ""@, ""@ => "发生在"@],
        f.sentence.truth_brackets.0@ == "真"@,
        f.sentence.truth_brackets.1@ == "值"@,
        f.sentence.truth_separator@ == "、"@,
        f.sentence.is_truth_content->DigitsAnd_0@ == seq!['.', '、'],
        f.sentence.is_stamp_content->DigitsAnd_0@ == seq!['+', '-'],
        f.task.budget_brackets.0@ == "预"@,
        f.task.budget_brackets.1@ == "算"@,
        f.task.budget_separator@ == "、"@,
        f.task.is_budget_content->DigitsAnd_0@ == seq!['.', '、'],
        lexical_parse_wf(f),
{
    proof {
        reveal_strlit("");
        reveal_strlit("过去");
        reveal_strlit("现在");
        reveal_strlit("将来");
        reveal_strlit("发生在");
        reveal_strlit("『");
        reveal_strlit("』");
        reveal_strlit("【");
        reveal_strlit("】");
        reveal_strlit("（");
        reveal_strlit("「");
        reveal_strlit("）");
        reveal_strlit("」");
        reveal_strlit("，");
    }
    let mut dict_prefixes = new_x_fix_dict();
    x_fix_dict_insert(&mut dict_prefixes, "");
    x_fix_dict_insert(&mut dict_prefixes, "某");
    x_fix_dict_insert(&mut dict_prefixes, "任一");
    x_fix_dict_insert(&mut dict_prefixes, "其一");
    x_fix_dict_insert(&mut dict_prefixes, "所问");
    x_fix_dict_insert(&mut dict_prefixes, "间隔");
    x_fix_dict_insert(&mut dict_prefixes, "操作");
    let mut dict_connecters = new_x_fix_dict();
    x_fix_dict_insert(&mut dict_connecters, "外交");
    x_fix_dict_insert(&mut dict_connecters, "内交");
    x_fix_dict_insert(&mut dict_connecters, "外差");
    x_fix_dict_insert(&mut dict_connecters, "内差");
    x_fix_dict_insert(&mut dict_connecters, "积");
    x_fix_dict_insert(&mut dict_connecters, "外像");
    x_fix_dict_insert(&mut dict_connecters, "内像");
    x_fix_dict_insert(&mut dict_connecters, "与");
    x_fix_dict_insert(&mut dict_connecters, "或");
    x_fix_dict_insert(&mut dict_connecters, "非");
    x_fix_dict_insert(&mut dict_connecters, "接连");
    x_fix_dict_insert(&mut dict_connecters, "同时");
    let mut dict_copulas = new_x_fix_dict();
    x_fix_dict_insert(&mut dict_copulas, "是");
    x_fix_dict_insert(&mut dict_copulas, "似");
    x_fix_dict_insert(&mut dict_copulas, "得");
    x_fix_dict_insert(&mut dict_copulas, "同");
    x_fix_dict_insert(&mut dict_copulas, "为");
    x_fix_dict_insert(&mut dict_copulas, "有");
    x_fix_dict_insert(&mut dict_copulas, "具有");
    x_fix_dict_insert(&mut dict_copulas, "将得");
    x_fix_dict_insert(&mut dict_copulas, "现得");
    x_fix_dict_insert(&mut dict_copulas, "曾得");
    x_fix_dict_insert(&mut dict_copulas, "将同");
    x_fix_dict_insert(&mut dict_copulas, "现同");
    x_fix_dict_insert(&mut dict_copulas, "曾同");
    let mut dict_punctuations = new_x_fix_dict();
    x_fix_dict_insert(&mut dict_punctuations, "。");
    x_fix_dict_insert(&mut dict_punctuations, "！");
    x_fix_dict_insert(&mut dict_punctuations, "？");
    x_fix_dict_insert(&mut dict_punctuations, "；");
    let mut set_brackets = new_bi_fix_dict();
    bi_fix_dict_insert(&mut set_brackets, "『", "』");
    assert(!no_pairs().dom().contains("『"@));
    assert(bi_fixes_of(set_brackets) =~= no_pairs().insert("『"@, "』"@));
    assert("』"@ != "】"@) by {
        assert("』"@[0] != "】"@[0]);
    }
    assert(forall|p: Seq<char>| bi_fixes_of(set_brackets).dom().contains(p) ==> bi_fixes_of(set_brackets)[p] != "】"@);
    assert("『"@ != "【"@) by {
        assert("『"@[0] != "【"@[0]);
    }
    bi_fix_dict_insert(&mut set_brackets, "【", "】");
    assert(bi_fixes_of(set_brackets) =~= map!["『"@ => "』"@, "【"@ => "】"@]);
    let mut stamp_brackets = new_suffix_pair_dict();
    assert("过去"@[0] != "现在"@[0] && "过去"@[0] != "将来"@[0] && "现在"@[0] != "将来"@[0]);
    suffix_pair_dict_insert(&mut stamp_brackets, "", "过去");
    suffix_pair_dict_insert(&mut stamp_brackets, "", "现在");
    suffix_pair_dict_insert(&mut stamp_brackets, "", "将来");
    assert(""@.len() != "过去"@.len() && ""@.len() != "现在"@.len() && ""@.len() != "将来"@.len());
    suffix_pair_dict_insert(&mut stamp_brackets, "发生在", "");
    assert(suffix_pairs_of(stamp_brackets) =~= map!["过去"@ => ""@, "现在"@ => ""@, "将来"@ => ""@, ""@ => "发生在"@]);
    let f = NarseseFormat {
        space: NarseseFormatSpace {
            is_for_parse: CharClass::Whitespace,
            remove_spaces_before_parse: true,
            format_terms: "".to_string(),
            format_items: " ".to_string(),
        },
        atom: NarseseFormatAtom {
            prefixes: dict_prefixes,
            is_identifier: CharClass::Identifier,
        },
        compound: NarseseFormatCompound {
            set_brackets,
            brackets: ("（".to_string(), "）".to_string()),
            separator: "，".to_string(),
            connecters: dict_connecters,
        },
        statement: NarseseFormatStatement {
            brackets: ("「".to_string(), "」".to_string()),
            copulas: dict_copulas,
        },
        sentence: NarseseFormatSentence {
            punctuations: dict_punctuations,
            truth_brackets: ("真".to_string(), "值".to_string()),
            truth_separator: "、".to_string(),
            is_truth_content: digits_and(&['.', '、']),
            stamp_brackets,
            is_stamp_content: digits_and(&['+', '-']),
        },
        task: NarseseFormatTask {
            budget_brackets: ("预".to_string(), "算".to_string()),
            budget_separator: "、".to_string(),
            is_budget_content: digits_and(&['.', '、']),
        },
    };
    f
}

} // verus!
