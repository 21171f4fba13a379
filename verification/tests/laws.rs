use prognosis::adapter::http::pop_sse_data;
use prognosis::app::diff::unified_diff;
use prognosis::app::edit::single_find_and_replace;
use prognosis::app::rules::{create_rule_block, sanitize_rule_name, switch, RuleSpec};
use prognosis::app::tool_specs::{missing_required_argument, required_parameters, DEFAULT_TOOLS};
use prognosis::frontend::input::{backspace, insert_char};
use prognosis::frontend::state::InputState;
use prognosis::json::Json;
use prognosis::order::sort_names;
use prognosis::text::{
    is_before, joined, number_text, parse_unsigned, pieces, trimmed, words_of,
};
use prognosis::util::{extract_json_object, strip_ansi};

fn chars(s: &str) -> Vec<char> {
    s.chars().collect()
}

fn text(chars: &[char]) -> String {
    chars.iter().collect()
}

#[test]
fn joining_undoes_splitting() {
    for s in ["", "a", "a,b", ",a,,b,"] {
        let parts = pieces(&chars(s), ',');
        assert_eq!(text(&joined(&parts, &[','])), s);
    }
}

#[test]
fn numbers_are_read_back() {
    for n in [0, 7, 10, u64::MAX] {
        assert_eq!(parse_unsigned(&chars(&number_text(n)), u64::MAX), Some(n));
    }
    assert_eq!(parse_unsigned(&chars("256"), 255), None);
    assert_eq!(parse_unsigned(&chars("+5"), 255), Some(5));
    assert_eq!(parse_unsigned(&chars(""), 255), None);
}

#[test]
fn words_are_apart_by_white_space() {
    let words: Vec<String> = words_of(&chars(" a\u{3000}b\t\nc ")).iter().map(|w| text(w)).collect();
    assert_eq!(words, vec!["a", "b", "c"]);
    assert_eq!(text(&trimmed(&chars("\u{a0} x \u{2003}"))), "x");
}

#[test]
fn names_are_sorted_as_std_sorts_them() {
    let names: Vec<String> =
        ["b", "", "桌", "a", "B", "ab", "a"].iter().map(|s| s.to_string()).collect();
    let order = sort_names(&names);
    let sorted: Vec<&String> = order.iter().map(|i| &names[*i]).collect();
    let mut expected: Vec<&String> = names.iter().collect();
    expected.sort();
    assert_eq!(sorted, expected);
    assert_eq!(is_before("a", "b"), "a" < "b");
    assert!(!is_before("a", "a"));
}

#[test]
fn erasing_undoes_typing() {
    let mut state = InputState::new();
    insert_char(&mut state, 'a');
    insert_char(&mut state, '桌');
    backspace(&mut state);
    assert_eq!((state.buffer.as_str(), state.cursor), ("a", 1));
}

#[test]
fn it_does_not_matter_how_a_stream_is_cut() {
    let stream = "data: one\n: note\ndata: two\n\n";
    let mut whole = stream.to_string();
    let mut expected = Vec::new();
    while let Some(event) = pop_sse_data(&mut whole) {
        expected.push(event);
    }
    let mut buf = String::new();
    let mut found = Vec::new();
    for c in stream.chars() {
        buf.push(c);
        while let Some(event) = pop_sse_data(&mut buf) {
            found.push(event);
        }
    }
    assert_eq!(found, expected);
    assert_eq!(found, vec![Some("one".to_string()), Some("two".to_string())]);
}

#[test]
fn a_diff_holds_both_sides() {
    let diff = unified_diff("a\nb\nc", "a\nc\nd");
    let side = |sign: char| -> Vec<String> {
        diff.lines()
            .skip(1)
            .filter(|line| line.starts_with(' ') || line.starts_with(sign))
            .map(|line| line.chars().skip(1).collect())
            .collect()
    };
    assert_eq!(side('-'), vec!["a", "b", "c"]);
    assert_eq!(side('+'), vec!["a", "c", "d"]);
}

#[test]
fn what_is_not_there_is_not_replaced() {
    assert!(single_find_and_replace("f", "abc", "bd", "x", false).is_err());
    assert_eq!(single_find_and_replace("f", "abc", "b", "x", false).unwrap(), "axc");
}

#[test]
fn switching_twice_changes_nothing() {
    let before = vec!["beta".to_string()];
    let off = switch(before.clone(), "alpha", false);
    assert_eq!(off.len(), 2);
    assert_eq!(switch(off, "alpha", true), before);
}

#[test]
fn clean_names_are_kept() {
    assert_eq!(sanitize_rule_name("use-prop-types"), "use-prop-types");
    for name in ["A  b", "--x--", "Ä ö"] {
        let clean = sanitize_rule_name(name);
        assert_eq!(sanitize_rule_name(&clean), clean);
    }
}

#[test]
fn rules_with_quotation_marks_are_written_safely() {
    let block = create_rule_block(&RuleSpec {
        name: "Quotes",
        rule: "body",
        description: Some("say \"hi\""),
        globs: None,
        regex: None,
        always_apply: None,
        scope: None,
    })
    .unwrap();
    assert!(block.content.starts_with("---\n"), "{}", block.content);
    assert!(block.content.ends_with("body"), "{}", block.content);
}

#[test]
fn every_required_parameter_is_asked_for() {
    for (tool, _) in DEFAULT_TOOLS {
        let missing = missing_required_argument(tool, &Json::Object(vec![]));
        assert_eq!(missing, required_parameters(tool).first().cloned(), "{tool}");
    }
}

#[test]
fn escape_sequences_and_wrappings_are_taken_off() {
    assert_eq!(text(&strip_ansi(&chars("\u{1b}[1;31mx\u{1b}[0m"))), "x");
    assert_eq!(extract_json_object("a {\"b\": {}} c").as_deref(), Some("{\"b\": {}}"));
    assert_eq!(extract_json_object("none"), None);
}
