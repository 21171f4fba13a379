use prognosis::frontend::state::{
    count_diff_lines, extract_filepath, parse_diff, parse_hunk, ToolStatus, UiMessage, UiState,
};

fn ui() -> UiState {
    UiState::new("tip".to_string(), 0)
}

#[test]
fn parse_diff_extracts_lines_with_numbers() {
    let output = "diff --git a/src/a.rs b/src/a.rs\n\
--- a/src/a.rs\n\
+++ b/src/a.rs\n\
@@ -1,3 +1,3 @@\n\
 fn main() {\n\
-    old();\n\
+    new();\n\
 }\n";
    let diff = parse_diff(output);
    assert_eq!(diff.len(), 4);
    assert_eq!(diff[0].kind, ' ');
    assert_eq!(diff[0].line_no, Some(1));
    assert_eq!(diff[0].text, "fn main() {");
    assert_eq!(diff[1].kind, '-');
    assert_eq!(diff[1].line_no, Some(2));
    assert_eq!(diff[1].text, "    old();");
    assert_eq!(diff[2].kind, '+');
    assert_eq!(diff[2].line_no, Some(2));
    assert_eq!(diff[2].text, "    new();");
    assert_eq!(diff[3].kind, ' ');
    assert_eq!(diff[3].line_no, Some(3));
    let (added, removed) = count_diff_lines(output);
    assert_eq!(added, 1);
    assert_eq!(removed, 1);
}

#[test]
fn parse_hunk_header_extracts_start_lines() {
    assert_eq!(parse_hunk(" -21,4 +21,5 @@"), Some((21, 21)));
    assert_eq!(parse_hunk(" -1 +2 @@"), Some((1, 2)));
    assert_eq!(parse_hunk(" @@"), None);
}

#[test]
fn parse_diff_without_hunk_keeps_added_removed() {
    let output = "diff --git a/x b/x\n+line a\n-line b\n context\n";
    let diff = parse_diff(output);
    assert_eq!(diff.len(), 2);
    assert_eq!(diff[0].kind, '+');
    assert_eq!(diff[0].line_no, None);
    assert_eq!(diff[1].kind, '-');
    assert_eq!(diff[1].line_no, None);
}

#[test]
fn plain_output_is_not_parsed_as_diff() {
    let output = "- first\n- second\n-- flag\n+ plus\n";
    let diff = parse_diff(output);
    assert!(diff.is_empty(), "non-diff output must not render diff rows");
    let (added, removed) = count_diff_lines(output);
    assert_eq!((added, removed), (0, 0));
}

#[test]
fn count_diff_lines_ignores_headers() {
    let output = "+++ b/x\n--- a/x\n@@ -1 +1 @@\n+line\n";
    let (added, removed) = count_diff_lines(output);
    assert_eq!(added, 1);
    assert_eq!(removed, 0);
}

#[test]
fn parse_diff_limits_rows() {
    let mut output = "diff --git a/x b/x\n@@ -1 +1 @@\n".to_string();
    for i in 0..60 {
        output.push_str(&format!("+line {i}\n"));
    }
    let diff = parse_diff(&output);
    assert!(diff.len() <= 40);
}

#[test]
fn extract_filepath_from_arguments() {
    assert_eq!(
        extract_filepath(r#"{"filepath": "src/a.rs"}"#),
        Some("src/a.rs".to_string())
    );
    assert_eq!(
        extract_filepath(r#"{"path": "src/b.rs"}"#),
        Some("src/b.rs".to_string())
    );
    assert_eq!(extract_filepath(r#"{"command": "ls"}"#), None);
    assert_eq!(extract_filepath("not json"), None);
}

#[test]
fn turn_summary_counts_files() {
    let mut ui = ui();
    ui.reset_turn(0);
    ui.note_tool_started(r#"{"filepath": "a.rs"}"#);
    ui.note_tool_finished("diff --git a/a.rs b/a.rs\n@@ -1 +1 @@\n+x\n-y\n");
    ui.note_tool_started(r#"{"filepath": "a.rs"}"#);
    ui.note_tool_finished("diff --git a/a.rs b/a.rs\n@@ -1 +1 @@\n+z\n");
    ui.note_tool_started(r#"{"command": "cargo test"}"#);
    ui.note_tool_finished("ok");
    assert_eq!(ui.turn_files.len(), 1);
    assert_eq!(ui.turn_added, 2);
    assert_eq!(ui.turn_removed, 1);
    assert_eq!(ui.turn_tool_calls, 3);
    ui.finish_turn("2.0s", 2_000_000_000);
    let summary = match ui.messages.last() {
        Some(UiMessage::Summary(s)) => s.clone(),
        _ => panic!("expected summary message"),
    };
    assert!(summary.contains("1 file changed"), "{summary}");
    assert!(summary.contains("+2"), "{summary}");
    assert!(summary.contains("−1"), "{summary}");
    assert!(summary.contains("2.0s"), "{summary}");
}

#[test]
fn turn_without_tools_has_no_summary() {
    let mut ui = ui();
    ui.reset_turn(0);
    ui.finish_turn("0.0s", 0);
    assert!(ui.messages.is_empty());
}

#[test]
fn a_finished_call_keeps_its_output_and_time() {
    let mut ui = ui();
    let index = ui.mark_tool_started("id".into(), "ls".into(), "{}".into(), 1_000);
    assert!(ui.has_running_tool());
    ui.mark_tool_finished("id", "short", "long", ToolStatus::Done, None, 4_000);
    assert!(!ui.has_running_tool());
    match &ui.messages[index] {
        UiMessage::ToolCall(call) => {
            assert_eq!(call.summary, "short");
            assert_eq!(call.output, "long");
            assert_eq!(call.elapsed, Some(3_000));
        }
        _ => panic!("expected tool call message"),
    }
    assert_eq!(ui.turn_elapsed(7), 7);
}

#[test]
fn the_spinner_turns() {
    let mut ui = ui();
    let first = ui.spinner();
    ui.tick_spinner();
    assert_ne!(ui.spinner(), first);
    for _ in 0..7 {
        ui.tick_spinner();
    }
    assert_eq!(ui.spinner(), first);
}
