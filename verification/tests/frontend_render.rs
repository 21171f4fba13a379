use prognosis::frontend::layout::{
    char_width, char_widths, fit_path, fit_path_by, fitting, wrap_by, wrap_text, Piece,
};
use prognosis::frontend::markdown::parse;
use prognosis::frontend::render::{format_stats, is_diff_source_line, render_diff_line, render_rows};
use prognosis::frontend::state::{DiffLine, ToolCallMsg, ToolStatus, UiMessage, UiState};
use prognosis::frontend::table::{render_table, share_room};

fn row_text(row: &Vec<Piece>) -> String {
    row.iter().map(|piece| piece.text.as_str()).collect()
}

fn ui() -> UiState {
    UiState::new("tip".to_string(), 0)
}

fn rows_of(ui: &UiState, width: usize) -> Vec<Vec<Piece>> {
    let elapsed: Vec<String> = ui.messages.iter().map(|_| "0.1s".to_string()).collect();
    render_rows(ui, width, &elapsed)
}

fn is_source(line: &str) -> bool {
    let chars: Vec<char> = line.chars().collect();
    is_diff_source_line(&chars)
}

fn call(name: &str, arguments: &str, summary: &str, verdict: Option<&str>) -> ToolCallMsg {
    ToolCallMsg {
        tool_call_id: "1".into(),
        name: name.into(),
        arguments: arguments.into(),
        status: ToolStatus::Done,
        summary: summary.into(),
        output: String::new(),
        diff: Vec::new(),
        elapsed: Some(100_000_000),
        started: 0,
        verdict: verdict.map(str::to_string),
    }
}

#[test]
fn diff_line_renders_aligned_numbers() {
    let lines = vec![
        DiffLine { kind: ' ', line_no: Some(21), text: "def verify():".into() },
        DiffLine { kind: '+', line_no: Some(22), text: "if expired():".into() },
        DiffLine { kind: '-', line_no: Some(22), text: "if none:".into() },
    ];
    assert_eq!(row_text(&render_diff_line(&lines[0], &lines)), "     21  def verify():");
    assert_eq!(row_text(&render_diff_line(&lines[1], &lines)), "  +  22  if expired():");
    assert_eq!(row_text(&render_diff_line(&lines[2], &lines)), "  −  22  if none:");
}

#[test]
fn diff_folds_and_skips_source_lines_in_output() {
    assert!(is_source("diff --git a/x b/x"));
    assert!(is_source("@@ -1 +1 @@"));
    assert!(is_source("+added"));
    assert!(is_source("-removed"));
    assert!(is_source(" context"));
    assert!(!is_source("normal output"));
    assert!(!is_source("2 spaces is context in diff"));

    let mut ui = ui();
    let mut shown = call("view_diff", "{}", "", None);
    shown.output = "diff --git a/x b/x\n+line 0\n+line 1\n".into();
    shown.diff = (0..10)
        .map(|i| DiffLine { kind: '+', line_no: Some(i), text: format!("line {i}") })
        .collect();
    ui.messages.push(UiMessage::ToolCall(shown));
    let text: String =
        rows_of(&ui, 80).iter().map(row_text).collect::<Vec<_>>().join("\n");
    assert!(
        text.contains("more diff lines · Tab to expand"),
        "diff block must fold: {text}"
    );
    assert!(
        !text.contains("│ diff --git"),
        "diff source lines must not repeat in the output fold: {text}"
    );
    ui.fold_expanded = true;
    let text: String =
        rows_of(&ui, 80).iter().map(row_text).collect::<Vec<_>>().join("\n");
    assert!(
        !text.contains("more diff lines"),
        "expanded diff must show all lines: {text}"
    );
}

#[test]
fn diff_line_without_number_keeps_column() {
    let lines = vec![DiffLine { kind: '+', line_no: None, text: "x".into() }];
    assert_eq!(row_text(&render_diff_line(&lines[0], &lines)), "  +      x");
}

#[test]
fn fit_path_shows_full_when_fits() {
    assert_eq!(fit_path("/a/b.rs", 10), "/a/b.rs");
}

#[test]
fn fit_path_truncates_tail_when_too_long() {
    assert_eq!(fit_path("/home/user/project/src/main.rs", 12), "…src/main.rs");
    assert_eq!(fit_path("/a/very/long/path/here", 4), "…ere");
}

#[test]
fn fit_path_counts_display_width_not_chars() {
    let fitted = fit_path("/home/winterist/桌面/project", 16);
    assert_eq!(fitted, "…st/桌面/project");
    assert!(
        unicode_width::UnicodeWidthStr::width(fitted.as_str()) <= 16,
        "fitted path must not exceed the width budget"
    );
}

#[test]
fn fit_path_returns_empty_when_no_room() {
    assert_eq!(fit_path("/a/b.rs", 1), "");
    assert_eq!(fit_path("/a/b.rs", 0), "");
}

#[test]
fn command_stats_show_elapsed() {
    let call = call("run_terminal_command", "{}", "12 passed", None);
    assert_eq!(format_stats(&call, "1.8s"), "1.8s  ok");
}

#[test]
fn command_stats_show_verdict() {
    let call = call("ls", "{}", "", Some("allowed"));
    assert_eq!(format_stats(&call, "0.4s"), "0.4s  🛡 allowed");
}

#[test]
fn other_tools_stats_show_summary() {
    let call = call("edit_existing_file", r#"{"filepath": "a.rs"}"#, "applied", None);
    assert_eq!(format_stats(&call, "0.4s"), "0.4s  applied");
}

#[test]
fn user_header_right_aligns_time() {
    let mut ui = ui();
    ui.push_user("hi", "09:00");
    let rows = rows_of(&ui, 60);
    let text = row_text(&rows[0]);
    assert_eq!(text.chars().count(), 60);
    assert!(text.starts_with("❯ You"), "{text}");
    assert!(text.ends_with(":00") || text.contains(':'));
}

#[test]
fn table_renders_aligned_columns() {
    let lines = parse("| 工具 | 结果 |\n|------|:----:|\n| ls | ✅ |\n| read_file | ✗ |");
    let table = lines[0].table.as_ref().unwrap();
    let rows = render_table(table, 80);
    assert_eq!(rows.len(), 6, "top and bottom borders must render");
    let text: Vec<String> = rows.iter().map(row_text).collect();
    assert!(text[0].contains("┌"), "top border: {:?}", text);
    assert!(text[1].contains("工具"), "{:?}", text);
    assert!(text[2].contains("├"), "header separator: {:?}", text);
    assert!(text[3].contains("✅"), "{:?}", text);
    assert!(text[4].contains("read_file"), "{:?}", text);
    assert!(text[5].contains("└"), "bottom border: {:?}", text);
    let col_start_3 = text[3].find("ls").unwrap();
    let col_start_4 = text[4].find("read_file").unwrap();
    assert_eq!(col_start_3, col_start_4, "columns must align: {:?}", text);
}

#[test]
fn narrow_tables_share_the_room() {
    let lines = parse("| a long heading | another |\n|---|---|\n| some words | 桌面桌面桌面 |");
    let table = lines[0].table.as_ref().unwrap();
    let border = row_text(&render_table(table, 24)[0]);
    assert_eq!(border, format!("  ┌{}┬{}┐", "─".repeat(16), "─".repeat(5)));
}

#[test]
fn wrapping_loses_no_text() {
    let text = "桌面 and some words";
    let rows = wrap_text(text, 6);
    assert_eq!(rows.concat(), text);
    for row in &rows {
        assert!(unicode_width::UnicodeWidthStr::width(row.as_str()) <= 6, "{row}");
    }
    assert_eq!(char_width('桌'), 2);
    assert_eq!(char_width('a'), 1);
}

#[test]
fn rows_are_broken_by_the_given_widths() {
    let line: Vec<char> = "ab字c".chars().collect();
    assert_eq!(char_widths(&line), vec![1, 1, 2, 1]);
    let mut out = vec!["before".to_string()];
    wrap_by(&mut out, &line, &vec![1, 1, 2, 1], 3);
    assert_eq!(out, vec!["before", "ab", "字c"]);
    let mut wide = Vec::new();
    wrap_by(&mut wide, &line, &vec![9, 9, 9, 9], 3);
    assert_eq!(wide, vec!["a", "b", "字", "c"]);
    let mut empty = Vec::new();
    wrap_by(&mut empty, &Vec::new(), &Vec::new(), 3);
    assert_eq!(empty, vec![""]);
}

#[test]
fn characters_fit_while_there_is_room() {
    let widths = vec![1, 2, 2, 1];
    assert_eq!(fitting(&widths, 0, 3), (2, 3));
    assert_eq!(fitting(&widths, 1, 3), (1, 2));
    assert_eq!(fitting(&widths, 1, 1), (0, 0));
    assert_eq!(fitting(&widths, 4, 9), (0, 0));
}

#[test]
fn long_paths_keep_their_end() {
    let widths = vec![1, 1, 1, 1, 1];
    assert_eq!(fit_path_by("/a/bc", 5, &widths, 5), "/a/bc");
    assert_eq!(fit_path_by("/a/bc", 5, &widths, 4), "…/bc");
    assert_eq!(fit_path_by("/a/bc", 5, &widths, 1), "");
    assert_eq!(fit_path_by("/a/bc", 9, &vec![1, 1, 1, 4, 4], 6), "…c");
    assert_eq!(fit_path("/a/字", 5), "/a/字");
    assert_eq!(fit_path("/a/字", 4), "…/字");
}

#[test]
fn columns_share_a_room_from_the_left() {
    assert_eq!(share_room(&vec![3, 4, 5], 20), vec![3, 4, 5]);
    assert_eq!(share_room(&vec![3, 4, 5], 9), vec![3, 4, 2]);
    assert_eq!(share_room(&vec![3, 4, 5], 3), vec![3, 0, 0]);
    assert_eq!(share_room(&vec![usize::MAX, 1], 6), vec![6, 0]);
}
