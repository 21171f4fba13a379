use prognosis::frontend::markdown::{parse, Align, SpanKind};

#[test]
fn plain_text_is_normal() {
    let lines = parse("hello world");
    assert_eq!(lines.len(), 1);
    assert_eq!(lines[0].spans[0].kind, SpanKind::Normal);
    assert_eq!(lines[0].spans[0].text, "hello world");
}

#[test]
fn bold_and_inline_code() {
    let lines = parse("use **rust** and `cargo`");
    assert_eq!(lines.len(), 1);
    let kinds: Vec<SpanKind> = lines[0].spans.iter().map(|s| s.kind).collect();
    assert!(kinds.contains(&SpanKind::Bold));
    assert!(kinds.contains(&SpanKind::Code));
}

#[test]
fn code_block_is_single_line() {
    let lines = parse("before\n```rust\nfn main() {}\n```\nafter");
    assert_eq!(lines.len(), 3);
    assert!(lines[1].code_block);
    assert_eq!(lines[1].spans[0].text, "fn main() {}");
    assert_eq!(lines[1].spans[0].kind, SpanKind::Code);
}

#[test]
fn heading_and_list() {
    let lines = parse("# Title\n- item one\n- item two");
    assert_eq!(lines.len(), 3);
    assert!(lines[0].heading);
    assert!(lines[1].list_item);
    assert!(lines[2].list_item);
    assert_eq!(lines[1].spans[0].text, "item one");
}

#[test]
fn strike_through() {
    let lines = parse("~~removed~~ kept");
    assert_eq!(lines[0].spans[0].kind, SpanKind::Strike);
    assert_eq!(lines[0].spans[0].text, "removed");
    assert_eq!(lines[0].spans[1].text, " kept");
}

#[test]
fn empty_code_block_then_normal() {
    let lines = parse("```\n```\ntext");
    assert_eq!(lines.len(), 1);
    assert!(!lines[0].code_block);
    assert_eq!(lines[0].spans[0].text, "text");
}

#[test]
fn table_parses_header_separator_and_rows() {
    let lines = parse("| 工具 | 结果 |\n|------|------|\n| `ls` | ✅ |\n| read | ✗ |");
    assert_eq!(lines.len(), 1, "table must collapse into one line");
    let table = lines[0].table.as_ref().expect("table block");
    assert_eq!(table.len(), 4);
    assert!(table[0].header);
    assert!(table[1].separator);
    assert!(!table[2].header);
    assert_eq!(table[2].cells.len(), 2);
    assert_eq!(table[2].cells[0][0].kind, SpanKind::Code);
    assert_eq!(table[3].cells[1][0].text, "✗");
}

#[test]
fn table_align_detected_from_separator() {
    let lines = parse("| a | b | c |\n|:--|:-:|--:|\n| 1 | 2 | 3 |");
    let table = lines[0].table.as_ref().unwrap();
    assert_eq!(table[0].align, vec![Align::Left, Align::Center, Align::Right]);
}

#[test]
fn plain_pipe_lines_are_not_tables() {
    let lines = parse("no | pipe here");
    assert!(lines[0].table.is_none());
    let lines = parse("| single");
    assert!(lines[0].table.is_none());
}
