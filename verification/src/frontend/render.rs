//! The conversation as rows on the screen.

use crate::frontend::layout;
use crate::frontend::layout::{
    piece, plain, push_piece, push_row, row_view, rows_view, span_rows, span_style, text_columns,
    wrapped, wrapped_spans, Piece, PieceView,
};
use crate::frontend::markdown;
use crate::frontend::markdown::{document, lines_view, spans_view, Line, LineView, Span, SpanView};
use crate::frontend::state;
use crate::frontend::state::{
    diff_view, messages_view, path_in, CallView, DiffLine, DiffView, MessageView, ToolCallMsg,
    ToolStatus, UiMessage, UiState,
};
use crate::frontend::table;
use crate::frontend::table::{drawn_table, larger, left_over};
use crate::frontend::theme::{bold, colored, italic, spinner_frames, Color, Style, SPINNER_LEN};
use crate::text;
use crate::text::{decimal, has_prefix, join, lines, prefix_of, repeated, rows, split, trim, views};
use vstd::prelude::*;

verus! {

/// The rows of folded reasoning.
pub const REASONING_FOLD_LINES: usize = 6;

/// The rows of a folded tool output.
pub const TOOL_FOLD_LINES: usize = 7;

/// The most lines of a tool output that are shown.
pub const TOOL_MAX_LINES: usize = 200;

// ---------------------------------------------------------------------------------------------
// Lines of one style
// ---------------------------------------------------------------------------------------------
/// Lines in one style, each behind an indent.
pub open spec fn styled_rows(ls: Seq<Seq<char>>, indent: Seq<char>, style: Style) -> Seq<
    Seq<PieceView>,
> {
    Seq::new(ls.len(), |i: int| seq![piece(indent + ls[i], style)])
}

/// Appends the first `n` lines in one style, each behind an indent.
fn push_lines(out: &mut Vec<Vec<Piece>>, ls: &Vec<String>, n: usize, indent: &str, style: Style)
    requires
        n <= ls@.len(),
    ensures
        rows_view(final(out)@) == rows_view(old(out)@) + styled_rows(
            views(ls@).take(n as int),
            indent@,
            style,
        ),
{
    let ghost start = rows_view(out@);
    let ghost goal = styled_rows(views(ls@).take(n as int), indent@, style);
    let mut i: usize = 0;
    assert(start + goal.take(0) =~= start);
    while i < n
        invariant
            i <= n <= ls@.len(),
            goal == styled_rows(views(ls@).take(n as int), indent@, style),
            rows_view(out@) == start + goal.take(i as int),
        decreases n - i,
    {
        let line = text::glue(indent, ls[i].as_str());
        push_row(out, layout::one(Piece::new(line.as_str(), style)));
        proof {
            assert(views(ls@).take(n as int)[i as int] == ls@[i as int]@);
            assert(goal.take(i + 1) =~= goal.take(i as int).push(goal[i as int]));
            assert(rows_view(out@) =~= start + goal.take(i + 1));
        }
        i += 1;
    }
    assert(goal.take(i as int) =~= goal);
}

// ---------------------------------------------------------------------------------------------
// The user's and the system's messages
// ---------------------------------------------------------------------------------------------
/// What the user said: a head with the time at the right, and the text.
pub open spec fn user_rows(content: Seq<char>, time: Seq<char>, width: nat) -> Seq<Seq<PieceView>> {
    let ls = wrapped(content, width as int);
    seq![
        seq![
            piece("❯ "@, colored(Color::Pink)),
            piece("You"@, bold(Color::Text)),
            plain(repeated(' ', left_over(width, 5 + time.len()))),
            piece(time, colored(Color::Meta)),
        ],
    ] + Seq::new(ls.len(), |i: int| seq![plain("  "@), piece(ls[i], colored(Color::Text))])
}

/// Appends what the user said.
fn push_user_rows(out: &mut Vec<Vec<Piece>>, content: &str, time: &str, width: usize)
    ensures
        rows_view(final(out)@) == rows_view(old(out)@) + user_rows(content@, time@, width as nat),
{
    let ghost start = rows_view(out@);
    let ghost goal = user_rows(content@, time@, width as nat);
    let chars = text::chars_of(time);
    let pad: usize = width.saturating_sub(5).saturating_sub(chars.len());
    let mut head: Vec<Piece> = layout::two(
        Piece::new("❯ ", Style::colored(Color::Pink)),
        Piece::new("You", Style::bold(Color::Text)),
    );
    push_piece(&mut head, Piece::plain(text::repeat_char(' ', pad).as_str()));
    push_piece(&mut head, Piece::new(time, Style::colored(Color::Meta)));
    assert(row_view(head@) =~= goal[0]);
    push_row(out, head);
    let ls = layout::wrap_text(content, width);
    let ghost all = views(ls@);
    let mut i: usize = 0;
    assert(rows_view(out@) =~= start + goal.take(1));
    while i < ls.len()
        invariant
            i <= ls@.len(),
            all == views(ls@),
            all == wrapped(content@, width as int),
            goal == user_rows(content@, time@, width as nat),
            rows_view(out@) == start + goal.take(i + 1),
        decreases ls@.len() - i,
    {
        assert(all[i as int] == ls@[i as int]@);
        push_row(
            out,
            layout::two(
                Piece::plain("  "),
                Piece::new(ls[i].as_str(), Style::colored(Color::Text)),
            ),
        );
        proof {
            assert(goal.take(i + 2) =~= goal.take(i + 1).push(goal[i + 1]));
            assert(rows_view(out@) =~= start + goal.take(i + 2));
        }
        i += 1;
    }
    assert(goal.take(i + 1) =~= goal);
}

// ---------------------------------------------------------------------------------------------
// The assistant's messages
// ---------------------------------------------------------------------------------------------
/// The row that stands for lines that are folded away.
pub open spec fn fold_row(remaining: nat, what: Seq<char>) -> Seq<PieceView> {
    seq![piece("  ▸ … "@ + decimal(remaining) + what, italic(Color::Meta))]
}

/// The row that stands for lines that are folded away.
fn fold_note(remaining: usize, what: &str) -> (r: Vec<Piece>)
    ensures
        row_view(r@) == fold_row(remaining as nat, what@),
{
    let note = text::glue3("  ▸ … ", text::number_text(remaining as u64).as_str(), what);
    assert(note@ =~= "  ▸ … "@ + decimal(remaining as nat) + what@);
    layout::one(Piece::new(note.as_str(), Style::italic(Color::Meta)))
}

/// The assistant's reasoning, which is folded if it is long.
pub open spec fn reasoning_rows(reasoning: Seq<char>, expanded: bool, width: nat) -> Seq<
    Seq<PieceView>,
> {
    let ls = wrapped(reasoning, width as int);
    if reasoning.len() == 0 {
        Seq::empty()
    } else if !expanded && ls.len() > REASONING_FOLD_LINES {
        styled_rows(ls.take(REASONING_FOLD_LINES as int), "  "@, italic(Color::Meta)).push(
            fold_row(
                (ls.len() - REASONING_FOLD_LINES) as nat,
                " more lines · Tab to expand"@,
            ),
        )
    } else {
        styled_rows(ls, "  "@, italic(Color::Meta))
    }
}

/// Appends the assistant's reasoning.
fn push_reasoning_rows(out: &mut Vec<Vec<Piece>>, reasoning: &str, expanded: bool, width: usize)
    ensures
        rows_view(final(out)@) == rows_view(old(out)@) + reasoning_rows(
            reasoning@,
            expanded,
            width as nat,
        ),
{
    let ghost start = rows_view(out@);
    let ghost goal = reasoning_rows(reasoning@, expanded, width as nat);
    if reasoning.is_empty() {
        assert(start + goal =~= start);
        return ;
    }
    let ls = layout::wrap_text(reasoning, width);
    let total: usize = ls.len();
    assert(views(ls@).len() == total);
    if !expanded && total > REASONING_FOLD_LINES {
        push_lines(out, &ls, REASONING_FOLD_LINES, "  ", Style::italic(Color::Meta));
        push_row(out, fold_note(total - REASONING_FOLD_LINES, " more lines · Tab to expand"));
        assert(rows_view(out@) =~= start + goal);
    } else {
        assert(views(ls@).take(total as int) =~= views(ls@));
        push_lines(out, &ls, total, "  ", Style::italic(Color::Meta));
    }
}

/// The text of the first of the spans.
pub open spec fn first_text(spans: Seq<SpanView>) -> Seq<char> {
    if spans.len() > 0 {
        spans[0].text
    } else {
        Seq::empty()
    }
}

/// A heading: a bar before its first row, an indent before the others.
pub open spec fn heading_rows(s: Seq<char>, width: nat) -> Seq<Seq<PieceView>> {
    let ls = wrapped(s, left_over(width, 4) as int);
    Seq::new(
        ls.len(),
        |i: int|
            if i == 0 {
                seq![piece("  ▍"@, colored(Color::Gold)), piece(ls[0], bold(Color::Gold))]
            } else {
                seq![piece("    "@ + ls[i], bold(Color::Gold))]
            },
    )
}

/// The spans of a row as they are drawn, behind an indent and, in a list item, a bullet.
pub open spec fn text_row(spans: Seq<SpanView>, list_item: bool) -> Seq<PieceView> {
    (if list_item {
        seq![plain("  "@), piece("• "@, colored(Color::Meta))]
    } else {
        seq![plain("  "@)]
    }) + Seq::new(spans.len(), |i: int| piece(spans[i].text, span_style(spans[i].kind)))
}

/// A block of a document as it is drawn.
pub open spec fn block_rows(line: LineView, width: nat) -> Seq<Seq<PieceView>> {
    if line.code_block {
        styled_rows(split(first_text(line.spans), '\n'), "    "@, colored(Color::Purple))
    } else if line.table is Some {
        drawn_table(line.table->0, width)
    } else if line.heading {
        heading_rows(first_text(line.spans), width)
    } else {
        let ls = wrapped_spans(line.spans, left_over(width, 2) as int);
        Seq::new(ls.len(), |i: int| text_row(ls[i], line.list_item))
    }
}

/// The first `n` blocks of a document as they are drawn.
pub open spec fn document_rows(blocks: Seq<LineView>, width: nat, n: int) -> Seq<Seq<PieceView>>
    decreases n,
{
    if n <= 0 {
        Seq::empty()
    } else {
        document_rows(blocks, width, n - 1) + block_rows(blocks[n - 1], width)
    }
}

/// Appends a heading.
fn push_heading_rows(out: &mut Vec<Vec<Piece>>, s: &str, width: usize)
    ensures
        rows_view(final(out)@) == rows_view(old(out)@) + heading_rows(s@, width as nat),
{
    let ghost start = rows_view(out@);
    let ghost goal = heading_rows(s@, width as nat);
    let ls = layout::wrap_text(s, width.saturating_sub(4));
    let ghost all = views(ls@);
    let mut i: usize = 0;
    assert(start + goal.take(0) =~= start);
    while i < ls.len()
        invariant
            i <= ls@.len(),
            all == views(ls@),
            all == wrapped(s@, left_over(width as nat, 4) as int),
            goal == heading_rows(s@, width as nat),
            rows_view(out@) == start + goal.take(i as int),
        decreases ls@.len() - i,
    {
        assert(all[i as int] == ls@[i as int]@);
        if i == 0 {
            push_row(
                out,
                layout::two(
                    Piece::new("  ▍", Style::colored(Color::Gold)),
                    Piece::new(ls[i].as_str(), Style::bold(Color::Gold)),
                ),
            );
        } else {
            let row = text::glue("    ", ls[i].as_str());
            push_row(out, layout::one(Piece::new(row.as_str(), Style::bold(Color::Gold))));
        }
        proof {
            assert(goal.take(i + 1) =~= goal.take(i as int).push(goal[i as int]));
            assert(rows_view(out@) =~= start + goal.take(i + 1));
        }
        i += 1;
    }
    assert(goal.take(i as int) =~= goal);
}

/// The spans of a row as they are drawn.
fn draw_text_row(spans: &Vec<Span>, list_item: bool) -> (r: Vec<Piece>)
    ensures
        row_view(r@) == text_row(spans_view(spans@), list_item),
{
    let ghost goal = text_row(spans_view(spans@), list_item);
    let mut row: Vec<Piece> = layout::one(Piece::plain("  "));
    if list_item {
        push_piece(&mut row, Piece::new("• ", Style::colored(Color::Meta)));
    }
    let ghost head = row_view(row@);
    let mut i: usize = 0;
    assert(head =~= goal.take(head.len() as int));
    while i < spans.len()
        invariant
            i <= spans@.len(),
            goal == text_row(spans_view(spans@), list_item),
            goal.len() == head.len() + spans@.len(),
            head.len() == (if list_item { 2int } else { 1int }),
            row_view(row@) == goal.take(head.len() + i),
        decreases spans@.len() - i,
    {
        assert(spans_view(spans@)[i as int] == spans@[i as int]@);
        push_piece(&mut row, layout::style_span(&spans[i]));
        assert(goal.take(head.len() + i + 1) =~= goal.take(head.len() + i).push(
            goal[head.len() + i],
        ));
        i += 1;
    }
    assert(goal.take(head.len() + i) =~= goal);
    row
}

/// Appends a code block.
fn push_code_rows(out: &mut Vec<Vec<Piece>>, code: &str)
    ensures
        rows_view(final(out)@) == rows_view(old(out)@) + styled_rows(
            split(code@, '\n'),
            "    "@,
            colored(Color::Purple),
        ),
{
    let ls = text::pieces(text::chars_of(code).as_slice(), '\n');
    let ghost start = rows_view(out@);
    let ghost all = rows(ls@);
    let ghost goal = styled_rows(all, "    "@, colored(Color::Purple));
    let mut i: usize = 0;
    assert(start + goal.take(0) =~= start);
    while i < ls.len()
        invariant
            i <= ls@.len(),
            all == rows(ls@),
            goal == styled_rows(all, "    "@, colored(Color::Purple)),
            rows_view(out@) == start + goal.take(i as int),
        decreases ls@.len() - i,
    {
        assert(all[i as int] == ls@[i as int]@);
        let row = text::glue("    ", text::string_of(ls[i].as_slice()).as_str());
        push_row(out, layout::one(Piece::new(row.as_str(), Style::colored(Color::Purple))));
        proof {
            assert(goal.take(i + 1) =~= goal.take(i as int).push(goal[i as int]));
            assert(rows_view(out@) =~= start + goal.take(i + 1));
        }
        i += 1;
    }
    assert(goal.take(i as int) =~= goal);
}

/// Appends rows.
pub(crate) fn append_rows(out: &mut Vec<Vec<Piece>>, more: Vec<Vec<Piece>>)
    ensures
        rows_view(final(out)@) == rows_view(old(out)@) + rows_view(more@),
{
    let ghost start = out@;
    let ghost all = more@;
    let mut more = more;
    out.append(&mut more);
    assert(out@ =~= start + all);
    assert(rows_view(out@) =~= rows_view(start) + rows_view(all));
}

/// Appends a block of a document.
fn push_block_rows(out: &mut Vec<Vec<Piece>>, line: &Line, width: usize)
    requires
        width > 2,
    ensures
        rows_view(final(out)@) == rows_view(old(out)@) + block_rows(line@, width as nat),
{
    let ghost start = rows_view(out@);
    let ghost goal = block_rows(line@, width as nat);
    let first = if line.spans.len() > 0 {
        assert(line@.spans[0] == line.spans@[0]@);
        line.spans[0].text.as_str()
    } else {
        proof {
            reveal_strlit("");
            assert(""@ =~= Seq::<char>::empty());
        }
        ""
    };
    assert(first@ == first_text(line@.spans));
    if line.code_block {
        push_code_rows(out, first);
        return ;
    }
    if let Some(rows) = &line.table {
        append_rows(out, table::render_table(rows, width));
        return ;
    }
    if line.heading {
        push_heading_rows(out, first, width);
        return ;
    }
    let ls = layout::wrap_spans(&line.spans, width - 2);
    let ghost all = span_rows(ls@);
    let mut i: usize = 0;
    assert(start + goal.take(0) =~= start);
    while i < ls.len()
        invariant
            i <= ls@.len(),
            all == span_rows(ls@),
            goal == Seq::new(all.len(), |i: int| text_row(all[i], line@.list_item)),
            rows_view(out@) == start + goal.take(i as int),
        decreases ls@.len() - i,
    {
        assert(all[i as int] == spans_view(ls@[i as int]@));
        push_row(out, draw_text_row(&ls[i], line.list_item));
        proof {
            assert(goal.take(i + 1) =~= goal.take(i as int).push(goal[i as int]));
            assert(rows_view(out@) =~= start + goal.take(i + 1));
        }
        i += 1;
    }
    assert(goal.take(i as int) =~= goal);
}

/// The label of the assistant's message; while the answer comes in, it shows the spinner.
pub open spec fn assistant_label(generating: bool, spinner: char) -> Seq<char> {
    if generating {
        " Agent · Thinking "@.push(spinner)
    } else {
        " Agent"@
    }
}

/// What the assistant said.
pub open spec fn assistant_rows(
    content: Seq<char>,
    reasoning: Seq<char>,
    label: Seq<char>,
    expanded: bool,
    width: nat,
) -> Seq<Seq<PieceView>> {
    seq![seq![piece("●"@, colored(Color::Pink)), piece(label, bold(Color::Text))]]
        + reasoning_rows(reasoning, expanded, width) + document_rows(
        document(content),
        width,
        document(content).len() as int,
    )
}

/// Appends what the assistant said.
fn push_assistant_rows(
    out: &mut Vec<Vec<Piece>>,
    content: &str,
    reasoning: &str,
    label: &str,
    expanded: bool,
    width: usize,
)
    requires
        width > 2,
    ensures
        rows_view(final(out)@) == rows_view(old(out)@) + assistant_rows(
            content@,
            reasoning@,
            label@,
            expanded,
            width as nat,
        ),
{
    let ghost start = rows_view(out@);
    push_row(
        out,
        layout::two(
            Piece::new("●", Style::colored(Color::Pink)),
            Piece::new(label, Style::bold(Color::Text)),
        ),
    );
    push_reasoning_rows(out, reasoning, expanded, width);
    let ghost head = rows_view(out@);
    let blocks = markdown::parse(content);
    let ghost all = document(content@);
    let mut i: usize = 0;
    assert(head + document_rows(all, width as nat, 0) =~= head);
    while i < blocks.len()
        invariant
            i <= blocks@.len(),
            width > 2,
            all == lines_view(blocks@),
            rows_view(out@) == head + document_rows(all, width as nat, i as int),
        decreases blocks@.len() - i,
    {
        assert(all[i as int] == blocks@[i as int]@);
        push_block_rows(out, &blocks[i], width);
        assert(rows_view(out@) =~= head + document_rows(all, width as nat, i + 1));
        i += 1;
    }
    assert(rows_view(out@) =~= start + assistant_rows(
        content@,
        reasoning@,
        label@,
        expanded,
        width as nat,
    ));
}

// ---------------------------------------------------------------------------------------------
// Tool calls
// ---------------------------------------------------------------------------------------------
/// The sign of a tool.
pub open spec fn icon_of(name: Seq<char>) -> Seq<char> {
    if name == "edit_existing_file"@ {
        "✎"@
    } else if name == "single_find_and_replace"@ {
        "⇋"@
    } else if name == "create_new_file"@ {
        "✚"@
    } else if name == "run_terminal_command"@ {
        "$"@
    } else if name == "read_file"@ {
        "▤"@
    } else if name == "ls"@ {
        "▦"@
    } else if name == "grep_search"@ {
        "⌗"@
    } else if name == "file_glob_search"@ {
        "✱"@
    } else if name == "view_diff"@ {
        "⇄"@
    } else if name == "search_web"@ {
        "⌕"@
    } else if name == "fetch_url_content"@ {
        "⇪"@
    } else if name == "create_rule_block"@ {
        "⚑"@
    } else if name == "request_rule"@ {
        "⚐"@
    } else if name == "read_skill"@ {
        "❖"@
    } else if name == "schedule_task"@ {
        "◷"@
    } else if name == "cancel_task"@ {
        "⊘"@
    } else {
        "○"@
    }
}

/// The sign of a tool.
pub fn tool_icon(name: &str) -> (r: &'static str)
    ensures
        r@ == icon_of(name@),
{
    if text::same(name, "edit_existing_file") {
        "✎"
    } else if text::same(name, "single_find_and_replace") {
        "⇋"
    } else if text::same(name, "create_new_file") {
        "✚"
    } else if text::same(name, "run_terminal_command") {
        "$"
    } else if text::same(name, "read_file") {
        "▤"
    } else if text::same(name, "ls") {
        "▦"
    } else if text::same(name, "grep_search") {
        "⌗"
    } else if text::same(name, "file_glob_search") {
        "✱"
    } else if text::same(name, "view_diff") {
        "⇄"
    } else if text::same(name, "search_web") {
        "⌕"
    } else if text::same(name, "fetch_url_content") {
        "⇪"
    } else if text::same(name, "create_rule_block") {
        "⚑"
    } else if text::same(name, "request_rule") {
        "⚐"
    } else if text::same(name, "read_skill") {
        "❖"
    } else if text::same(name, "schedule_task") {
        "◷"
    } else if text::same(name, "cancel_task") {
        "⊘"
    } else {
        "○"
    }
}

/// Whether a line of a tool's output belongs to a difference, which is drawn by itself.
pub open spec fn diff_source(line: Seq<char>) -> bool {
    has_prefix(line, "diff --git"@) || has_prefix(line, "@@"@) || has_prefix(line, "+"@)
        || has_prefix(line, "-"@) || has_prefix(line, " "@)
}

/// Whether a line of a tool's output belongs to a difference.
pub fn is_diff_source_line(line: &[char]) -> (r: bool)
    ensures
        r == diff_source(line@),
{
    text::starts_with(line, "diff --git") || text::starts_with(line, "@@") || text::starts_with(
        line,
        "+",
    ) || text::starts_with(line, "-") || text::starts_with(line, " ")
}

/// The number of lines of one kind.
pub open spec fn of_kind(diff: Seq<DiffView>, kind: char) -> nat
    decreases diff.len(),
{
    if diff.len() == 0 {
        0
    } else if diff.last().kind == kind {
        of_kind(diff.drop_last(), kind) + 1
    } else {
        of_kind(diff.drop_last(), kind)
    }
}

/// Whether a tool call ran a command in the shell.
pub open spec fn is_command(call: CallView) -> bool {
    call.name == "run_terminal_command"@
}

/// The figures behind a tool call. `elapsed` is its time as it is shown.
pub open spec fn stats_parts(call: CallView, elapsed: Seq<char>) -> Seq<Seq<char>> {
    let changed = if of_kind(call.diff, '+') > 0 {
        seq!["+"@ + decimal(of_kind(call.diff, '+')) + " −"@ + decimal(of_kind(call.diff, '-'))]
    } else {
        Seq::empty()
    };
    let timed = if call.status == ToolStatus::Running || call.elapsed is Some {
        seq![elapsed]
    } else {
        Seq::empty()
    };
    let judged = match call.verdict {
        Some(verdict) => seq!["🛡 "@ + verdict],
        None => Seq::empty(),
    };
    let ended = if is_command(call) {
        if call.status == ToolStatus::Done {
            seq!["ok"@]
        } else if call.status == ToolStatus::Errored {
            seq!["failed"@]
        } else {
            Seq::empty()
        }
    } else if call.summary.len() > 0 && call.status != ToolStatus::Running {
        seq![prefix_of(call.summary, 60)]
    } else {
        Seq::empty()
    };
    changed + timed + judged + ended
}

/// The figures behind a tool call, in a row.
pub open spec fn stats_text(call: CallView, elapsed: Seq<char>) -> Seq<char> {
    join(stats_parts(call, elapsed), "  "@)
}

/// The number of lines of one kind.
fn count_kind(diff: &Vec<DiffLine>, kind: char) -> (r: usize)
    ensures
        r == of_kind(diff_view(diff@), kind),
{
    let ghost all = diff_view(diff@);
    let mut n: usize = 0;
    let mut i: usize = 0;
    while i < diff.len()
        invariant
            i <= diff@.len(),
            all == diff_view(diff@),
            n <= i,
            n == of_kind(all.take(i as int), kind),
        decreases diff@.len() - i,
    {
        proof {
            assert(all.take(i + 1).drop_last() =~= all.take(i as int));
            assert(all.take(i + 1).last() == diff@[i as int]@);
        }
        if diff[i].kind == kind {
            n += 1;
        }
        i += 1;
    }
    assert(all.take(i as int) =~= all);
    n
}

/// Appends a text to a list.
fn push_text(parts: &mut Vec<String>, s: String)
    ensures
        views(final(parts)@) == views(old(parts)@).push(s@),
{
    let ghost before = views(parts@);
    parts.push(s);
    assert(views(parts@) =~= before.push(s@));
}

/// The figures behind a tool call. `elapsed` is its time as it is shown.
pub fn format_stats(call: &ToolCallMsg, elapsed: &str) -> (r: String)
    ensures
        r@ == stats_text(call@, elapsed@),
{
    let mut parts: Vec<String> = Vec::new();
    assert(views(parts@) =~= Seq::empty());
    let added: usize = count_kind(&call.diff, '+');
    if added > 0 {
        let removed: usize = count_kind(&call.diff, '-');
        let mut s = text::glue3("+", text::number_text(added as u64).as_str(), " −");
        s.append(text::number_text(removed as u64).as_str());
        assert(s@ =~= "+"@ + decimal(added as nat) + " −"@ + decimal(removed as nat));
        push_text(&mut parts, s);
    }
    if call.status == ToolStatus::Running || call.elapsed.is_some() {
        push_text(&mut parts, elapsed.to_owned());
    }
    if let Some(verdict) = &call.verdict {
        push_text(&mut parts, text::glue("🛡 ", verdict.as_str()));
    }
    if text::same(call.name.as_str(), "run_terminal_command") {
        if call.status == ToolStatus::Done {
            push_text(&mut parts, "ok".to_owned());
        } else if call.status == ToolStatus::Errored {
            push_text(&mut parts, "failed".to_owned());
        }
    } else if !call.summary.as_str().is_empty() && call.status != ToolStatus::Running {
        push_text(&mut parts, text::first_chars(call.summary.as_str(), 60));
    }
    assert(views(parts@) =~= stats_parts(call@, elapsed@));
    text::joined_strings(&parts, "  ")
}

/// The largest line number of a difference.
pub open spec fn largest_no(diff: Seq<DiffView>) -> Option<u32>
    decreases diff.len(),
{
    if diff.len() == 0 {
        None
    } else {
        let before = largest_no(diff.drop_last());
        match (before, diff.last().line_no) {
            (Some(a), Some(b)) => Some(
                if a >= b {
                    a
                } else {
                    b
                },
            ),
            (None, Some(b)) => Some(b),
            (_, None) => before,
        }
    }
}

/// The columns of the line numbers of a difference: those of the largest, and two at least.
pub open spec fn number_columns(all: Seq<DiffView>) -> nat {
    match largest_no(all) {
        Some(max) => larger(decimal(max as nat).len(), 2),
        None => 2,
    }
}

/// A text behind as many spaces as bring it to `width` characters.
pub open spec fn right_aligned(s: Seq<char>, width: nat) -> Seq<char> {
    repeated(' ', left_over(width, s.len())) + s
}

/// A text before as many spaces as bring it to `width` characters.
pub open spec fn left_aligned(s: Seq<char>, width: nat) -> Seq<char> {
    s + repeated(' ', left_over(width, s.len()))
}

/// A line number in its columns.
pub open spec fn number_field(line_no: Option<u32>, width: nat) -> Seq<char> {
    match line_no {
        Some(no) => right_aligned(decimal(no as nat), width),
        None => repeated(' ', width),
    }
}

/// A line of a difference as it is drawn.
pub open spec fn diff_row(line: DiffView, all: Seq<DiffView>) -> Seq<PieceView> {
    let number = number_field(line.line_no, number_columns(all));
    if line.kind == '+' {
        seq![
            piece("  +  "@ + number + "  "@, colored(Color::Green)),
            piece(line.text, colored(Color::Green)),
        ]
    } else if line.kind == '-' {
        seq![
            piece("  −  "@ + number + "  "@, colored(Color::Red)),
            piece(line.text, colored(Color::Red)),
        ]
    } else {
        seq![
            piece("     "@ + number + "  "@, colored(Color::Meta)),
            piece(line.text, colored(Color::Meta)),
        ]
    }
}

/// A text before as many spaces as bring it to `width` characters.
pub(crate) fn pad_right(s: &str, width: usize) -> (r: String)
    ensures
        r@ == left_aligned(s@, width as nat),
{
    let n: usize = text::chars_of(s).len();
    text::glue(s, text::repeat_char(' ', width.saturating_sub(n)).as_str())
}

/// The columns of the line numbers of a difference.
fn number_width(all: &Vec<DiffLine>) -> (r: usize)
    ensures
        r == number_columns(diff_view(all@)),
{
    let ghost views = diff_view(all@);
    let mut max: Option<u32> = None;
    let mut i: usize = 0;
    while i < all.len()
        invariant
            i <= all@.len(),
            views == diff_view(all@),
            max == largest_no(views.take(i as int)),
        decreases all@.len() - i,
    {
        proof {
            assert(views.take(i + 1).drop_last() =~= views.take(i as int));
            assert(views.take(i + 1).last() == all@[i as int]@);
        }
        if let Some(no) = all[i].line_no {
            max = match max {
                Some(m) => if m >= no {
                    Some(m)
                } else {
                    Some(no)
                },
                None => Some(no),
            };
        }
        i += 1;
    }
    assert(views.take(i as int) =~= views);
    match max {
        Some(m) => {
            let digits: usize = text::decimal_of(m as u128).len();
            if digits >= 2 {
                digits
            } else {
                2
            }
        },
        None => 2,
    }
}

/// A line of a difference as it is drawn.
pub fn render_diff_line(line: &DiffLine, all: &Vec<DiffLine>) -> (r: Vec<Piece>)
    ensures
        row_view(r@) == diff_row(line@, diff_view(all@)),
{
    let width: usize = number_width(all);
    let number = match line.line_no {
        Some(no) => {
            let digits = text::number_text(no as u64);
            let n: usize = text::chars_of(digits.as_str()).len();
            text::glue(
                text::repeat_char(' ', width.saturating_sub(n)).as_str(),
                digits.as_str(),
            )
        },
        None => text::repeat_char(' ', width),
    };
    let (mark, color) = if line.kind == '+' {
        ("  +  ", Color::Green)
    } else if line.kind == '-' {
        ("  −  ", Color::Red)
    } else {
        ("     ", Color::Meta)
    };
    let head = text::glue3(mark, number.as_str(), "  ");
    layout::two(
        Piece::new(head.as_str(), Style::colored(color)),
        Piece::new(line.text.as_str(), Style::colored(color)),
    )
}

/// The colour and the mark of a tool call's status.
pub open spec fn status_mark(status: ToolStatus) -> (Color, Seq<char>) {
    match status {
        ToolStatus::Running => (Color::Pink, "◐"@),
        ToolStatus::Done => (Color::Green, "✓"@),
        ToolStatus::Errored | ToolStatus::Denied => (Color::Red, "✗"@),
    }
}

/// The columns of the pieces of a row.
pub open spec fn pieces_columns(row: Seq<PieceView>) -> nat
    decreases row.len(),
{
    if row.len() == 0 {
        0
    } else {
        pieces_columns(row.drop_last()) + text_columns(row.last().text) as nat
    }
}

/// The columns of the pieces of a row, up to the largest value of the type.
pub(crate) fn pieces_width(row: &Vec<Piece>) -> (r: usize)
    ensures
        r == table::at_most_max(pieces_columns(row_view(row@))),
{
    let ghost all = row_view(row@);
    let mut sum: usize = 0;
    let mut i: usize = 0;
    while i < row.len()
        invariant
            i <= row@.len(),
            all == row_view(row@),
            sum == table::at_most_max(pieces_columns(all.take(i as int))),
        decreases row@.len() - i,
    {
        proof {
            assert(all.take(i + 1).drop_last() =~= all.take(i as int));
            assert(all.take(i + 1).last() == row@[i as int]@);
        }
        sum = sum.saturating_add(layout::width_of(row[i].text.as_str()));
        i += 1;
    }
    assert(all.take(i as int) =~= all);
    sum
}

/// The head of a tool call without its figures: a mark, the tool and the file that it works on.
pub open spec fn call_head(call: CallView) -> Seq<PieceView> {
    let (color, marker) = status_mark(call.status);
    let head = seq![
        piece("  "@ + marker + " "@, colored(color)),
        piece(icon_of(call.name) + " "@ + left_aligned(call.name, 24), bold(Color::Text)),
    ];
    match path_in(call.arguments) {
        Some(path) => head.push(piece(path, colored(Color::Purple))),
        None => head,
    }
}

/// The head of a tool call, with its figures at the right.
pub open spec fn call_row(call: CallView, elapsed: Seq<char>, width: nat) -> Seq<PieceView> {
    let head = call_head(call);
    let stats = stats_text(call, elapsed);
    let pad = left_over(width, pieces_columns(head) + stats.len());
    if stats.len() == 0 {
        head
    } else if pad > 0 {
        head.push(plain(repeated(' ', pad))).push(piece(stats, colored(Color::Meta)))
    } else {
        head.push(piece(stats, colored(Color::Meta)))
    }
}

/// The head of a tool call, with its figures at the right.
fn draw_call_row(call: &ToolCallMsg, elapsed: &str, width: usize) -> (r: Vec<Piece>)
    ensures
        row_view(r@) == call_row(call@, elapsed@, width as nat),
{
    let (color, marker) = match call.status {
        ToolStatus::Running => (Color::Pink, "◐"),
        ToolStatus::Done => (Color::Green, "✓"),
        ToolStatus::Errored => (Color::Red, "✗"),
        ToolStatus::Denied => (Color::Red, "✗"),
    };
    let mark = text::glue3("  ", marker, " ");
    let label = text::glue3(
        tool_icon(call.name.as_str()),
        " ",
        pad_right(call.name.as_str(), 24).as_str(),
    );
    let mut row: Vec<Piece> = layout::two(
        Piece::new(mark.as_str(), Style::colored(color)),
        Piece::new(label.as_str(), Style::bold(Color::Text)),
    );
    if let Some(path) = state::extract_filepath(call.arguments.as_str()) {
        push_piece(&mut row, Piece::new(path.as_str(), Style::colored(Color::Purple)));
    }
    assert(row_view(row@) =~= call_head(call@));
    let stats = format_stats(call, elapsed);
    if !stats.as_str().is_empty() {
        let used: usize = pieces_width(&row);
        let stats_width: usize = text::chars_of(stats.as_str()).len();
        let pad: usize = width.saturating_sub(used).saturating_sub(stats_width);
        if pad > 0 {
            push_piece(&mut row, Piece::plain(text::repeat_char(' ', pad).as_str()));
        }
        push_piece(&mut row, Piece::new(stats.as_str(), Style::colored(Color::Meta)));
    }
    row
}

/// The lines of a tool's output that do not belong to a difference.
pub open spec fn other_lines(ls: Seq<Seq<char>>) -> Seq<Seq<char>>
    decreases ls.len(),
{
    if ls.len() == 0 {
        Seq::empty()
    } else if diff_source(ls.last()) {
        other_lines(ls.drop_last())
    } else {
        other_lines(ls.drop_last()).push(ls.last())
    }
}

/// The lines of a tool's output that are listed.
pub open spec fn listed_lines(call: CallView) -> Seq<Seq<char>> {
    if call.diff.len() > 0 {
        other_lines(lines(call.output))
    } else {
        lines(call.output)
    }
}

/// The number of lines that are shown of `total`.
pub open spec fn shown_count(total: nat, expanded: bool) -> nat {
    if !expanded && total > TOOL_FOLD_LINES {
        TOOL_FOLD_LINES as nat
    } else if total > TOOL_MAX_LINES {
        TOOL_MAX_LINES as nat
    } else {
        total
    }
}

/// Lines of a tool's output as they are drawn, without the blank ones.
pub open spec fn line_rows(ls: Seq<Seq<char>>) -> Seq<Seq<PieceView>>
    decreases ls.len(),
{
    if ls.len() == 0 {
        Seq::empty()
    } else if trim(ls.last()).len() == 0 {
        line_rows(ls.drop_last())
    } else {
        line_rows(ls.drop_last()).push(seq![piece("  │ "@ + ls.last(), colored(Color::Meta))])
    }
}

/// The output of a tool call that has ended.
pub open spec fn output_rows(call: CallView, expanded: bool) -> Seq<Seq<PieceView>> {
    let ls = listed_lines(call);
    let shown = line_rows(ls.take(shown_count(ls.len(), expanded) as int));
    if call.status == ToolStatus::Running || trim(call.output).len() == 0 {
        Seq::empty()
    } else if !expanded && ls.len() > TOOL_FOLD_LINES {
        shown.push(
            fold_row((ls.len() - TOOL_FOLD_LINES) as nat, " more lines · Tab to expand"@),
        )
    } else if ls.len() > TOOL_MAX_LINES {
        shown.push(fold_row((ls.len() - TOOL_MAX_LINES) as nat, " more lines (truncated)"@))
    } else {
        shown
    }
}

/// The difference that a tool call shows.
pub open spec fn diff_rows(diff: Seq<DiffView>, expanded: bool) -> Seq<Seq<PieceView>> {
    if !expanded && diff.len() > TOOL_FOLD_LINES {
        Seq::new(TOOL_FOLD_LINES as nat, |i: int| diff_row(diff[i], diff)).push(
            fold_row((diff.len() - TOOL_FOLD_LINES) as nat, " more diff lines · Tab to expand"@),
        )
    } else {
        Seq::new(diff.len(), |i: int| diff_row(diff[i], diff))
    }
}

/// A tool call: its head, its output and its difference.
pub open spec fn call_rows(call: CallView, elapsed: Seq<char>, expanded: bool, width: nat) -> Seq<
    Seq<PieceView>,
> {
    seq![call_row(call, elapsed, width)] + output_rows(call, expanded) + diff_rows(
        call.diff,
        expanded,
    )
}

/// The lines of a tool's output that are listed.
fn list_lines(call: &ToolCallMsg) -> (r: Vec<Vec<char>>)
    ensures
        rows(r@) == listed_lines(call@),
{
    let ls = text::lines_of(text::chars_of(call.output.as_str()).as_slice());
    assert(call@.diff.len() == call.diff@.len());
    if call.diff.len() == 0 {
        return ls;
    }
    let ghost all = rows(ls@);
    let mut kept: Vec<Vec<char>> = Vec::new();
    let mut i: usize = 0;
    assert(rows(kept@) =~= Seq::empty());
    while i < ls.len()
        invariant
            i <= ls@.len(),
            all == rows(ls@),
            rows(kept@) == other_lines(all.take(i as int)),
        decreases ls@.len() - i,
    {
        proof {
            assert(all.take(i + 1).drop_last() =~= all.take(i as int));
            assert(all.take(i + 1).last() == ls@[i as int]@);
        }
        if !is_diff_source_line(ls[i].as_slice()) {
            let ghost before = rows(kept@);
            let line = text::part(ls[i].as_slice(), 0, ls[i].len());
            assert(line@ =~= ls@[i as int]@);
            kept.push(line);
            assert(rows(kept@) =~= before.push(line@));
        }
        i += 1;
    }
    assert(all.take(i as int) =~= all);
    kept
}

/// Appends the output of a tool call.
fn push_output_rows(out: &mut Vec<Vec<Piece>>, call: &ToolCallMsg, expanded: bool)
    ensures
        rows_view(final(out)@) == rows_view(old(out)@) + output_rows(call@, expanded),
{
    let ghost start = rows_view(out@);
    let ghost goal = output_rows(call@, expanded);
    if call.status == ToolStatus::Running || text::trimmed(
        text::chars_of(call.output.as_str()).as_slice(),
    ).len() == 0 {
        assert(start + goal =~= start);
        return ;
    }
    let ls = list_lines(call);
    let ghost all = rows(ls@);
    let total: usize = ls.len();
    assert(all.len() == total);
    let folded = !expanded && total > TOOL_FOLD_LINES;
    let count: usize = if folded {
        TOOL_FOLD_LINES
    } else if total > TOOL_MAX_LINES {
        TOOL_MAX_LINES
    } else {
        total
    };
    let mut i: usize = 0;
    assert(start + line_rows(all.take(0)) =~= start);
    while i < count
        invariant
            i <= count <= ls@.len(),
            all == rows(ls@),
            rows_view(out@) == start + line_rows(all.take(i as int)),
        decreases count - i,
    {
        proof {
            assert(all.take(i + 1).drop_last() =~= all.take(i as int));
            assert(all.take(i + 1).last() == ls@[i as int]@);
        }
        if text::trimmed(ls[i].as_slice()).len() > 0 {
            let line = text::glue("  │ ", text::string_of(ls[i].as_slice()).as_str());
            push_row(out, layout::one(Piece::new(line.as_str(), Style::colored(Color::Meta))));
            assert(rows_view(out@) =~= start + line_rows(all.take(i + 1)));
        }
        i += 1;
    }
    if folded {
        push_row(out, fold_note(total - TOOL_FOLD_LINES, " more lines · Tab to expand"));
    } else if total > TOOL_MAX_LINES {
        push_row(out, fold_note(total - TOOL_MAX_LINES, " more lines (truncated)"));
    }
    assert(rows_view(out@) =~= start + goal);
}

/// Appends the difference that a tool call shows.
fn push_diff_rows(out: &mut Vec<Vec<Piece>>, diff: &Vec<DiffLine>, expanded: bool)
    ensures
        rows_view(final(out)@) == rows_view(old(out)@) + diff_rows(diff_view(diff@), expanded),
{
    let ghost start = rows_view(out@);
    let ghost all = diff_view(diff@);
    let ghost goal = diff_rows(all, expanded);
    let total: usize = diff.len();
    let folded = !expanded && total > TOOL_FOLD_LINES;
    let count: usize = if folded {
        TOOL_FOLD_LINES
    } else {
        total
    };
    let mut i: usize = 0;
    assert(start + goal.take(0) =~= start);
    while i < count
        invariant
            i <= count <= diff@.len(),
            all == diff_view(diff@),
            goal.len() >= count,
            forall|k: int| 0 <= k < count ==> #[trigger] goal[k] == diff_row(all[k], all),
            rows_view(out@) == start + goal.take(i as int),
        decreases count - i,
    {
        assert(all[i as int] == diff@[i as int]@);
        push_row(out, render_diff_line(&diff[i], diff));
        proof {
            assert(goal.take(i + 1) =~= goal.take(i as int).push(goal[i as int]));
            assert(rows_view(out@) =~= start + goal.take(i + 1));
        }
        i += 1;
    }
    if folded {
        push_row(out, fold_note(total - TOOL_FOLD_LINES, " more diff lines · Tab to expand"));
    }
    assert(rows_view(out@) =~= start + goal);
}

// ---------------------------------------------------------------------------------------------
// The conversation
// ---------------------------------------------------------------------------------------------
/// What the rows of a message depend on besides the message.
pub ghost struct Look {
    pub spinner: char,
    pub expanded: bool,
    pub width: nat,
}

/// A message as it is drawn. `elapsed` is the time of a tool call as it is shown.
pub open spec fn message_rows(
    message: MessageView,
    generating: bool,
    elapsed: Seq<char>,
    look: Look,
) -> Seq<Seq<PieceView>> {
    match message {
        MessageView::User { content, time } => user_rows(content, time, look.width),
        MessageView::Assistant { content, reasoning } => assistant_rows(
            content,
            reasoning,
            assistant_label(generating, look.spinner),
            look.expanded,
            look.width,
        ),
        MessageView::System { content } => styled_rows(
            wrapped(content, look.width as int),
            Seq::empty(),
            italic(Color::Meta),
        ),
        MessageView::Summary(summary) => seq![
            seq![piece("✦ "@, colored(Color::Pink)), piece(summary, bold(Color::Text))],
        ],
        MessageView::ToolCall(call) => call_rows(call, elapsed, look.expanded, look.width),
    }
}

/// The first `n` messages as they are drawn.
pub open spec fn conversation_rows(
    messages: Seq<MessageView>,
    streaming: Option<usize>,
    elapsed: Seq<Seq<char>>,
    look: Look,
    n: int,
) -> Seq<Seq<PieceView>>
    decreases n,
{
    if n <= 0 {
        Seq::empty()
    } else {
        conversation_rows(messages, streaming, elapsed, look, n - 1) + message_rows(
            messages[n - 1],
            streaming == Some((n - 1) as usize),
            elapsed[n - 1],
            look,
        )
    }
}

/// How the state of the screen and its width make messages look.
pub open spec fn look_of(ui: UiState, width: nat) -> Look {
    Look {
        spinner: spinner_frames()[(ui.spinner_index % SPINNER_LEN) as int],
        expanded: ui.fold_expanded,
        width,
    }
}

/// Appends a message.
fn push_message_rows(
    out: &mut Vec<Vec<Piece>>,
    ui: &UiState,
    index: usize,
    elapsed: &str,
    width: usize,
)
    requires
        width > 2,
        index < ui.messages@.len(),
    ensures
        rows_view(final(out)@) == rows_view(old(out)@) + message_rows(
            ui.messages@[index as int]@,
            ui.streaming == Some(index),
            elapsed@,
            look_of(*ui, width as nat),
        ),
{
    let ghost start = rows_view(out@);
    match &ui.messages[index] {
        UiMessage::User { content, time } => {
            push_user_rows(out, content.as_str(), time.as_str(), width);
        },
        UiMessage::Assistant { content, reasoning } => {
            let generating = match ui.streaming {
                Some(i) => i == index,
                None => false,
            };
            let label = if generating {
                let mut s = " Agent · Thinking ".to_owned();
                s.push(ui.spinner());
                s
            } else {
                " Agent".to_owned()
            };
            push_assistant_rows(
                out,
                content.as_str(),
                reasoning.as_str(),
                label.as_str(),
                ui.fold_expanded,
                width,
            );
        },
        UiMessage::System { content } => {
            let ls = layout::wrap_text(content.as_str(), width);
            let total: usize = ls.len();
            assert(views(ls@).take(total as int) =~= views(ls@));
            proof {
                reveal_strlit("");
                assert(""@ =~= Seq::<char>::empty());
            }
            push_lines(out, &ls, total, "", Style::italic(Color::Meta));
        },
        UiMessage::Summary(summary) => {
            push_row(
                out,
                layout::two(
                    Piece::new("✦ ", Style::colored(Color::Pink)),
                    Piece::new(summary.as_str(), Style::bold(Color::Text)),
                ),
            );
            assert(rows_view(out@) =~= start + message_rows(
                ui.messages@[index as int]@,
                ui.streaming == Some(index),
                elapsed@,
                look_of(*ui, width as nat),
            ));
        },
        UiMessage::ToolCall(call) => {
            push_row(out, draw_call_row(call, elapsed, width));
            push_output_rows(out, call, ui.fold_expanded);
            push_diff_rows(out, &call.diff, ui.fold_expanded);
            assert(rows_view(out@) =~= start + call_rows(
                call@,
                elapsed@,
                ui.fold_expanded,
                width as nat,
            ));
        },
    }
}

/// The conversation as rows of `width` columns. `elapsed` holds, for each message, the time of its
/// tool call as it is shown.
pub fn render_rows(ui: &UiState, width: usize, elapsed: &Vec<String>) -> (r: Vec<Vec<Piece>>)
    requires
        width > 2,
        elapsed@.len() == ui.messages@.len(),
    ensures
        rows_view(r@) == conversation_rows(
            messages_view(ui.messages@),
            ui.streaming,
            views(elapsed@),
            look_of(*ui, width as nat),
            ui.messages@.len() as int,
        ),
{
    let ghost all = messages_view(ui.messages@);
    let ghost look = look_of(*ui, width as nat);
    let mut out: Vec<Vec<Piece>> = Vec::new();
    let total: usize = ui.messages.len();
    let mut i: usize = 0;
    assert(rows_view(out@) =~= Seq::empty());
    while i < total
        invariant
            i <= total,
            total == ui.messages@.len(),
            width > 2,
            elapsed@.len() == ui.messages@.len(),
            all == messages_view(ui.messages@),
            look == look_of(*ui, width as nat),
            rows_view(out@) == conversation_rows(
                all,
                ui.streaming,
                views(elapsed@),
                look,
                i as int,
            ),
        decreases total - i,
    {
        assert(all[i as int] == ui.messages@[i as int]@);
        assert(views(elapsed@)[i as int] == elapsed@[i as int]@);
        push_message_rows(&mut out, ui, i, elapsed[i].as_str(), width);
        i += 1;
    }
    out
}

} // verus!
