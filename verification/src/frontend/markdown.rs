//! A small dialect of Markdown, as the assistant writes it: paragraphs, headings, list items,
//! fenced code blocks, tables and inline emphasis.

use crate::text;
use crate::text::{has_prefix, join, rows, split, trim, trim_end_char, trim_start_char};
use vstd::prelude::*;
use vstd::utf8::encode_utf8;

verus! {

/// How a run of text is set off.
#[derive(Debug, Clone, Copy, PartialEq, Eq, Structural)]
pub enum SpanKind {
    Normal,
    Bold,
    Italic,
    Dim,
    Code,
    Strike,
}

/// A run of text of one kind.
#[derive(Debug, Clone, PartialEq)]
pub struct Span {
    pub text: String,
    pub kind: SpanKind,
}

/// Where the text of a table column stands.
#[derive(Debug, Clone, Copy, PartialEq, Eq, Structural)]
pub enum Align {
    Left,
    Center,
    Right,
}

/// A row of a table: its header, the rule below the header, or a body row.
#[derive(Debug, Clone, PartialEq)]
pub struct TableRow {
    pub header: bool,
    pub separator: bool,
    pub align: Vec<Align>,
    pub cells: Vec<Vec<Span>>,
}

/// A block of a document: a line of text, a heading, a list item, a code block or a table.
#[derive(Debug, Clone, PartialEq)]
pub struct Line {
    pub spans: Vec<Span>,
    pub code_block: bool,
    pub heading: bool,
    pub list_item: bool,
    pub table: Option<Vec<TableRow>>,
}

/// A `Span` with its text as characters.
pub ghost struct SpanView {
    pub text: Seq<char>,
    pub kind: SpanKind,
}

/// A `TableRow` with its cells as spans of characters.
pub ghost struct RowView {
    pub header: bool,
    pub separator: bool,
    pub align: Seq<Align>,
    pub cells: Seq<Seq<SpanView>>,
}

/// A `Line` with its contents as spans of characters.
pub ghost struct LineView {
    pub spans: Seq<SpanView>,
    pub code_block: bool,
    pub heading: bool,
    pub list_item: bool,
    pub table: Option<Seq<RowView>>,
}

impl View for Span {
    type V = SpanView;

    open spec fn view(&self) -> SpanView {
        SpanView { text: self.text@, kind: self.kind }
    }
}

/// The views of a row of spans.
pub open spec fn spans_view(spans: Seq<Span>) -> Seq<SpanView> {
    Seq::new(spans.len(), |i: int| spans[i]@)
}

/// The views of the cells of a table row.
pub open spec fn cells_view(cells: Seq<Vec<Span>>) -> Seq<Seq<SpanView>> {
    Seq::new(cells.len(), |i: int| spans_view(cells[i]@))
}

impl View for TableRow {
    type V = RowView;

    open spec fn view(&self) -> RowView {
        RowView {
            header: self.header,
            separator: self.separator,
            align: self.align@,
            cells: cells_view(self.cells@),
        }
    }
}

/// The views of the rows of a table.
pub open spec fn table_view(table: Seq<TableRow>) -> Seq<RowView> {
    Seq::new(table.len(), |i: int| table[i]@)
}

impl View for Line {
    type V = LineView;

    open spec fn view(&self) -> LineView {
        LineView {
            spans: spans_view(self.spans@),
            code_block: self.code_block,
            heading: self.heading,
            list_item: self.list_item,
            table: match self.table {
                Some(table) => Some(table_view(table@)),
                None => None,
            },
        }
    }
}

/// The views of the lines of a document.
pub open spec fn lines_view(lines: Seq<Line>) -> Seq<LineView> {
    Seq::new(lines.len(), |i: int| lines[i]@)
}

// ---------------------------------------------------------------------------------------------
// Inline text
// ---------------------------------------------------------------------------------------------
/// A marker switches its kind on, or off again where it is on.
pub open spec fn toggled(current: SpanKind, target: SpanKind) -> SpanKind {
    if current == target {
        SpanKind::Normal
    } else {
        target
    }
}

/// The run collected so far, as a span if it is not empty.
pub open spec fn flushed(current: Seq<char>, kind: SpanKind) -> Seq<SpanView> {
    if current.len() == 0 {
        Seq::empty()
    } else {
        seq![SpanView { text: current, kind }]
    }
}

/// The position of the next backtick from `i` on, or the end of the text.
pub open spec fn code_end(s: Seq<char>, i: int) -> int
    decreases s.len() - i,
{
    if i >= s.len() {
        s.len() as int
    } else if s[i] == '`' {
        i
    } else {
        code_end(s, i + 1)
    }
}

/// The spans of `s` from position `i` on, where `current` has been collected in the kind `kind`.
/// Backticks enclose code; `**` switches bold, `*` italic and `~~` strikethrough; a single tilde is
/// text.
pub open spec fn inline(s: Seq<char>, i: int, current: Seq<char>, kind: SpanKind) -> Seq<SpanView>
    decreases s.len() + 1 - i,
    when 0 <= i
    via inline_decreases
{
    if i >= s.len() {
        flushed(current, kind)
    } else if s[i] == '`' {
        let end = code_end(s, i + 1);
        let code = SpanView { text: s.subrange(i + 1, end), kind: SpanKind::Code };
        flushed(current, kind).push(code) + inline(s, end + 1, Seq::empty(), SpanKind::Normal)
    } else if s[i] == '*' {
        if i + 1 < s.len() && s[i + 1] == '*' {
            flushed(current, kind) + inline(s, i + 2, Seq::empty(), toggled(kind, SpanKind::Bold))
        } else {
            flushed(current, kind) + inline(s, i + 1, Seq::empty(), toggled(kind, SpanKind::Italic))
        }
    } else if s[i] == '~' && i + 1 < s.len() && s[i + 1] == '~' {
        flushed(current, kind) + inline(s, i + 2, Seq::empty(), toggled(kind, SpanKind::Strike))
    } else {
        inline(s, i + 1, current.push(s[i]), kind)
    }
}

#[via_fn]
proof fn inline_decreases(s: Seq<char>, i: int, current: Seq<char>, kind: SpanKind) {
    if i < s.len() {
        code_end_bounds(s, i + 1);
    }
}

/// The end of a code span lies between its beginning and the end of the text.
pub proof fn code_end_bounds(s: Seq<char>, i: int)
    requires
        0 <= i <= s.len(),
    ensures
        i <= code_end(s, i) <= s.len(),
    decreases s.len() - i,
{
    if i < s.len() && s[i] != '`' {
        code_end_bounds(s, i + 1);
    }
}

/// A marker switches its kind on, or off again where it is on.
pub fn toggle(current: SpanKind, target: SpanKind) -> (r: SpanKind)
    ensures
        r == toggled(current, target),
{
    if current == target {
        SpanKind::Normal
    } else {
        target
    }
}

/// Moves the run collected so far, if it is not empty, to the spans.
pub fn flush(spans: &mut Vec<Span>, current: &mut Vec<char>, kind: SpanKind)
    ensures
        spans_view(final(spans)@) == spans_view(old(spans)@) + flushed(old(current)@, kind),
        final(current)@.len() == 0,
{
    let ghost before = spans_view(spans@);
    if current.len() > 0 {
        let span = Span { text: text::string_of(current.as_slice()), kind };
        spans.push(span);
        assert(spans_view(spans@) =~= before + flushed(old(current)@, kind));
        current.clear();
    }
}

/// The spans of a line of text.
pub fn parse_inline(text: &[char]) -> (r: Vec<Span>)
    ensures
        spans_view(r@) == inline(text@, 0, Seq::empty(), SpanKind::Normal),
{
    let mut spans: Vec<Span> = Vec::new();
    let mut current: Vec<char> = Vec::new();
    let mut kind = SpanKind::Normal;
    let mut i: usize = 0;
    let ghost whole = inline(text@, 0, Seq::empty(), SpanKind::Normal);
    assert(spans_view(spans@) + whole =~= whole);
    while i < text.len()
        invariant
            i <= text.len(),
            whole == spans_view(spans@) + inline(text@, i as int, current@, kind),
        decreases text.len() - i,
    {
        let c: char = text[i];
        let ghost before = spans_view(spans@);
        let ghost run = current@;
        let ghost old_kind = kind;
        if c == '`' {
            flush(&mut spans, &mut current, kind);
            let start: usize = i + 1;
            let mut end: usize = start;
            while end < text.len() && text[end] != '`'
                invariant
                    start <= end <= text.len(),
                    code_end(text@, start as int) == code_end(text@, end as int),
                decreases text.len() - end,
            {
                end += 1;
            }
            let code = text::part(text, start, end);
            let ghost mid = spans_view(spans@);
            let span = Span { text: text::string_of(code.as_slice()), kind: SpanKind::Code };
            spans.push(span);
            assert(spans_view(spans@) =~= mid.push(span@));
            kind = SpanKind::Normal;
            proof {
                let rest = inline(text@, end + 1, Seq::empty(), SpanKind::Normal);
                assert(current@ =~= Seq::<char>::empty());
                assert(before + (flushed(run, old_kind).push(span@) + rest) =~= spans_view(spans@)
                    + rest);
            }
            if end < text.len() {
                i = end + 1;
            } else {
                assert(inline(text@, end + 1, Seq::empty(), SpanKind::Normal) =~= inline(
                    text@,
                    end as int,
                    Seq::empty(),
                    SpanKind::Normal,
                ));
                i = end;
            }
        } else if c == '*' {
            flush(&mut spans, &mut current, kind);
            assert(current@ =~= Seq::<char>::empty());
            if i + 1 < text.len() && text[i + 1] == '*' {
                kind = toggle(kind, SpanKind::Bold);
                i += 2;
            } else {
                kind = toggle(kind, SpanKind::Italic);
                i += 1;
            }
            proof {
                let rest = inline(text@, i as int, Seq::empty(), kind);
                assert(before + (flushed(run, old_kind) + rest) =~= (before + flushed(
                    run,
                    old_kind,
                )) + rest);
            }
        } else if c == '~' && i + 1 < text.len() && text[i + 1] == '~' {
            flush(&mut spans, &mut current, kind);
            assert(current@ =~= Seq::<char>::empty());
            kind = toggle(kind, SpanKind::Strike);
            i += 2;
            proof {
                let rest = inline(text@, i as int, Seq::empty(), kind);
                assert(before + (flushed(run, old_kind) + rest) =~= (before + flushed(
                    run,
                    old_kind,
                )) + rest);
            }
        } else {
            current.push(c);
            i += 1;
        }
    }
    flush(&mut spans, &mut current, kind);
    spans
}

// ---------------------------------------------------------------------------------------------
// Tables
// ---------------------------------------------------------------------------------------------
/// Whether a trimmed line can be a row of a table: it begins with a bar and is longer than two
/// bytes.
pub open spec fn table_row(s: Seq<char>) -> bool {
    s.len() > 0 && s[0] == '|' && encode_utf8(s).len() > 2
}

/// A table row without the bars at its ends.
pub open spec fn row_inner(s: Seq<char>) -> Seq<char> {
    trim_end_char(trim_start_char(s, '|'), '|')
}

/// Whether a cell of the rule below a table's header is well formed.
pub open spec fn rule_cell(cell: Seq<char>) -> bool {
    &&& trim(cell).len() > 0
    &&& forall|i: int|
        0 <= i < trim(cell).len() ==> {
            ||| #[trigger] trim(cell)[i] == '-'
            ||| trim(cell)[i] == ':'
            ||| trim(cell)[i] == ' '
        }
}

/// Whether a trimmed line is the rule below a table's header.
pub open spec fn separator_row(s: Seq<char>) -> bool {
    &&& s.len() > 0 && s[0] == '|'
    &&& row_inner(s).len() > 0
    &&& forall|i: int|
        0 <= i < split(row_inner(s), '|').len() ==> rule_cell(#[trigger] split(row_inner(s), '|')[i])
}

/// The cells of a table row.
pub open spec fn row_cells(s: Seq<char>) -> Seq<Seq<SpanView>> {
    let cells = split(row_inner(s), '|');
    Seq::new(cells.len(), |i: int| inline(trim(cells[i]), 0, Seq::empty(), SpanKind::Normal))
}

/// The alignment that a cell of the rule asks for.
pub open spec fn cell_align(cell: Seq<char>) -> Align {
    let left = cell.len() > 0 && cell[0] == ':';
    let right = cell.len() > 0 && cell.last() == ':';
    if left && right {
        Align::Center
    } else if right {
        Align::Right
    } else {
        Align::Left
    }
}

/// The alignments of `columns` columns under the rule `s`; a column beyond the rule is set left.
pub open spec fn aligns(s: Seq<char>, columns: nat) -> Seq<Align> {
    let cells = split(row_inner(s), '|');
    Seq::new(
        columns,
        |i: int|
            if i < cells.len() {
                cell_align(trim(cells[i]))
            } else {
                Align::Left
            },
    )
}

/// A table row without the bars at its ends.
fn inner_of(trimmed: &[char]) -> (r: Vec<char>)
    ensures
        r@ == row_inner(trimmed@),
{
    text::trimmed_end_char(text::trimmed_start_char(trimmed, '|').as_slice(), '|')
}

/// Whether a trimmed line can be a row of a table.
pub fn is_table_row(trimmed: &[char]) -> (r: bool)
    ensures
        r == table_row(trimmed@),
{
    if trimmed.len() == 0 || trimmed[0] != '|' {
        return false;
    }
    let s = text::string_of(trimmed);
    s.as_str().as_bytes().len() > 2
}

/// Whether a trimmed line is the rule below a table's header.
pub fn is_separator_row(trimmed: &[char]) -> (r: bool)
    ensures
        r == separator_row(trimmed@),
{
    if trimmed.len() == 0 || trimmed[0] != '|' {
        return false;
    }
    let inner = inner_of(trimmed);
    if inner.len() == 0 {
        return false;
    }
    let cells = text::pieces(inner.as_slice(), '|');
    let ghost all = split(inner@, '|');
    let mut i: usize = 0;
    while i < cells.len()
        invariant
            i <= cells@.len(),
            rows(cells@) == all,
            all == split(row_inner(trimmed@), '|'),
            forall|k: int| 0 <= k < i ==> rule_cell(#[trigger] all[k]),
        decreases cells@.len() - i,
    {
        assert(all[i as int] == cells@[i as int]@);
        let cell = text::trimmed(cells[i].as_slice());
        if cell.len() == 0 {
            assert(!rule_cell(all[i as int]));
            return false;
        }
        let mut j: usize = 0;
        while j < cell.len()
            invariant
                j <= cell@.len(),
                i < cells@.len(),
                rows(cells@) == all,
                all == split(row_inner(trimmed@), '|'),
                cell@ == trim(all[i as int]),
                forall|k: int|
                    0 <= k < j ==> (#[trigger] cell@[k] == '-' || cell@[k] == ':' || cell@[k] == ' '),
            decreases cell@.len() - j,
        {
            if cell[j] != '-' && cell[j] != ':' && cell[j] != ' ' {
                assert(trim(all[i as int])[j as int] == cell@[j as int]);
                assert(!rule_cell(all[i as int]));
                return false;
            }
            j += 1;
        }
        i += 1;
    }
    true
}

/// The cells of a table row.
pub fn split_table_row(trimmed: &[char]) -> (r: Vec<Vec<Span>>)
    ensures
        cells_view(r@) == row_cells(trimmed@),
{
    let inner = inner_of(trimmed);
    let cells = text::pieces(inner.as_slice(), '|');
    let ghost all = split(inner@, '|');
    let mut out: Vec<Vec<Span>> = Vec::new();
    let mut i: usize = 0;
    while i < cells.len()
        invariant
            i <= cells@.len(),
            rows(cells@) == all,
            all == split(row_inner(trimmed@), '|'),
            cells_view(out@) == row_cells(trimmed@).take(i as int),
        decreases cells@.len() - i,
    {
        assert(all[i as int] == cells@[i as int]@);
        let ghost before = cells_view(out@);
        let spans = parse_inline(text::trimmed(cells[i].as_slice()).as_slice());
        out.push(spans);
        assert(cells_view(out@) =~= before.push(spans_view(spans@)));
        assert(row_cells(trimmed@).take(i + 1) =~= row_cells(trimmed@).take(i as int).push(
            row_cells(trimmed@)[i as int],
        ));
        i += 1;
    }
    assert(row_cells(trimmed@).take(i as int) =~= row_cells(trimmed@));
    out
}

/// The alignments of `columns` columns under a rule.
pub fn parse_align(separator: &[char], columns: usize) -> (r: Vec<Align>)
    ensures
        r@ == aligns(separator@, columns as nat),
{
    let inner = inner_of(separator);
    let cells = text::pieces(inner.as_slice(), '|');
    let ghost all = split(inner@, '|');
    let mut out: Vec<Align> = Vec::new();
    let mut i: usize = 0;
    while i < columns
        invariant
            i <= columns,
            rows(cells@) == all,
            all == split(row_inner(separator@), '|'),
            out@ == aligns(separator@, columns as nat).take(i as int),
        decreases columns - i,
    {
        let align = if i < cells.len() {
            assert(all[i as int] == cells@[i as int]@);
            let cell = text::trimmed(cells[i].as_slice());
            let n: usize = cell.len();
            let left = n > 0 && cell[0] == ':';
            let right = n > 0 && cell[n - 1] == ':';
            if left && right {
                Align::Center
            } else if right {
                Align::Right
            } else {
                Align::Left
            }
        } else {
            Align::Left
        };
        out.push(align);
        assert(aligns(separator@, columns as nat).take(i + 1) =~= aligns(
            separator@,
            columns as nat,
        ).take(i as int).push(align));
        i += 1;
    }
    assert(aligns(separator@, columns as nat).take(i as int) =~= aligns(
        separator@,
        columns as nat,
    ));
    out
}

// ---------------------------------------------------------------------------------------------
// Blocks
// ---------------------------------------------------------------------------------------------
/// The fence that opens and closes a code block.
pub open spec fn is_fence(raw: Seq<char>) -> bool {
    has_prefix(trim(raw), "```"@)
}

/// The text of a heading; empty where the line is none.
pub open spec fn heading_text(raw: Seq<char>) -> Seq<char> {
    let s = trim(raw);
    if s.len() > 0 && s[0] == '#' {
        trim(trim_start_char(s, '#'))
    } else {
        Seq::empty()
    }
}

/// Whether a table begins at line `i`: a row with a rule below it.
pub open spec fn table_at(ls: Seq<Seq<char>>, i: int) -> bool {
    table_row(trim(ls[i])) && i + 1 < ls.len() && separator_row(trim(ls[i + 1]))
}

/// The first line from `i` on that is not a table row.
pub open spec fn table_end(ls: Seq<Seq<char>>, i: int) -> int
    decreases ls.len() - i,
{
    if i < ls.len() && table_row(trim(ls[i])) {
        table_end(ls, i + 1)
    } else {
        i
    }
}

/// The block of a code block with the given lines, if it has any.
pub open spec fn code_block(buf: Seq<Seq<char>>) -> Seq<LineView> {
    if buf.len() == 0 {
        Seq::empty()
    } else {
        seq![
            LineView {
                spans: seq![SpanView { text: join(buf, seq!['\n']), kind: SpanKind::Code }],
                code_block: true,
                heading: false,
                list_item: false,
                table: None,
            },
        ]
    }
}

/// The block of a heading.
pub open spec fn heading_line(text: Seq<char>) -> LineView {
    LineView {
        spans: seq![SpanView { text, kind: SpanKind::Bold }],
        code_block: false,
        heading: true,
        list_item: false,
        table: None,
    }
}

/// The block of the table whose header is line `i` and whose body ends before line `end`.
pub open spec fn table_line(ls: Seq<Seq<char>>, i: int, end: int) -> LineView {
    let header = row_cells(trim(ls[i]));
    let align = aligns(trim(ls[i + 1]), header.len());
    LineView {
        spans: Seq::empty(),
        code_block: false,
        heading: false,
        list_item: false,
        table: Some(
            seq![
                RowView { header: true, separator: false, align, cells: header },
                RowView { header: false, separator: true, align, cells: Seq::empty() },
            ] + Seq::new(
                (end - (i + 2)) as nat,
                |k: int|
                    RowView {
                        header: false,
                        separator: false,
                        align,
                        cells: row_cells(trim(ls[i + 2 + k])),
                    },
            ),
        ),
    }
}

/// Whether a trimmed line is a list item.
pub open spec fn is_list_item(s: Seq<char>) -> bool {
    has_prefix(s, "- "@) || has_prefix(s, "* "@)
}

/// The block of a line of text or a list item.
pub open spec fn text_line(raw: Seq<char>) -> LineView {
    let s = trim(raw);
    let body = if is_list_item(s) {
        s.skip(2)
    } else {
        s
    };
    LineView {
        spans: inline(body, 0, Seq::empty(), SpanKind::Normal),
        code_block: false,
        heading: false,
        list_item: is_list_item(s),
        table: None,
    }
}

/// The blocks of the lines from `i` on. `code` holds the lines collected inside an open code
/// block.
pub open spec fn blocks(ls: Seq<Seq<char>>, i: int, code: Option<Seq<Seq<char>>>) -> Seq<LineView>
    decreases ls.len() - i,
    via blocks_decreases
{
    if i >= ls.len() {
        match code {
            Some(buf) => code_block(buf),
            None => Seq::empty(),
        }
    } else if is_fence(ls[i]) {
        match code {
            Some(buf) => code_block(buf) + blocks(ls, i + 1, None),
            None => blocks(ls, i + 1, Some(Seq::empty())),
        }
    } else if code is Some {
        blocks(ls, i + 1, Some(code->0.push(ls[i])))
    } else if heading_text(ls[i]).len() > 0 {
        seq![heading_line(heading_text(ls[i]))] + blocks(ls, i + 1, None)
    } else if table_at(ls, i) {
        let end = table_end(ls, i + 2);
        seq![table_line(ls, i, end)] + blocks(ls, end, None)
    } else {
        seq![text_line(ls[i])] + blocks(ls, i + 1, None)
    }
}

#[via_fn]
proof fn blocks_decreases(ls: Seq<Seq<char>>, i: int, code: Option<Seq<Seq<char>>>) {
    table_end_bounds(ls, i + 2);
}

/// A table's end does not lie before its body.
pub proof fn table_end_bounds(ls: Seq<Seq<char>>, i: int)
    ensures
        i <= table_end(ls, i),
        i <= ls.len() ==> table_end(ls, i) <= ls.len(),
    decreases ls.len() - i,
{
    if i < ls.len() && table_row(trim(ls[i])) {
        table_end_bounds(ls, i + 1);
    }
}

/// The blocks of a document.
pub open spec fn document(s: Seq<char>) -> Seq<LineView> {
    blocks(split(s, '\n'), 0, None)
}

/// Closes a code block: its lines become one block, if there are any.
fn close_code(out: &mut Vec<Line>, buf: &Vec<Vec<char>>)
    ensures
        lines_view(final(out)@) == lines_view(old(out)@) + code_block(rows(buf@)),
{
    let ghost before = lines_view(out@);
    if buf.len() > 0 {
        let mut newline: Vec<char> = Vec::new();
        newline.push('\n');
        assert(newline@ =~= seq!['\n']);
        let span = Span {
            text: text::string_of(text::joined(buf, newline.as_slice()).as_slice()),
            kind: SpanKind::Code,
        };
        let mut spans: Vec<Span> = Vec::new();
        spans.push(span);
        assert(spans_view(spans@) =~= seq![span@]);
        let line = Line { spans, code_block: true, heading: false, list_item: false, table: None };
        out.push(line);
        assert(lines_view(out@) =~= before + seq![line@]);
    }
    assert(lines_view(out@) =~= before + code_block(rows(buf@)));
}

/// The table whose header is line `i`, and the first line below it.
fn parse_table(ls: &Vec<Vec<char>>, i: usize) -> (r: (Line, usize))
    requires
        i < ls@.len(),
        table_at(rows(ls@), i as int),
    ensures
        r.0@ == table_line(rows(ls@), i as int, table_end(rows(ls@), i + 2)),
        r.1 == table_end(rows(ls@), i + 2),
        i < r.1 <= ls@.len(),
{
    let ghost all = rows(ls@);
    let total: usize = ls.len();
    assert(all[i as int] == ls@[i as int]@);
    assert(i + 1 < total && all[i + 1] == ls@[i + 1]@);
    let header_cells = split_table_row(text::trimmed(ls[i].as_slice()).as_slice());
    let rule = text::trimmed(ls[i + 1].as_slice());
    let columns: usize = header_cells.len();
    let mut table: Vec<TableRow> = Vec::new();
    let ghost header = row_cells(trim(all[i as int]));
    let ghost align = aligns(trim(all[i + 1]), header.len());
    assert(cells_view(header_cells@).len() == header_cells@.len());
    let first = TableRow {
        header: true,
        separator: false,
        align: parse_align(rule.as_slice(), columns),
        cells: header_cells,
    };
    let second = TableRow {
        header: false,
        separator: true,
        align: parse_align(rule.as_slice(), columns),
        cells: Vec::new(),
    };
    table.push(first);
    table.push(second);
    let ghost full = table_line(all, i as int, table_end(all, i + 2)).table->0;
    assert(second@.cells =~= Seq::empty());
    assert(table_view(table@) =~= full.take(2)) by {
        table_end_bounds(all, i + 2);
    }
    let mut at: usize = i + 2;
    while at < ls.len() && is_table_row(text::trimmed(ls[at].as_slice()).as_slice())
        invariant
            all == rows(ls@),
            i + 2 <= at <= ls@.len(),
            columns == header.len(),
            rule@ == trim(all[i + 1]),
            align == aligns(trim(all[i + 1]), header.len()),
            header == row_cells(trim(all[i as int])),
            table_end(all, i + 2) == table_end(all, at as int),
            full == table_line(all, i as int, table_end(all, i + 2)).table->0,
            table_view(table@) == full.take(at - i),
        decreases ls@.len() - at,
    {
        assert(all[at as int] == ls@[at as int]@);
        let ghost before = table_view(table@);
        let row = TableRow {
            header: false,
            separator: false,
            align: parse_align(rule.as_slice(), columns),
            cells: split_table_row(text::trimmed(ls[at].as_slice()).as_slice()),
        };
        table.push(row);
        assert(table_view(table@) =~= before.push(row@));
        proof {
            table_end_bounds(all, at + 1);
            assert(full[at - i] == row@);
            assert(full.take(at + 1 - i) =~= full.take(at - i).push(full[at - i]));
        }
        at += 1;
    }
    proof {
        assert(at < all.len() ==> all[at as int] == ls@[at as int]@);
        assert(table_end(all, at as int) == at);
        assert(full.take(at - i) =~= full);
    }
    let line = Line {
        spans: Vec::new(),
        code_block: false,
        heading: false,
        list_item: false,
        table: Some(table),
    };
    assert(line@.spans =~= Seq::empty());
    (line, at)
}

/// The line of text or the list item of a raw line.
fn parse_text(raw: &[char]) -> (r: Line)
    ensures
        r@ == text_line(raw@),
{
    let trimmed = text::trimmed(raw);
    let list_item = text::starts_with(trimmed.as_slice(), "- ") || text::starts_with(
        trimmed.as_slice(),
        "* ",
    );
    let spans = if list_item {
        proof {
            reveal_strlit("- ");
            reveal_strlit("* ");
            assert(trimmed@.skip(2) =~= trimmed@.subrange(2, trimmed@.len() as int));
        }
        parse_inline(text::part(trimmed.as_slice(), 2, trimmed.len()).as_slice())
    } else {
        parse_inline(trimmed.as_slice())
    };
    Line { spans, code_block: false, heading: false, list_item, table: None }
}

/// The blocks of a document.
pub fn parse(text: &str) -> (r: Vec<Line>)
    ensures
        lines_view(r@) == document(text@),
{
    let ls = text::pieces(text::chars_of(text).as_slice(), '\n');
    let ghost all = split(text@, '\n');
    let mut out: Vec<Line> = Vec::new();
    let mut in_code = false;
    let mut buf: Vec<Vec<char>> = Vec::new();
    let mut i: usize = 0;
    assert(lines_view(out@) + document(text@) =~= document(text@));
    while i < ls.len()
        invariant
            i <= ls@.len(),
            rows(ls@) == all,
            document(text@) == lines_view(out@) + blocks(
                all,
                i as int,
                if in_code {
                    Some(rows(buf@))
                } else {
                    None
                },
            ),
            !in_code ==> buf@.len() == 0,
        decreases ls@.len() - i,
    {
        assert(all[i as int] == ls@[i as int]@);
        let ghost before = lines_view(out@);
        let trimmed = text::trimmed(ls[i].as_slice());
        if text::starts_with(trimmed.as_slice(), "```") {
            if in_code {
                let ghost block = code_block(rows(buf@));
                close_code(&mut out, &buf);
                buf = Vec::new();
                in_code = false;
                proof {
                    let rest = blocks(all, i + 1, None);
                    assert(before + (block + rest) =~= (before + block) + rest);
                }
            } else {
                in_code = true;
                assert(rows(buf@) =~= Seq::empty());
            }
            i += 1;
        } else if in_code {
            let ghost lines = rows(buf@);
            let copy = text::part(ls[i].as_slice(), 0, ls[i].len());
            assert(copy@ =~= all[i as int]);
            buf.push(copy);
            assert(rows(buf@) =~= lines.push(all[i as int]));
            i += 1;
        } else {
            let heading = if trimmed.len() > 0 && trimmed[0] == '#' {
                text::trimmed(text::trimmed_start_char(trimmed.as_slice(), '#').as_slice())
            } else {
                Vec::new()
            };
            assert(heading@ =~= heading_text(all[i as int]));
            assert(i + 1 < all.len() ==> all[i + 1] == ls@[i + 1]@);
            if heading.len() > 0 {
                let span = Span { text: text::string_of(heading.as_slice()), kind: SpanKind::Bold };
                let mut spans: Vec<Span> = Vec::new();
                spans.push(span);
                assert(spans_view(spans@) =~= seq![span@]);
                let line = Line {
                    spans,
                    code_block: false,
                    heading: true,
                    list_item: false,
                    table: None,
                };
                out.push(line);
                proof {
                    let rest = blocks(all, i + 1, None);
                    assert(line@ == heading_line(heading_text(all[i as int])));
                    assert(before + (seq![line@] + rest) =~= lines_view(out@) + rest);
                }
                i += 1;
            } else if is_table_row(trimmed.as_slice()) && i + 1 < ls.len() && is_separator_row(
                text::trimmed(ls[i + 1].as_slice()).as_slice(),
            ) {
                let (line, end) = parse_table(&ls, i);
                out.push(line);
                proof {
                    let rest = blocks(all, end as int, None);
                    assert(before + (seq![line@] + rest) =~= lines_view(out@) + rest);
                }
                i = end;
            } else {
                let line = parse_text(ls[i].as_slice());
                out.push(line);
                proof {
                    let rest = blocks(all, i + 1, None);
                    assert(before + (seq![line@] + rest) =~= lines_view(out@) + rest);
                }
                i += 1;
            }
        }
    }
    if in_code {
        close_code(&mut out, &buf);
    } else {
        assert(lines_view(out@) + blocks(all, i as int, None) =~= lines_view(out@));
    }
    out
}

} // verus!
