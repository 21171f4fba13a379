//! Drawing tables.

use crate::frontend::layout;
use crate::frontend::layout::{
    piece, plain, push_piece, push_row, row_view, rows_view, span_style, text_columns, Piece,
    PieceView,
};
use crate::frontend::markdown::{
    cells_view, spans_view, table_view, Align, RowView, Span, SpanView, TableRow,
};
use crate::frontend::theme::{bold, colored, Color, Style};
use crate::text;
use crate::text::repeated;
use vstd::prelude::*;

verus! {

// ---------------------------------------------------------------------------------------------
// Column widths
// ---------------------------------------------------------------------------------------------
/// The columns that a cell takes.
pub open spec fn cell_columns(cell: Seq<SpanView>) -> nat
    decreases cell.len(),
{
    if cell.len() == 0 {
        0
    } else {
        cell_columns(cell.drop_last()) + text_columns(cell.last().text) as nat
    }
}

/// The larger of two numbers.
pub open spec fn larger(a: nat, b: nat) -> nat {
    if a >= b {
        a
    } else {
        b
    }
}

/// The largest number of cells in the rows that hold cells.
pub open spec fn most_cells(table: Seq<RowView>) -> nat
    decreases table.len(),
{
    if table.len() == 0 {
        0
    } else if table.last().separator {
        most_cells(table.drop_last())
    } else {
        larger(most_cells(table.drop_last()), table.last().cells.len())
    }
}

/// The number of columns of a table, which is at least one.
pub open spec fn table_columns(table: Seq<RowView>) -> nat {
    larger(most_cells(table), 1)
}

/// The width that column `i` would like: that of its widest cell.
pub open spec fn wish(table: Seq<RowView>, i: int) -> nat
    decreases table.len(),
{
    if table.len() == 0 {
        0
    } else if table.last().separator || i < 0 || i >= table.last().cells.len() {
        wish(table.drop_last(), i)
    } else {
        larger(wish(table.drop_last(), i), cell_columns(table.last().cells[i]))
    }
}

/// The widths that the columns would like.
pub open spec fn wishes(table: Seq<RowView>) -> Seq<nat> {
    Seq::new(table_columns(table), |i: int| wish(table, i))
}

/// The widths of columns that share a room: from the left, each gets what it would like as long as
/// there is room.
pub open spec fn shared(wishes: Seq<nat>, room: nat) -> Seq<nat>
    decreases wishes.len(),
{
    if wishes.len() == 0 {
        Seq::empty()
    } else {
        let before = shared(wishes.drop_last(), room);
        before.push(smaller(wishes.last(), left_over(room, total(before))))
    }
}

/// The sum of widths.
pub open spec fn total(widths: Seq<nat>) -> nat
    decreases widths.len(),
{
    if widths.len() == 0 {
        0
    } else {
        total(widths.drop_last()) + widths.last()
    }
}

/// What is left of a room.
pub open spec fn left_over(room: nat, used: nat) -> nat {
    if used <= room {
        (room - used) as nat
    } else {
        0
    }
}

/// The smaller of two numbers.
pub open spec fn smaller(a: nat, b: nat) -> nat {
    if a <= b {
        a
    } else {
        b
    }
}

/// The columns that a table may take: those of the screen without the margin, and ten at least.
pub open spec fn table_room(width: nat) -> nat {
    larger(left_over(width, 4), 10)
}

/// The widths of the columns of a table on a screen of `width` columns. The bars between them take
/// one column each.
pub open spec fn widths(table: Seq<RowView>, width: nat) -> Seq<nat> {
    shared(wishes(table), left_over(table_room(width), table_columns(table) + 1))
}

/// Widths from which `excess` columns were cut, from the right.
pub open spec fn cut(wishes: Seq<nat>, excess: nat) -> Seq<nat>
    decreases wishes.len(),
{
    if wishes.len() == 0 {
        Seq::empty()
    } else {
        let here = smaller(wishes.last(), excess);
        cut(wishes.drop_last(), (excess - here) as nat).push((wishes.last() - here) as nat)
    }
}

proof fn shared_total(wishes: Seq<nat>, room: nat)
    ensures
        shared(wishes, room).len() == wishes.len(),
        total(shared(wishes, room)) == smaller(total(wishes), room),
    decreases wishes.len(),
{
    if wishes.len() > 0 {
        shared_total(wishes.drop_last(), room);
        let now = shared(wishes, room);
        assert(now.drop_last() =~= shared(wishes.drop_last(), room));
    }
}

/// Sharing a room from the left is the same as cutting what is too much from the right.
pub proof fn sharing_is_cutting(wishes: Seq<nat>, room: nat)
    ensures
        shared(wishes, room) == cut(wishes, left_over(total(wishes), room)),
    decreases wishes.len(),
{
    if wishes.len() > 0 {
        let front = wishes.drop_last();
        shared_total(front, room);
        sharing_is_cutting(front, room);
        let excess = left_over(total(wishes), room);
        let here = smaller(wishes.last(), excess);
        if total(wishes) <= room {
            assert(left_over(total(front), room) == 0);
        }
        assert((excess - here) as nat == left_over(total(front), room));
    }
}

/// A table never takes more columns than it may, as long as its bars fit.
pub proof fn tables_fit(table: Seq<RowView>, width: nat)
    requires
        table_columns(table) + 1 <= table_room(width),
    ensures
        total(widths(table, width)) + table_columns(table) + 1 <= table_room(width),
{
    shared_total(wishes(table), left_over(table_room(width), table_columns(table) + 1));
}

// ---------------------------------------------------------------------------------------------
// Rows
// ---------------------------------------------------------------------------------------------
/// A border: the corner on the left, rules over the first `n` columns, and between and after them a
/// joint or, at the end, the corner on the right.
pub open spec fn border(
    cols: Seq<nat>,
    left: Seq<char>,
    joint: Seq<char>,
    right: Seq<char>,
    n: int,
) -> Seq<PieceView>
    decreases n,
{
    if n <= 0 {
        seq![plain(left)]
    } else {
        border(cols, left, joint, right, n - 1).push(
            piece(repeated('─', cols[n - 1] + 2), colored(Color::Divider)),
        ).push(
            piece(
                if n < cols.len() {
                    joint
                } else {
                    right
                },
                colored(Color::Divider),
            ),
        )
    }
}

/// The space before and after a cell's text.
pub open spec fn padding(pad: nat, align: Align) -> (nat, nat) {
    match align {
        Align::Center => (pad / 2, (pad - pad / 2) as nat),
        Align::Right => (pad, 0),
        Align::Left => (0, pad),
    }
}

/// The cell `i` of a row; one that is missing is empty.
pub open spec fn cell_at(row: RowView, i: int) -> Seq<SpanView> {
    if 0 <= i < row.cells.len() {
        row.cells[i]
    } else {
        Seq::empty()
    }
}

/// The alignment of column `i`.
pub open spec fn align_at(row: RowView, i: int) -> Align {
    if 0 <= i < row.align.len() {
        row.align[i]
    } else {
        Align::Left
    }
}

/// The spans of a cell as they are drawn; a header stands out.
pub open spec fn cell_pieces(cell: Seq<SpanView>, header: bool) -> Seq<PieceView> {
    Seq::new(
        cell.len(),
        |i: int|
            piece(
                cell[i].text,
                if header {
                    bold(Color::Gold)
                } else {
                    span_style(cell[i].kind)
                },
            ),
    )
}

/// The first `n` cells of a row.
pub open spec fn cells_row(row: RowView, cols: Seq<nat>, n: int) -> Seq<PieceView>
    decreases n,
{
    if n <= 0 {
        seq![plain("  │"@)]
    } else {
        let cell = cell_at(row, n - 1);
        let pad = left_over(cols[n - 1], cell_columns(cell));
        let (left, right) = padding(pad, align_at(row, n - 1));
        (cells_row(row, cols, n - 1).push(plain(repeated(' ', left + 1))) + cell_pieces(
            cell,
            row.header,
        )).push(plain(repeated(' ', right + 1))).push(piece("│"@, colored(Color::Divider)))
    }
}

/// A row of a table as it is drawn.
pub open spec fn drawn_row(row: RowView, cols: Seq<nat>) -> Seq<PieceView> {
    if row.separator {
        border(cols, "  ├"@, "┼"@, "┤"@, cols.len() as int)
    } else {
        cells_row(row, cols, cols.len() as int)
    }
}

/// A table as it is drawn on a screen of `width` columns.
pub open spec fn drawn_table(table: Seq<RowView>, width: nat) -> Seq<Seq<PieceView>> {
    let cols = widths(table, width);
    seq![border(cols, "  ┌"@, "┬"@, "┐"@, cols.len() as int)] + Seq::new(
        table.len(),
        |i: int| drawn_row(table[i], cols),
    ) + seq![border(cols, "  └"@, "┴"@, "┘"@, cols.len() as int)]
}

/// A number that stops at the largest value of its type.
pub open spec fn at_most_max(n: nat) -> usize {
    if n <= usize::MAX {
        n as usize
    } else {
        usize::MAX
    }
}

/// The columns that a cell takes.
pub fn cell_width(cell: &Vec<Span>) -> (r: usize)
    ensures
        r == at_most_max(cell_columns(spans_view(cell@))),
{
    let ghost all = spans_view(cell@);
    let mut sum: usize = 0;
    let mut i: usize = 0;
    while i < cell.len()
        invariant
            i <= cell@.len(),
            all == spans_view(cell@),
            sum == at_most_max(cell_columns(all.take(i as int))),
        decreases cell@.len() - i,
    {
        proof {
            assert(all.take(i + 1).drop_last() =~= all.take(i as int));
            assert(all.take(i + 1).last() == cell@[i as int]@);
        }
        sum = sum.saturating_add(layout::width_of(cell[i].text.as_str()));
        i += 1;
    }
    assert(all.take(i as int) =~= all);
    sum
}

/// The number of columns of a table.
fn count_columns(table: &Vec<TableRow>) -> (r: usize)
    ensures
        r == table_columns(table_view(table@)),
{
    let ghost all = table_view(table@);
    let mut most: usize = 0;
    let mut i: usize = 0;
    while i < table.len()
        invariant
            i <= table@.len(),
            all == table_view(table@),
            most == most_cells(all.take(i as int)),
        decreases table@.len() - i,
    {
        proof {
            assert(all.take(i + 1).drop_last() =~= all.take(i as int));
            assert(all.take(i + 1).last() == table@[i as int]@);
        }
        let row = &table[i];
        if !row.separator && row.cells.len() > most {
            most = row.cells.len();
        }
        i += 1;
    }
    assert(all.take(i as int) =~= all);
    if most == 0 {
        1
    } else {
        most
    }
}

/// The width that column `col` would like.
fn wished_width(table: &Vec<TableRow>, col: usize) -> (r: usize)
    ensures
        r == at_most_max(wish(table_view(table@), col as int)),
{
    let ghost all = table_view(table@);
    let mut widest: usize = 0;
    let mut i: usize = 0;
    while i < table.len()
        invariant
            i <= table@.len(),
            all == table_view(table@),
            widest == at_most_max(wish(all.take(i as int), col as int)),
        decreases table@.len() - i,
    {
        proof {
            assert(all.take(i + 1).drop_last() =~= all.take(i as int));
            assert(all.take(i + 1).last() == table@[i as int]@);
        }
        let row = &table[i];
        if !row.separator && col < row.cells.len() {
            assert(cells_view(row.cells@)[col as int] == spans_view(row.cells@[col as int]@));
            let w: usize = cell_width(&row.cells[col]);
            if w > widest {
                widest = w;
            }
        }
        i += 1;
    }
    assert(all.take(i as int) =~= all);
    widest
}

/// Widths as numbers.
pub open spec fn nats(v: Seq<usize>) -> Seq<nat> {
    Seq::new(v.len(), |i: int| v[i] as nat)
}

/// Wishes that stop at the largest value of their type share a room as the wishes themselves do.
proof fn capped_wishes_share(capped: Seq<usize>, hopes: Seq<nat>, room: nat)
    requires
        capped.len() == hopes.len(),
        room <= usize::MAX,
        forall|i: int| 0 <= i < hopes.len() ==> #[trigger] capped[i] == at_most_max(hopes[i]),
    ensures
        shared(nats(capped), room) == shared(hopes, room),
    decreases hopes.len(),
{
    if hopes.len() > 0 {
        assert(nats(capped).drop_last() =~= nats(capped.drop_last()));
        capped_wishes_share(capped.drop_last(), hopes.drop_last(), room);
        assert(capped[hopes.len() - 1] == at_most_max(hopes.last()));
    }
}

/// The widths that columns get which would like the widths `hopes`, in a room.
pub fn share_room(hopes: &Vec<usize>, room: usize) -> (r: Vec<usize>)
    ensures
        nats(r@) == shared(nats(hopes@), room as nat),
        forall|i: int| 0 <= i < r@.len() ==> #[trigger] r@[i] <= room,
{
    let ghost all = nats(hopes@);
    let mut out: Vec<usize> = Vec::new();
    let mut used: usize = 0;
    let mut i: usize = 0;
    assert(nats(out@) =~= shared(all.take(0), room as nat));
    while i < hopes.len()
        invariant
            i <= hopes@.len(),
            all == nats(hopes@),
            out@.len() == i,
            nats(out@) == shared(all.take(i as int), room as nat),
            used == total(nats(out@)),
            used <= room,
            forall|k: int| 0 <= k < i ==> #[trigger] out@[k] <= room,
        decreases hopes@.len() - i,
    {
        let hope: usize = hopes[i];
        let left: usize = room - used;
        let w: usize = if hope <= left {
            hope
        } else {
            left
        };
        let ghost before = nats(out@);
        out.push(w);
        proof {
            assert(nats(out@) =~= before.push(w as nat));
            assert(nats(out@).drop_last() =~= before);
            assert(all.take(i + 1).drop_last() =~= all.take(i as int));
            assert(all.take(i + 1).last() == hope);
        }
        used = used + w;
        i += 1;
    }
    assert(all.take(i as int) =~= all);
    out
}

/// The widths of the columns of a table.
fn column_widths(table: &Vec<TableRow>, width: usize) -> (r: Vec<usize>)
    ensures
        nats(r@) == widths(table_view(table@), width as nat),
        forall|i: int| 0 <= i < r@.len() ==> #[trigger] r@[i] <= usize::MAX - 4,
        r@.len() > 0,
{
    let ghost all = table_view(table@);
    let count: usize = count_columns(table);
    let screen: usize = width.saturating_sub(4);
    let most: usize = if screen > 10 {
        screen
    } else {
        10
    };
    let room: usize = most.saturating_sub(count).saturating_sub(1);
    let mut hopes: Vec<usize> = Vec::new();
    let mut i: usize = 0;
    while i < count
        invariant
            i <= count,
            all == table_view(table@),
            hopes@.len() == i,
            forall|k: int| 0 <= k < i ==> #[trigger] hopes@[k] == at_most_max(wish(all, k)),
        decreases count - i,
    {
        hopes.push(wished_width(table, i));
        i += 1;
    }
    let out = share_room(&hopes, room);
    proof {
        capped_wishes_share(hopes@, wishes(all), room as nat);
        shared_total(wishes(all), room as nat);
        assert(nats(out@).len() == out@.len());
    }
    out
}

/// A border of a table.
fn draw_border(cols: &Vec<usize>, left: &str, joint: &str, right: &str) -> (r: Vec<Piece>)
    requires
        forall|i: int| 0 <= i < cols@.len() ==> #[trigger] cols@[i] <= usize::MAX - 4,
    ensures
        row_view(r@) == border(nats(cols@), left@, joint@, right@, cols@.len() as int),
{
    let ghost all = nats(cols@);
    let mut row: Vec<Piece> = layout::one(Piece::plain(left));
    let mut i: usize = 0;
    while i < cols.len()
        invariant
            i <= cols@.len(),
            all == nats(cols@),
            forall|i: int| 0 <= i < cols@.len() ==> #[trigger] cols@[i] <= usize::MAX - 4,
            row_view(row@) == border(all, left@, joint@, right@, i as int),
        decreases cols@.len() - i,
    {
        assert(all[i as int] == cols@[i as int]);
        let rule = text::repeat_char('─', cols[i] + 2);
        push_piece(&mut row, Piece::new(rule.as_str(), Style::colored(Color::Divider)));
        let end = if i < cols.len() - 1 {
            joint
        } else {
            right
        };
        push_piece(&mut row, Piece::new(end, Style::colored(Color::Divider)));
        i += 1;
    }
    row
}

/// Appends the spans of a cell as they are drawn.
fn draw_cell(row: &mut Vec<Piece>, cell: &Vec<Span>, header: bool)
    ensures
        row_view(final(row)@) == row_view(old(row)@) + cell_pieces(spans_view(cell@), header),
{
    let ghost start = row_view(row@);
    let ghost all = cell_pieces(spans_view(cell@), header);
    let mut i: usize = 0;
    assert(start + all.take(0) =~= start);
    while i < cell.len()
        invariant
            i <= cell@.len(),
            all == cell_pieces(spans_view(cell@), header),
            row_view(row@) == start + all.take(i as int),
        decreases cell@.len() - i,
    {
        assert(spans_view(cell@)[i as int] == cell@[i as int]@);
        let drawn = if header {
            Piece::new(cell[i].text.as_str(), Style::bold(Color::Gold))
        } else {
            layout::style_span(&cell[i])
        };
        let ghost before = row_view(row@);
        push_piece(row, drawn);
        assert(start + all.take(i + 1) =~= before.push(all[i as int]));
        i += 1;
    }
    assert(all.take(i as int) =~= all);
}

/// A row of a table as it is drawn.
fn draw_row(row: &TableRow, cols: &Vec<usize>) -> (r: Vec<Piece>)
    requires
        forall|i: int| 0 <= i < cols@.len() ==> #[trigger] cols@[i] <= usize::MAX - 4,
    ensures
        row_view(r@) == drawn_row(row@, nats(cols@)),
{
    if row.separator {
        return draw_border(cols, "  ├", "┼", "┤");
    }
    let ghost all = nats(cols@);
    let ghost view = row@;
    let mut out: Vec<Piece> = layout::one(Piece::plain("  │"));
    let mut i: usize = 0;
    while i < cols.len()
        invariant
            i <= cols@.len(),
            all == nats(cols@),
            view == row@,
            forall|i: int| 0 <= i < cols@.len() ==> #[trigger] cols@[i] <= usize::MAX - 4,
            row_view(out@) == cells_row(view, all, i as int),
        decreases cols@.len() - i,
    {
        let ghost before = row_view(out@);
        let ghost cell = cell_at(view, i as int);
        assert(all[i as int] == cols@[i as int]);
        let content: usize = if i < row.cells.len() {
            assert(cells_view(row.cells@)[i as int] == spans_view(row.cells@[i as int]@));
            cell_width(&row.cells[i])
        } else {
            assert(cell =~= Seq::empty());
            0
        };
        let pad: usize = cols[i].saturating_sub(content);
        let align = if i < row.align.len() {
            row.align[i]
        } else {
            Align::Left
        };
        let (left, right): (usize, usize) = match align {
            Align::Center => (pad / 2, pad - pad / 2),
            Align::Right => (pad, 0),
            Align::Left => (0, pad),
        };
        push_piece(&mut out, Piece::plain(text::repeat_char(' ', left + 1).as_str()));
        let ghost padded = row_view(out@);
        if i < row.cells.len() {
            draw_cell(&mut out, &row.cells[i], row.header);
        } else {
            assert(cell_pieces(cell, view.header) =~= Seq::empty());
            assert(padded + cell_pieces(cell, view.header) =~= padded);
        }
        push_piece(&mut out, Piece::plain(text::repeat_char(' ', right + 1).as_str()));
        push_piece(&mut out, Piece::new("│", Style::colored(Color::Divider)));
        i += 1;
    }
    out
}

/// A table as it is drawn on a screen of `width` columns.
pub fn render_table(table: &Vec<TableRow>, width: usize) -> (r: Vec<Vec<Piece>>)
    ensures
        rows_view(r@) == drawn_table(table_view(table@), width as nat),
{
    let ghost all = table_view(table@);
    let cols = column_widths(table, width);
    let ghost c = nats(cols@);
    assert(c.len() == cols@.len());
    let ghost goal = drawn_table(all, width as nat);
    let mut out: Vec<Vec<Piece>> = Vec::new();
    push_row(&mut out, draw_border(&cols, "  ┌", "┬", "┐"));
    let mut i: usize = 0;
    assert(rows_view(out@) =~= goal.take(1));
    while i < table.len()
        invariant
            i <= table@.len(),
            all == table_view(table@),
            c == nats(cols@),
            c == widths(all, width as nat),
            goal == drawn_table(all, width as nat),
            forall|i: int| 0 <= i < cols@.len() ==> #[trigger] cols@[i] <= usize::MAX - 4,
            rows_view(out@) == goal.take(i + 1),
        decreases table@.len() - i,
    {
        assert(all[i as int] == table@[i as int]@);
        push_row(&mut out, draw_row(&table[i], &cols));
        assert(goal.take(i + 2) =~= goal.take(i + 1).push(goal[i + 1]));
        i += 1;
    }
    push_row(&mut out, draw_border(&cols, "  └", "┴", "┘"));
    assert(rows_view(out@) =~= goal);
    out
}

} // verus!
