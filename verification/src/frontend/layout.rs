//! Breaking text into rows of a given width.

use crate::frontend::markdown::{spans_view, Span, SpanKind, SpanView};
use crate::frontend::theme::{bold, colored, italic, struck, Color, Style};
use crate::text;
use crate::text::{rows, split, views};
use vstd::prelude::*;

verus! {

// ---------------------------------------------------------------------------------------------
// Widths
// ---------------------------------------------------------------------------------------------
/// The number of columns that a character takes; a control character has none.
pub uninterp spec fn char_columns(c: char) -> Option<usize>;

/// The number of columns that a text takes.
pub uninterp spec fn text_columns(s: Seq<char>) -> usize;

/// `unicode_width::UnicodeWidthChar::width` looks up the columns of a character in a fixed table,
/// whose entries are three at most.
#[verifier::external_body]
fn width_of_char(c: char) -> (r: Option<usize>)
    ensures
        r == char_columns(c),
        r matches Some(w) ==> w <= 3,
{
    unicode_width::UnicodeWidthChar::width(c)
}

/// `unicode_width::UnicodeWidthStr::width` gives the columns of a text, which depend on the text
/// alone.
#[verifier::external_body]
pub(crate) fn width_of(s: &str) -> (r: usize)
    ensures
        r == text_columns(s@),
{
    unicode_width::UnicodeWidthStr::width(s)
}

/// The columns of a character, or none for a control character.
pub open spec fn columns(c: char) -> int {
    match char_columns(c) {
        Some(w) => w as int,
        None => 0,
    }
}

/// The columns of a character, or none for a control character.
pub fn char_width(c: char) -> (r: usize)
    ensures
        r == columns(c),
        r <= 3,
{
    match width_of_char(c) {
        Some(w) => w,
        None => 0,
    }
}

/// The columns of the characters of a text, one by one.
pub open spec fn widths_of(s: Seq<char>) -> Seq<usize> {
    Seq::new(s.len(), |i: int| columns(s[i]) as usize)
}

/// The columns of the characters of a text, one by one.
pub fn char_widths(s: &[char]) -> (r: Vec<usize>)
    ensures
        r@ == widths_of(s@),
{
    let mut out: Vec<usize> = Vec::new();
    let mut i: usize = 0;
    assert(out@ =~= widths_of(s@).take(0));
    while i < s.len()
        invariant
            i <= s@.len(),
            out@ == widths_of(s@).take(i as int),
        decreases s@.len() - i,
    {
        out.push(char_width(s[i]));
        assert(out@ =~= widths_of(s@).take(i + 1));
        i += 1;
    }
    assert(out@ =~= widths_of(s@));
    out
}

// ---------------------------------------------------------------------------------------------
// Pieces and rows
// ---------------------------------------------------------------------------------------------
/// A text with its style.
#[derive(Debug, PartialEq)]
pub struct Piece {
    pub text: String,
    pub style: Style,
}

/// A `Piece` with its text as characters.
pub ghost struct PieceView {
    pub text: Seq<char>,
    pub style: Style,
}

impl View for Piece {
    type V = PieceView;

    open spec fn view(&self) -> PieceView {
        PieceView { text: self.text@, style: self.style }
    }
}

/// The views of the pieces of a row.
pub open spec fn row_view(row: Seq<Piece>) -> Seq<PieceView> {
    Seq::new(row.len(), |i: int| row[i]@)
}

/// The views of rows.
pub open spec fn rows_view(rows: Seq<Vec<Piece>>) -> Seq<Seq<PieceView>> {
    Seq::new(rows.len(), |i: int| row_view(rows[i]@))
}

/// A text with its style.
pub open spec fn piece(text: Seq<char>, style: Style) -> PieceView {
    PieceView { text, style }
}

/// A text in the terminal's own style.
pub open spec fn plain(text: Seq<char>) -> PieceView {
    PieceView { text, style: colored(Color::Plain) }
}

impl Piece {
    /// A text with its style.
    pub fn new(text: &str, style: Style) -> (r: Piece)
        ensures
            r@ == piece(text@, style),
    {
        Piece { text: text.to_owned(), style }
    }

    /// A text in the terminal's own style.
    pub fn plain(text: &str) -> (r: Piece)
        ensures
            r@ == plain(text@),
    {
        Piece { text: text.to_owned(), style: Style::colored(Color::Plain) }
    }
}

/// Appends a piece to a row.
pub fn push_piece(row: &mut Vec<Piece>, piece: Piece)
    ensures
        row_view(final(row)@) == row_view(old(row)@).push(piece@),
{
    let ghost before = row_view(row@);
    row.push(piece);
    assert(row_view(row@) =~= before.push(piece@));
}

/// Appends a row.
pub fn push_row(out: &mut Vec<Vec<Piece>>, row: Vec<Piece>)
    ensures
        rows_view(final(out)@) == rows_view(old(out)@).push(row_view(row@)),
{
    let ghost before = rows_view(out@);
    out.push(row);
    assert(rows_view(out@) =~= before.push(row_view(row@)));
}

/// A row of one piece.
pub fn one(piece: Piece) -> (r: Vec<Piece>)
    ensures
        row_view(r@) == seq![piece@],
{
    let mut row: Vec<Piece> = Vec::new();
    row.push(piece);
    assert(row_view(row@) =~= seq![piece@]);
    row
}

/// A row of two pieces.
pub fn two(a: Piece, b: Piece) -> (r: Vec<Piece>)
    ensures
        row_view(r@) == seq![a@, b@],
{
    let mut row: Vec<Piece> = Vec::new();
    row.push(a);
    row.push(b);
    assert(row_view(row@) =~= seq![a@, b@]);
    row
}

// ---------------------------------------------------------------------------------------------
// Wrapping a text
// ---------------------------------------------------------------------------------------------
/// A line as far as it has been broken into rows: the rows that are full, and the row that is not,
/// with its width.
pub ghost struct Wrapped {
    pub done: Seq<Seq<char>>,
    pub current: Seq<char>,
    pub width: int,
}

/// A line after its first `n` characters, which take the columns `ws`, were broken into rows of `width`
/// columns. A character that does not fit begins a new row, unless its row is empty.
pub open spec fn wrap_upto(raw: Seq<char>, ws: Seq<usize>, width: int, n: int) -> Wrapped
    decreases n,
{
    if n <= 0 {
        Wrapped { done: Seq::empty(), current: Seq::empty(), width: 0 }
    } else {
        let before = wrap_upto(raw, ws, width, n - 1);
        let c = raw[n - 1];
        if before.width + ws[n - 1] > width && before.current.len() > 0 {
            Wrapped {
                done: before.done.push(before.current),
                current: seq![c],
                width: ws[n - 1] as int,
            }
        } else {
            Wrapped {
                current: before.current.push(c),
                width: before.width + ws[n - 1],
                ..before
            }
        }
    }
}

/// A line whose characters take the columns `ws`, in rows of `width` columns.
pub open spec fn wrapped_by(raw: Seq<char>, ws: Seq<usize>, width: int) -> Seq<Seq<char>> {
    let all = wrap_upto(raw, ws, width, raw.len() as int);
    all.done.push(all.current)
}

/// A line in rows of `width` columns.
pub open spec fn wrapped_line(raw: Seq<char>, width: int) -> Seq<Seq<char>> {
    wrapped_by(raw, widths_of(raw), width)
}

/// The first `n` lines in rows.
pub open spec fn wrapped_lines(ls: Seq<Seq<char>>, width: int, n: int) -> Seq<Seq<char>>
    decreases n,
{
    if n <= 0 {
        Seq::empty()
    } else {
        wrapped_lines(ls, width, n - 1) + wrapped_line(ls[n - 1], width)
    }
}

/// A text in rows of `width` columns.
pub open spec fn wrapped(s: Seq<char>, width: int) -> Seq<Seq<char>> {
    wrapped_lines(split(s, '\n'), width, split(s, '\n').len() as int)
}

/// Appends the rows of a line whose characters take the columns `ws`.
pub fn wrap_by(out: &mut Vec<String>, raw: &Vec<char>, ws: &Vec<usize>, width: usize)
    requires
        ws@.len() == raw@.len(),
    ensures
        views(final(out)@) == views(old(out)@) + wrapped_by(raw@, ws@, width as int),
{
    let ghost start = views(out@);
    let mut current: Vec<char> = Vec::new();
    let mut used: usize = 0;
    let mut i: usize = 0;
    assert(start + Seq::<Seq<char>>::empty() =~= start);
    while i < raw.len()
        invariant
            i <= raw@.len(),
            ws@.len() == raw@.len(),
            wrap_upto(raw@, ws@, width as int, i as int).current == current@,
            wrap_upto(raw@, ws@, width as int, i as int).width == used,
            views(out@) == start + wrap_upto(raw@, ws@, width as int, i as int).done,
            current@.len() == 0 ==> used == 0,
        decreases raw@.len() - i,
    {
        let c: char = raw[i];
        let w: usize = ws[i];
        let ghost done = wrap_upto(raw@, ws@, width as int, i as int).done;
        if (used > width || w > width - used) && current.len() > 0 {
            let ghost before = views(out@);
            let row = text::string_of(current.as_slice());
            out.push(row);
            proof {
                assert(views(out@) =~= before.push(row@));
                assert(start + done.push(row@) =~= (start + done).push(row@));
            }
            current = Vec::new();
            used = 0;
            current.push(c);
            assert(current@ =~= seq![c]);
        } else {
            current.push(c);
        }
        used = used + w;
        i += 1;
    }
    let ghost before = views(out@);
    let ghost done = wrap_upto(raw@, ws@, width as int, i as int).done;
    let row = text::string_of(current.as_slice());
    out.push(row);
    proof {
        assert(views(out@) =~= before.push(row@));
        assert(start + done.push(row@) =~= (start + done).push(row@));
    }
}

/// A text in rows of `width` columns.
pub fn wrap_text(s: &str, width: usize) -> (r: Vec<String>)
    ensures
        views(r@) == wrapped(s@, width as int),
{
    let ls = text::pieces(text::chars_of(s).as_slice(), '\n');
    let ghost all = split(s@, '\n');
    let mut out: Vec<String> = Vec::new();
    let mut i: usize = 0;
    assert(views(out@) =~= Seq::empty());
    while i < ls.len()
        invariant
            i <= ls@.len(),
            rows(ls@) == all,
            views(out@) == wrapped_lines(all, width as int, i as int),
        decreases ls@.len() - i,
    {
        assert(all[i as int] == ls@[i as int]@);
        let ws = char_widths(ls[i].as_slice());
        wrap_by(&mut out, &ls[i], &ws, width);
        i += 1;
    }
    out
}

/// The columns of the characters of a row.
pub open spec fn row_columns(s: Seq<char>) -> int
    decreases s.len(),
{
    if s.len() == 0 {
        0
    } else {
        row_columns(s.drop_last()) + columns(s.last())
    }
}

/// Whether a row is no wider than asked for, or holds a single character.
pub open spec fn row_fits(row: Seq<char>, width: int) -> bool {
    row_columns(row) <= width || row.len() == 1
}

/// No row of a wrapped line is wider than asked for, unless it holds a single character.
pub proof fn rows_fit(raw: Seq<char>, width: int, n: int)
    requires
        0 <= n <= raw.len(),
        0 <= width,
    ensures
        wrap_upto(raw, widths_of(raw), width, n).width == row_columns(wrap_upto(raw, widths_of(raw), width, n).current),
        row_fits(wrap_upto(raw, widths_of(raw), width, n).current, width),
        forall|i: int|
            0 <= i < wrap_upto(raw, widths_of(raw), width, n).done.len() ==> row_fits(
                #[trigger] wrap_upto(raw, widths_of(raw), width, n).done[i],
                width,
            ),
    decreases n,
{
    if n > 0 {
        rows_fit(raw, width, n - 1);
        let before = wrap_upto(raw, widths_of(raw), width, n - 1);
        let c = raw[n - 1];
        assert(widths_of(raw)[n - 1] == columns(c));
        assert(before.current.push(c).drop_last() =~= before.current);
        assert(seq![c].drop_last() =~= Seq::<char>::empty());
        assert(row_columns(Seq::<char>::empty()) == 0);
        assert(row_columns(seq![c]) == columns(c));
        if before.current.len() == 0 {
            assert(before.current =~= Seq::<char>::empty());
        }
    }
}

/// Wrapping loses no character: the rows of a line in a row are the line.
pub proof fn wrapping_keeps_text(raw: Seq<char>, width: int, n: int)
    requires
        0 <= n <= raw.len(),
    ensures
        text::join(
            wrap_upto(raw, widths_of(raw), width, n).done.push(wrap_upto(raw, widths_of(raw), width, n).current),
            Seq::empty(),
        ) == raw.take(n),
    decreases n,
{
    let state = wrap_upto(raw, widths_of(raw), width, n);
    let parts = state.done.push(state.current);
    let none = Seq::<char>::empty();
    assert(parts.drop_last() =~= state.done);
    if n > 0 {
        wrapping_keeps_text(raw, width, n - 1);
        let before = wrap_upto(raw, widths_of(raw), width, n - 1);
        let old_parts = before.done.push(before.current);
        assert(old_parts.drop_last() =~= before.done);
        assert(raw.take(n) =~= raw.take(n - 1).push(raw[n - 1]));
        assert(widths_of(raw)[n - 1] == columns(raw[n - 1]));
        if before.width + columns(raw[n - 1]) > width && before.current.len() > 0 {
            assert(parts.drop_last() =~= old_parts);
            assert(text::join(parts, none) =~= raw.take(n));
        } else {
            assert(text::join(parts, none) =~= text::join(old_parts, none).push(raw[n - 1]));
        }
    } else {
        assert(text::join(parts, none) =~= raw.take(0));
    }
}

// ---------------------------------------------------------------------------------------------
// Wrapping spans
// ---------------------------------------------------------------------------------------------
/// How many characters of a text fit into a room, and how wide they are.
pub ghost struct Fit {
    pub count: int,
    pub width: int,
}

/// The longest beginning of a text whose characters take the columns `ws` that fits into `room`
/// columns, where the first `i` characters take `used` of them.
pub open spec fn fit(ws: Seq<usize>, i: int, used: int, room: int) -> Fit
    decreases ws.len() - i,
{
    if 0 <= i < ws.len() && used + ws[i] <= room {
        fit(ws, i + 1, used + ws[i], room)
    } else {
        Fit { count: i, width: used }
    }
}

/// Spans as far as they have been broken into rows.
pub ghost struct Flow {
    pub done: Seq<Seq<SpanView>>,
    pub current: Seq<SpanView>,
    pub width: int,
}

/// Spans after one more text. The longest beginning that fits goes to the current row; if not even one
/// character fits, one goes there without being counted. A row that is full ends.
pub open spec fn flow_text(flow: Flow, s: Seq<char>, kind: SpanKind, width: int) -> Flow
    decreases s.len(),
{
    if s.len() == 0 {
        flow
    } else {
        let fits = fit(widths_of(s), 0, 0, width - flow.width);
        let n = if fits.count < 1 {
            1
        } else if fits.count > s.len() {
            s.len() as int
        } else {
            fits.count
        };
        let current = flow.current.push(SpanView { text: s.take(n), kind });
        let used = flow.width + fits.width;
        let next = if used >= width {
            Flow { done: flow.done.push(current), current: Seq::empty(), width: 0 }
        } else {
            Flow { done: flow.done, current, width: used }
        };
        flow_text(next, s.skip(n), kind, width)
    }
}

/// The first `n` spans as far as they have been broken into rows.
pub open spec fn flow_spans(spans: Seq<SpanView>, width: int, n: int) -> Flow
    decreases n,
{
    if n <= 0 {
        Flow { done: Seq::empty(), current: Seq::empty(), width: 0 }
    } else {
        flow_text(flow_spans(spans, width, n - 1), spans[n - 1].text, spans[n - 1].kind, width)
    }
}

/// Spans in rows of `width` columns.
pub open spec fn wrapped_spans(spans: Seq<SpanView>, width: int) -> Seq<Seq<SpanView>> {
    let all = flow_spans(spans, width, spans.len() as int);
    if all.current.len() == 0 {
        all.done
    } else {
        all.done.push(all.current)
    }
}

/// The views of rows of spans.
pub open spec fn span_rows(rows: Seq<Vec<Span>>) -> Seq<Seq<SpanView>> {
    Seq::new(rows.len(), |i: int| spans_view(rows[i]@))
}

/// How many of the characters from `at` on, which take the columns `ws`, fit into a room, and how wide
/// they are.
pub fn fitting(ws: &Vec<usize>, at: usize, room: usize) -> (r: (usize, usize))
    requires
        at <= ws@.len(),
    ensures
        fit(ws@.skip(at as int), 0, 0, room as int) == (Fit { count: r.0 as int, width: r.1 as int }),
        r.0 <= ws@.len() - at,
        r.1 <= room,
{
    let ghost rest = ws@.skip(at as int);
    let total: usize = ws.len();
    let mut end: usize = at;
    let mut taken: usize = 0;
    while end < total && ws[end] <= room - taken
        invariant
            at <= end <= total,
            total == ws@.len(),
            rest == ws@.skip(at as int),
            taken <= room,
            fit(rest, 0, 0, room as int) == fit(rest, end - at, taken as int, room as int),
        decreases total - end,
    {
        assert(rest[end - at] == ws@[end as int]);
        taken = taken + ws[end];
        end += 1;
    }
    if end < total {
        assert(rest[end - at] == ws@[end as int]);
    }
    (end - at, taken)
}

/// Spans in rows of `width` columns.
pub fn wrap_spans(spans: &Vec<Span>, width: usize) -> (r: Vec<Vec<Span>>)
    requires
        width > 0,
    ensures
        span_rows(r@) == wrapped_spans(spans_view(spans@), width as int),
{
    let ghost all = spans_view(spans@);
    let mut done: Vec<Vec<Span>> = Vec::new();
    let mut current: Vec<Span> = Vec::new();
    let mut used: usize = 0;
    let mut i: usize = 0;
    proof {
        assert(span_rows(done@) =~= Seq::empty());
        assert(spans_view(current@) =~= Seq::empty());
    }
    while i < spans.len()
        invariant
            i <= spans@.len(),
            width > 0,
            all == spans_view(spans@),
            used < width,
            flow_spans(all, width as int, i as int) == (Flow {
                done: span_rows(done@),
                current: spans_view(current@),
                width: used as int,
            }),
        decreases spans@.len() - i,
    {
        let chars = text::chars_of(spans[i].text.as_str());
        let ws = char_widths(chars.as_slice());
        let kind = spans[i].kind;
        let ghost goal = flow_spans(all, width as int, i + 1);
        proof {
            assert(all[i as int] == spans@[i as int]@);
            assert(chars@.skip(0) =~= chars@);
        }
        let mut at: usize = 0;
        while at < chars.len()
            invariant
                at <= chars@.len(),
                ws@ == widths_of(chars@),
                width > 0,
                used < width,
                goal == flow_text(
                    Flow {
                        done: span_rows(done@),
                        current: spans_view(current@),
                        width: used as int,
                    },
                    chars@.skip(at as int),
                    kind,
                    width as int,
                ),
            decreases chars@.len() - at,
        {
            let ghost s = chars@.skip(at as int);
            let ghost flow = Flow {
                done: span_rows(done@),
                current: spans_view(current@),
                width: used as int,
            };
            let room: usize = width - used;
            let (count, taken) = fitting(&ws, at, room);
            assert(widths_of(s) =~= ws@.skip(at as int));
            let upto: usize = if count == 0 {
                at + 1
            } else {
                at + count
            };
            let head = text::part(chars.as_slice(), at, upto);
            let ghost before = spans_view(current@);
            let span = Span { text: text::string_of(head.as_slice()), kind };
            current.push(span);
            proof {
                assert(spans_view(current@) =~= before.push(span@));
                assert(head@ =~= s.take(upto - at));
                assert(s.skip(upto - at) =~= chars@.skip(upto as int));
            }
            used = used + taken;
            at = upto;
            if used >= width {
                let ghost rows_before = span_rows(done@);
                let ghost row = spans_view(current@);
                done.push(current);
                assert(span_rows(done@) =~= rows_before.push(row));
                current = Vec::new();
                assert(spans_view(current@) =~= Seq::empty());
                used = 0;
            }
        }
        assert(chars@.skip(at as int) =~= Seq::empty());
        i += 1;
    }
    if current.len() > 0 {
        let ghost rows_before = span_rows(done@);
        let ghost row = spans_view(current@);
        done.push(current);
        assert(span_rows(done@) =~= rows_before.push(row));
    }
    done
}

/// The style of a kind of span.
pub open spec fn span_style(kind: SpanKind) -> Style {
    match kind {
        SpanKind::Normal => colored(Color::Text),
        SpanKind::Bold => bold(Color::Text),
        SpanKind::Italic => italic(Color::Text),
        SpanKind::Dim => italic(Color::Meta),
        SpanKind::Code => colored(Color::Purple),
        SpanKind::Strike => struck(Color::Text),
    }
}

/// A span as it is drawn.
pub fn style_span(span: &Span) -> (r: Piece)
    ensures
        r@ == piece(span.text@, span_style(span.kind)),
{
    let style = match span.kind {
        SpanKind::Normal => Style::colored(Color::Text),
        SpanKind::Bold => Style::bold(Color::Text),
        SpanKind::Italic => Style::italic(Color::Text),
        SpanKind::Dim => Style::italic(Color::Meta),
        SpanKind::Code => Style::colored(Color::Purple),
        SpanKind::Strike => Style::struck(Color::Text),
    };
    Piece { text: span.text.clone(), style }
}

// ---------------------------------------------------------------------------------------------
// Paths
// ---------------------------------------------------------------------------------------------
/// The first of the last characters, which take the columns `ws`, that fit into `room` columns, from
/// position `i` on back, where `used` columns are taken.
pub open spec fn tail_start(ws: Seq<usize>, i: int, used: int, room: int) -> int
    decreases i,
{
    if 0 < i <= ws.len() && used + ws[i - 1] <= room {
        tail_start(ws, i - 1, used + ws[i - 1], room)
    } else {
        i
    }
}

/// A path in at most `max` columns, where it takes `whole` columns and its characters take the columns
/// `ws`. One that is too long keeps its end, behind an ellipsis.
pub open spec fn cut_path(path: Seq<char>, whole: usize, ws: Seq<usize>, max: int) -> Seq<char> {
    if whole <= max {
        path
    } else if max <= 1 {
        Seq::empty()
    } else {
        "…"@ + path.skip(tail_start(ws, ws.len() as int, 0, max - 1))
    }
}

/// A path in at most `max` columns.
pub open spec fn fitted_path(path: Seq<char>, max: int) -> Seq<char> {
    cut_path(path, text_columns(path), widths_of(path), max)
}

/// A path in at most `max` columns, where it takes `whole` columns and its characters take the columns
/// `ws`.
pub fn fit_path_by(path: &str, whole: usize, ws: &Vec<usize>, max: usize) -> (r: String)
    requires
        ws@.len() == path@.len(),
    ensures
        r@ == cut_path(path@, whole, ws@, max as int),
{
    if whole <= max {
        return path.to_owned();
    }
    if max <= 1 {
        let empty = String::new();
        assert(empty@ =~= Seq::<char>::empty());
        return empty;
    }
    let chars = text::chars_of(path);
    let room: usize = max - 1;
    let mut i: usize = ws.len();
    let mut used: usize = 0;
    while i > 0 && ws[i - 1] <= room - used
        invariant
            i <= ws@.len(),
            used <= room,
            tail_start(ws@, ws@.len() as int, 0, room as int) == tail_start(
                ws@,
                i as int,
                used as int,
                room as int,
            ),
        decreases i,
    {
        used = used + ws[i - 1];
        i -= 1;
    }
    let tail = text::part(chars.as_slice(), i, chars.len());
    assert(tail@ =~= path@.skip(i as int));
    text::glue("…", text::string_of(tail.as_slice()).as_str())
}

/// A path in at most `max` columns.
pub fn fit_path(path: &str, max: usize) -> (r: String)
    ensures
        r@ == fitted_path(path@, max as int),
{
    let ws = char_widths(text::chars_of(path).as_slice());
    fit_path_by(path, width_of(path), &ws, max)
}

} // verus!
