//! The parts of the screen around the conversation.

use crate::app::agent::App;
use crate::app::models::window_of;
use crate::encoding;
use crate::encoding::lossy;
use crate::frontend::commands;
use crate::frontend::commands::{command, commands_for, commands_view, CommandView, COMMANDS};
use crate::frontend::hitokoto::HitokotoView;
use crate::frontend::layout;
use crate::frontend::layout::{
    columns, fitted_path, piece, plain, push_piece, push_row, row_view, rows_view, text_columns,
    wrapped, Piece, PieceView,
};
use crate::frontend::render;
use crate::frontend::render::{conversation_rows, look_of, pieces_columns, pieces_width};
use crate::frontend::select::{Selector, StatusRow};
use crate::frontend::state::{
    capped, messages_view, MessageView, Mode, SetupState, UiMessage, UiState,
};
use crate::frontend::table::at_most_max;
use crate::frontend::theme::{bold, colored, italic, spinner_frames, Color, Style, SPINNER_LEN};
use crate::text;
use crate::text::{
    decimal, lowercase, opt_text, prefix_of, repeated, rows, split, trim, trim_start_char, views,
};
use vstd::prelude::*;

verus! {

// ---------------------------------------------------------------------------------------------
// Areas and panels
// ---------------------------------------------------------------------------------------------
/// A rectangle of the screen.
#[derive(Debug, Clone, Copy, PartialEq, Eq, Structural)]
pub struct Area {
    pub x: u16,
    pub y: u16,
    pub width: u16,
    pub height: u16,
}

/// A position on the screen.
#[derive(Debug, Clone, Copy, PartialEq, Eq, Structural)]
pub struct Position {
    pub x: u16,
    pub y: u16,
}

/// Rows in a part of the screen. The first `scroll` of them are not shown; rows that are too long
/// go on below where `wraps` says so; what was there is cleared first where `clears` says so.
#[derive(Debug)]
pub struct Panel {
    pub area: Area,
    pub rows: Vec<Vec<Piece>>,
    pub scroll: u16,
    pub wraps: bool,
    pub clears: bool,
}

/// A `Panel` with its texts as characters.
pub ghost struct PanelView {
    pub area: Area,
    pub rows: Seq<Seq<PieceView>>,
    pub scroll: u16,
    pub wraps: bool,
    pub clears: bool,
}

impl View for Panel {
    type V = PanelView;

    open spec fn view(&self) -> PanelView {
        PanelView {
            area: self.area,
            rows: rows_view(self.rows@),
            scroll: self.scroll,
            wraps: self.wraps,
            clears: self.clears,
        }
    }
}

/// The views of panels.
pub open spec fn panels_view(panels: Seq<Panel>) -> Seq<PanelView> {
    Seq::new(panels.len(), |i: int| panels[i]@)
}

/// Rows in a part of the screen.
pub open spec fn panel(area: Area, rows: Seq<Seq<PieceView>>) -> PanelView {
    PanelView { area, rows, scroll: 0, wraps: false, clears: false }
}

/// A part of the screen that is cleared.
pub open spec fn cleared(area: Area) -> PanelView {
    PanelView { area, rows: Seq::empty(), scroll: 0, wraps: false, clears: true }
}

impl Panel {
    /// Rows in a part of the screen.
    fn of(area: Area, rows: Vec<Vec<Piece>>) -> (r: Panel)
        ensures
            r@ == panel(area, rows_view(rows@)),
    {
        Panel { area, rows, scroll: 0, wraps: false, clears: false }
    }

    /// One row in a part of the screen.
    fn line(area: Area, row: Vec<Piece>) -> (r: Panel)
        ensures
            r@ == panel(area, seq![row_view(row@)]),
    {
        let mut rows: Vec<Vec<Piece>> = Vec::new();
        push_row(&mut rows, row);
        assert(rows_view(rows@) =~= seq![row_view(row@)]);
        Panel::of(area, rows)
    }

    /// A part of the screen that is cleared.
    fn cleared(area: Area) -> (r: Panel)
        ensures
            r@ == cleared(area),
    {
        let rows: Vec<Vec<Piece>> = Vec::new();
        assert(rows_view(rows@) =~= Seq::empty());
        Panel { area, rows, scroll: 0, wraps: false, clears: true }
    }
}

/// Appends a panel.
fn push_panel(out: &mut Vec<Panel>, panel: Panel)
    ensures
        panels_view(final(out)@) == panels_view(old(out)@).push(panel@),
{
    let ghost before = panels_view(out@);
    out.push(panel);
    assert(panels_view(out@) =~= before.push(panel@));
}

/// Appends panels.
fn append_panels(out: &mut Vec<Panel>, more: Vec<Panel>)
    ensures
        panels_view(final(out)@) == panels_view(old(out)@) + panels_view(more@),
{
    let ghost start = out@;
    let ghost all = more@;
    let mut more = more;
    out.append(&mut more);
    assert(out@ =~= start + all);
    assert(panels_view(out@) =~= panels_view(start) + panels_view(all));
}

/// A sum that stops at the largest coordinate.
pub open spec fn plus(a: u16, b: u16) -> u16 {
    if a + b > u16::MAX {
        u16::MAX
    } else {
        (a + b) as u16
    }
}

/// A difference that stops at zero.
pub open spec fn minus(a: u16, b: u16) -> u16 {
    if a < b {
        0
    } else {
        (a - b) as u16
    }
}

/// The smaller of two coordinates.
pub open spec fn least(a: u16, b: u16) -> u16 {
    if a <= b {
        a
    } else {
        b
    }
}

/// The smaller of two coordinates.
fn smaller_of(a: u16, b: u16) -> (r: u16)
    ensures
        r == least(a, b),
{
    if a <= b {
        a
    } else {
        b
    }
}

/// A number as a coordinate, which keeps its lowest sixteen bits.
pub open spec fn low16(n: nat) -> u16 {
    (n % 65536) as u16
}

/// A number as a coordinate.
fn coordinate(n: usize) -> (r: u16)
    ensures
        r == low16(n as nat),
{
    (n % 65536) as u16
}

/// An area of the given size in the middle of another.
pub open spec fn centered(area: Area, width: u16, height: u16) -> Area {
    Area {
        x: plus(area.x, minus(area.width, width) / 2),
        y: plus(area.y, minus(area.height, height) / 2),
        width,
        height,
    }
}

/// An area of the given size in the middle of another.
fn center(area: Area, width: u16, height: u16) -> (r: Area)
    ensures
        r == centered(area, width, height),
{
    Area {
        x: area.x.saturating_add(area.width.saturating_sub(width) / 2),
        y: area.y.saturating_add(area.height.saturating_sub(height) / 2),
        width,
        height,
    }
}

// ---------------------------------------------------------------------------------------------
// Rows
// ---------------------------------------------------------------------------------------------
/// The texts of a row, one after the other.
pub open spec fn row_text(row: Seq<PieceView>) -> Seq<char>
    decreases row.len(),
{
    if row.len() == 0 {
        Seq::empty()
    } else {
        row_text(row.drop_last()) + row.last().text
    }
}

/// A row in the middle of `width` columns.
pub open spec fn centered_row(row: Seq<PieceView>, width: u16) -> Seq<PieceView> {
    seq![
        plain(repeated(' ', (minus(width, low16(text_columns(row_text(row)) as nat)) / 2) as nat)),
    ] + row
}

/// A row in the middle of `width` columns.
pub fn centered_line(row: Vec<Piece>, width: u16) -> (r: Vec<Piece>)
    ensures
        row_view(r@) == centered_row(row_view(row@), width),
{
    let ghost all = row_view(row@);
    let mut shown = String::new();
    let mut i: usize = 0;
    while i < row.len()
        invariant
            i <= row@.len(),
            all == row_view(row@),
            shown@ == row_text(all.take(i as int)),
        decreases row@.len() - i,
    {
        proof {
            assert(all.take(i + 1).drop_last() =~= all.take(i as int));
            assert(all.take(i + 1).last() == row@[i as int]@);
        }
        shown.append(row[i].text.as_str());
        i += 1;
    }
    assert(all.take(i as int) =~= all);
    let pad: u16 = width.saturating_sub(coordinate(layout::width_of(shown.as_str()))) / 2;
    let mut out: Vec<Piece> = layout::one(
        Piece::plain(text::repeat_char(' ', pad as usize).as_str()),
    );
    let ghost start = out@;
    let mut rest = row;
    out.append(&mut rest);
    proof {
        assert(out@ =~= start + row@);
        assert(row_view(out@) =~= row_view(start) + all);
    }
    out
}

/// The line between the conversation and the input.
pub open spec fn divider_row(width: u16) -> Seq<PieceView> {
    let total = minus(width, 5) as nat;
    let left = total / 2;
    seq![
        plain(" "@),
        piece(repeated('─', left), colored(Color::Divider)),
        piece(" ✧ "@, colored(Color::Divider)),
        piece(repeated('─', (total - left) as nat), colored(Color::Divider)),
    ]
}

/// The line between the conversation and the input.
pub fn divider_line(width: u16) -> (r: Vec<Piece>)
    ensures
        row_view(r@) == divider_row(width),
{
    let total: usize = width.saturating_sub(5) as usize;
    let left: usize = total / 2;
    let mut row: Vec<Piece> = layout::two(
        Piece::plain(" "),
        Piece::new(text::repeat_char('─', left).as_str(), Style::colored(Color::Divider)),
    );
    push_piece(&mut row, Piece::new(" ✧ ", Style::colored(Color::Divider)));
    push_piece(
        &mut row,
        Piece::new(text::repeat_char('─', total - left).as_str(), Style::colored(Color::Divider)),
    );
    assert(row_view(row@) =~= divider_row(width));
    row
}

/// The panel of the line below the conversation.
pub open spec fn divider_panel(area: Area) -> PanelView {
    panel(
        Area { x: area.x, y: plus(area.y, area.height), width: area.width, height: 1 },
        seq![divider_row(area.width)],
    )
}

/// The panel of the line below the conversation.
pub fn draw_divider(area: Area) -> (r: Panel)
    ensures
        r@ == divider_panel(area),
{
    Panel::line(
        Area {
            x: area.x,
            y: area.y.saturating_add(area.height),
            width: area.width,
            height: 1,
        },
        divider_line(area.width),
    )
}

// ---------------------------------------------------------------------------------------------
// The bars at the top and at the bottom
// ---------------------------------------------------------------------------------------------
/// Where the project is.
pub struct GitInfo {
    pub project_name: String,
    pub branch: Option<String>,
}

/// The project and its branch.
pub open spec fn git_text(git: GitInfo) -> Seq<char> {
    match git.branch {
        Some(branch) => git.project_name@ + " ⊦ "@ + branch@,
        None => git.project_name@,
    }
}

/// What is left of a text without the white space around it, if anything is.
pub open spec fn trimmed_or_none(s: Seq<char>) -> Option<Seq<char>> {
    if trim(s).len() > 0 {
        Some(trim(s))
    } else {
        None
    }
}

impl GitInfo {
    /// Where the project is. `name` is the name of its directory; `branch` are the bytes that git
    /// printed when it was asked for the branch, if it ended well.
    pub fn new(name: Option<String>, branch: Option<&Vec<u8>>) -> (r: GitInfo)
        ensures
            r.project_name@ == match opt_text(name) {
                Some(name) => if name.len() > 0 {
                    name
                } else {
                    "."@
                },
                None => "."@,
            },
            opt_text(r.branch) == match branch {
                Some(printed) => trimmed_or_none(lossy(printed@)),
                None => None,
            },
    {
        let project_name = match name {
            Some(name) => if name.as_str().is_empty() {
                ".".to_owned()
            } else {
                name
            },
            None => ".".to_owned(),
        };
        let branch = match branch {
            Some(printed) => {
                let said = encoding::from_utf8_lossy(printed.as_slice());
                let left = text::trimmed(text::chars_of(said.as_str()).as_slice());
                if left.len() > 0 {
                    Some(text::string_of(left.as_slice()))
                } else {
                    None
                }
            },
            None => None,
        };
        GitInfo { project_name, branch }
    }

    /// The project and its branch.
    pub fn display(&self) -> (r: String)
        ensures
            r@ == git_text(*self),
    {
        match &self.branch {
            Some(branch) => text::glue3(self.project_name.as_str(), " ⊦ ", branch.as_str()),
            None => self.project_name.clone(),
        }
    }
}

/// What the bars show of the application.
pub struct RenderCtx {
    pub model: String,
    pub context_limit: usize,
    pub traces_len: usize,
    pub supervisor_enabled: bool,
    pub project_dir: String,
}

impl RenderCtx {
    /// What the bars show of an agent, with the directory of its project as it is written in full.
    pub fn capture(app: &App, project_dir: &str, traces_len: usize) -> (r: RenderCtx)
        ensures
            r.model@ == app.current_model@,
            r.context_limit == window_of(lowercase(app.current_model@)),
            r.traces_len == traces_len,
            r.supervisor_enabled == app.supervisor.enabled,
            r.project_dir@ == project_dir@,
    {
        RenderCtx {
            model: app.current_model.clone(),
            context_limit: app.context_limit(),
            traces_len,
            supervisor_enabled: app.supervisor.is_enabled(),
            project_dir: project_dir.to_owned(),
        }
    }
}

/// The mode of the agent as it is shown.
pub open spec fn mode_text(ui: UiState) -> Seq<char> {
    if ui.cognitive.mode@.len() == 0 {
        "Auto"@
    } else {
        ui.cognitive.mode@
    }
}

/// The right part of the bar at the top.
pub open spec fn top_right(ctx: RenderCtx, ui: UiState) -> Seq<PieceView> {
    let working = ui.streaming is Some;
    let spinner = spinner_frames()[(ui.spinner_index % SPINNER_LEN) as int];
    seq![
        if working {
            piece(" ◐ "@.push(spinner) + " Working"@, colored(Color::Pink))
        } else {
            piece(" ● Ready"@, colored(Color::Green))
        },
        piece(" · "@, colored(Color::Divider)),
        piece("🛡 "@, colored(Color::Gold)),
        piece("Supervisor "@, colored(Color::Meta)),
        if ctx.supervisor_enabled {
            piece("ON"@, colored(Color::Gold))
        } else {
            piece("OFF"@, colored(Color::Meta))
        },
        piece(" · "@, colored(Color::Divider)),
        piece("◉ "@, colored(Color::Purple)),
        piece("Mode "@, colored(Color::Meta)),
        piece(
            mode_text(ui),
            colored(
                if mode_text(ui) == "Controlled"@ {
                    Color::Pink
                } else {
                    Color::Purple
                },
            ),
        ),
    ]
}

/// The bar at the top: the project and the model at the left, the state of the agent at the right, and
/// a line below.
pub open spec fn top_bar(ctx: RenderCtx, ui: UiState, git: GitInfo, area: Area) -> Seq<PanelView> {
    let right = top_right(ctx, ui);
    let right_width = low16(at_most_max(pieces_columns(right)) as nat);
    seq![
        panel(
            Area { x: 1, y: area.y, width: minus(area.width, 2), height: 1 },
            seq![
                seq![
                    piece("✦ "@, colored(Color::Pink)),
                    piece(git_text(git), colored(Color::Text)),
                    piece(" · "@, colored(Color::Divider)),
                    piece(ctx.model@, colored(Color::Text)),
                ],
            ],
        ),
        panel(
            Area {
                x: minus(area.width, plus(right_width, 1)),
                y: area.y,
                width: right_width,
                height: 1,
            },
            seq![right],
        ),
        panel(
            Area { x: 0, y: plus(area.y, 1), width: area.width, height: 1 },
            seq![divider_row(area.width)],
        ),
    ]
}

/// The right part of the bar at the top.
fn draw_top_right(ctx: &RenderCtx, ui: &UiState) -> (r: Vec<Piece>)
    ensures
        row_view(r@) == top_right(*ctx, *ui),
{
    let state = if ui.is_generating() {
        let mut s = " ◐ ".to_owned();
        s.push(ui.spinner());
        s.append(" Working");
        Piece::new(s.as_str(), Style::colored(Color::Pink))
    } else {
        Piece::new(" ● Ready", Style::colored(Color::Green))
    };
    let mut row: Vec<Piece> = layout::two(
        state,
        Piece::new(" · ", Style::colored(Color::Divider)),
    );
    push_piece(&mut row, Piece::new("🛡 ", Style::colored(Color::Gold)));
    push_piece(&mut row, Piece::new("Supervisor ", Style::colored(Color::Meta)));
    if ctx.supervisor_enabled {
        push_piece(&mut row, Piece::new("ON", Style::colored(Color::Gold)));
    } else {
        push_piece(&mut row, Piece::new("OFF", Style::colored(Color::Meta)));
    }
    push_piece(&mut row, Piece::new(" · ", Style::colored(Color::Divider)));
    push_piece(&mut row, Piece::new("◉ ", Style::colored(Color::Purple)));
    push_piece(&mut row, Piece::new("Mode ", Style::colored(Color::Meta)));
    let mode = if ui.cognitive.mode.as_str().is_empty() {
        "Auto"
    } else {
        ui.cognitive.mode.as_str()
    };
    let color = if text::same(mode, "Controlled") {
        Color::Pink
    } else {
        Color::Purple
    };
    push_piece(&mut row, Piece::new(mode, Style::colored(color)));
    assert(row_view(row@) =~= top_right(*ctx, *ui));
    row
}

/// The bar at the top.
pub fn draw_top_bar(ctx: &RenderCtx, ui: &UiState, git: &GitInfo, area: Area) -> (r: Vec<Panel>)
    ensures
        panels_view(r@) == top_bar(*ctx, *ui, *git, area),
{
    let mut left: Vec<Piece> = layout::two(
        Piece::new("✦ ", Style::colored(Color::Pink)),
        Piece::new(git.display().as_str(), Style::colored(Color::Text)),
    );
    push_piece(&mut left, Piece::new(" · ", Style::colored(Color::Divider)));
    push_piece(&mut left, Piece::new(ctx.model.as_str(), Style::colored(Color::Text)));
    let ghost goal = top_bar(*ctx, *ui, *git, area);
    assert(row_view(left@) =~= goal[0].rows[0]);
    let mut out: Vec<Panel> = Vec::new();
    push_panel(
        &mut out,
        Panel::line(
            Area { x: 1, y: area.y, width: area.width.saturating_sub(2), height: 1 },
            left,
        ),
    );
    let right = draw_top_right(ctx, ui);
    let right_width: u16 = coordinate(pieces_width(&right));
    push_panel(
        &mut out,
        Panel::line(
            Area {
                x: area.width.saturating_sub(right_width.saturating_add(1)),
                y: area.y,
                width: right_width,
                height: 1,
            },
            right,
        ),
    );
    push_panel(
        &mut out,
        Panel::line(
            Area { x: 0, y: area.y.saturating_add(1), width: area.width, height: 1 },
            divider_line(area.width),
        ),
    );
    assert(panels_view(out@) =~= goal);
    out
}

/// The keys that the bar at the bottom reminds of.
pub const KEY_HINTS: &'static str = "↑ History · Esc Stop · Ctrl+D Quit";

/// The width of the gauge of the context.
pub const GAUGE_WIDTH: usize = 14;

/// How much of the context is in use, in percent.
pub open spec fn context_percent(tokens: usize, limit: usize) -> usize {
    if limit == 0 || tokens * 100 > usize::MAX {
        0
    } else {
        ((tokens * 100) / (limit as int)) as usize
    }
}

/// A gauge of `width` cells, `filled` of which are full; the next one is half full.
pub open spec fn gauge(filled: nat, width: nat) -> Seq<char> {
    if filled < width {
        repeated('▓', filled).push('▒') + repeated('░', (width - filled - 1) as nat)
    } else {
        repeated('▓', filled)
    }
}

/// A gauge of `width` cells, `filled` of which are full.
pub fn draw_gauge(filled: usize, width: usize) -> (r: String)
    ensures
        r@ == gauge(filled as nat, width as nat),
{
    let mut bar = text::repeat_char('▓', filled);
    if filled < width {
        bar.push('▒');
        bar.append(text::repeat_char('░', width - filled - 1).as_str());
    }
    bar
}

/// A row and, where it is not empty, a path behind a dot.
pub open spec fn with_path(row: Seq<PieceView>, path: Seq<char>) -> Seq<PieceView> {
    if path.len() == 0 {
        row
    } else {
        row.push(piece(" · "@, colored(Color::Divider))).push(piece(path, colored(Color::Meta)))
    }
}

/// The left part of the bar at the bottom when inputs wait.
pub open spec fn queue_row(queued: nat) -> Seq<PieceView> {
    seq![
        piece("◆ "@, colored(Color::Pink)),
        piece(decimal(queued) + " queued"@, colored(Color::Meta)),
    ]
}

/// The left part of the bar at the bottom otherwise: how full the context is.
pub open spec fn context_row(tokens: usize, limit: usize) -> Seq<PieceView> {
    let percent = context_percent(tokens, limit);
    seq![
        piece("◐ "@, colored(Color::Pink)),
        piece("ctx "@, colored(Color::Meta)),
        piece(
            gauge((capped(percent * GAUGE_WIDTH) / 100) as nat, GAUGE_WIDTH as nat),
            colored(Color::Pink),
        ),
        piece(
            " "@ + decimal(percent as nat) + "% · "@ + decimal((tokens / 1000) as nat) + "k/"@
                + decimal((limit / 1000) as nat) + "k"@,
            colored(Color::Meta),
        ),
    ]
}

/// What is left of `max` columns.
pub open spec fn room(max: usize, used: nat) -> int {
    if used <= max {
        max - used
    } else {
        0
    }
}

/// The left part of the bar at the bottom.
pub open spec fn bottom_left(ctx: RenderCtx, ui: UiState, left_max: usize) -> Seq<PieceView> {
    let queued = ui.input.pending_submit@.len();
    if queued > 0 {
        with_path(queue_row(queued), fitted_path(ctx.project_dir@, room(left_max, 14)))
    } else {
        let row = context_row(ui.total_tokens, ctx.context_limit);
        with_path(
            row,
            fitted_path(ctx.project_dir@, room(left_max, pieces_columns(row) + 4)),
        )
    }
}

/// The bar at the bottom: the context or the inputs that wait at the left, the keys at the right.
pub open spec fn bottom_bar(ctx: RenderCtx, ui: UiState, area: Area) -> Seq<PanelView> {
    let right_width = low16(KEY_HINTS@.len());
    let left_max = minus(area.width, plus(right_width, 2)) as usize;
    seq![
        panel(
            Area { x: 1, y: area.y, width: minus(area.width, 2), height: 1 },
            seq![bottom_left(ctx, ui, left_max)],
        ),
        panel(
            Area {
                x: minus(area.width, plus(right_width, 1)),
                y: area.y,
                width: right_width,
                height: 1,
            },
            seq![seq![piece(KEY_HINTS@, colored(Color::Meta))]],
        ),
    ]
}

/// How much of the context is in use, in percent.
pub fn percent_used(tokens: usize, limit: usize) -> (r: usize)
    ensures
        r == context_percent(tokens, limit),
{
    if limit == 0 {
        return 0;
    }
    match tokens.checked_mul(100) {
        Some(scaled) => {
            proof {
                assert(scaled as int / limit as int <= scaled) by (nonlinear_arith)
                    requires
                        limit > 0,
                        scaled >= 0,
                ;
            }
            scaled / limit
        },
        None => 0,
    }
}

/// The left part of the bar at the bottom.
fn draw_bottom_left(ctx: &RenderCtx, ui: &UiState, left_max: usize) -> (r: Vec<Piece>)
    ensures
        row_view(r@) == bottom_left(*ctx, *ui, left_max),
{
    let queued: usize = ui.input.pending_submit.len();
    let mut row: Vec<Piece>;
    let path_room: usize;
    if queued > 0 {
        let label = text::glue(text::number_text(queued as u64).as_str(), " queued");
        row = layout::two(
            Piece::new("◆ ", Style::colored(Color::Pink)),
            Piece::new(label.as_str(), Style::colored(Color::Meta)),
        );
        path_room = left_max.saturating_sub(14);
    } else {
        let percent: usize = percent_used(ui.total_tokens, ctx.context_limit);
        let filled: usize = match percent.checked_mul(GAUGE_WIDTH) {
            Some(scaled) => scaled / 100,
            None => usize::MAX / 100,
        };
        let bar = draw_gauge(filled, GAUGE_WIDTH);
        let mut figures = text::glue3(" ", text::number_text(percent as u64).as_str(), "% · ");
        figures.append(text::number_text((ui.total_tokens / 1000) as u64).as_str());
        figures.append("k/");
        figures.append(text::number_text((ctx.context_limit / 1000) as u64).as_str());
        figures.append("k");
        row = layout::two(
            Piece::new("◐ ", Style::colored(Color::Pink)),
            Piece::new("ctx ", Style::colored(Color::Meta)),
        );
        push_piece(&mut row, Piece::new(bar.as_str(), Style::colored(Color::Pink)));
        push_piece(&mut row, Piece::new(figures.as_str(), Style::colored(Color::Meta)));
        assert(row_view(row@) =~= context_row(ui.total_tokens, ctx.context_limit));
        path_room = left_max.saturating_sub(pieces_width(&row)).saturating_sub(4);
    }
    let path = layout::fit_path(ctx.project_dir.as_str(), path_room);
    if !path.as_str().is_empty() {
        push_piece(&mut row, Piece::new(" · ", Style::colored(Color::Divider)));
        push_piece(&mut row, Piece::new(path.as_str(), Style::colored(Color::Meta)));
    }
    row
}

/// The bar at the bottom.
pub fn draw_bottom_bar(ctx: &RenderCtx, ui: &UiState, area: Area) -> (r: Vec<Panel>)
    ensures
        panels_view(r@) == bottom_bar(*ctx, *ui, area),
{
    let right_width: u16 = coordinate(text::chars_of(KEY_HINTS).len());
    let left_max: usize = area.width.saturating_sub(right_width.saturating_add(2)) as usize;
    let mut out: Vec<Panel> = Vec::new();
    push_panel(
        &mut out,
        Panel::line(
            Area { x: 1, y: area.y, width: area.width.saturating_sub(2), height: 1 },
            draw_bottom_left(ctx, ui, left_max),
        ),
    );
    push_panel(
        &mut out,
        Panel::line(
            Area {
                x: area.width.saturating_sub(right_width.saturating_add(1)),
                y: area.y,
                width: right_width,
                height: 1,
            },
            layout::one(Piece::new(KEY_HINTS, Style::colored(Color::Meta))),
        ),
    );
    assert(panels_view(out@) =~= bottom_bar(*ctx, *ui, area));
    out
}

// ---------------------------------------------------------------------------------------------
// The conversation
// ---------------------------------------------------------------------------------------------
/// The start screen: a quotation, if there is one, and a hint.
pub open spec fn intro_rows(quote: Option<HitokotoView>, tip: Seq<char>, width: u16) -> Seq<
    Seq<PieceView>,
> {
    let hint = seq![
        centered_row(
            seq![piece("✦ "@, colored(Color::Pink)), piece(tip, italic(Color::Meta))],
            width,
        ),
    ];
    match quote {
        Some(quote) => {
            let ls = wrapped(quote.text, text_width(width, 4));
            let source = match quote.source {
                Some(source) => seq![
                    centered_row(seq![piece("—— "@ + source, colored(Color::Meta))], width),
                ],
                None => Seq::empty(),
            };
            Seq::new(
                ls.len(),
                |i: int| centered_row(seq![piece(ls[i], italic(Color::Text))], width),
            ) + source + seq![centered_row(seq![plain(""@)], width)] + hint
        },
        None => hint,
    }
}

/// The columns of a text on a screen: all but a margin, and ten at least.
pub open spec fn text_width(width: u16, margin: u16) -> int {
    if minus(width, margin) > 10 {
        minus(width, margin) as int
    } else {
        10
    }
}

/// The columns of a text on a screen.
fn width_for_text(width: u16, margin: u16) -> (r: usize)
    ensures
        r == text_width(width, margin),
        r >= 10,
{
    let inner: u16 = width.saturating_sub(margin);
    if inner > 10 {
        inner as usize
    } else {
        10
    }
}

/// The quotation of the start screen.
pub open spec fn quote_of(ui: UiState) -> Option<HitokotoView> {
    match ui.hitokoto {
        Some(quote) => Some(quote@),
        None => None,
    }
}

/// The panel of the start screen.
pub open spec fn intro_panel(ui: UiState, area: Area) -> PanelView {
    let rows = intro_rows(quote_of(ui), ui.tip@, area.width);
    panel(
        Area {
            x: 0,
            y: plus(area.y, minus(area.height, low16(rows.len())) / 2),
            width: area.width,
            height: low16(rows.len()),
        },
        rows,
    )
}

/// The panel of the start screen.
pub fn draw_intro(ui: &UiState, area: Area) -> (r: Panel)
    ensures
        r@ == intro_panel(*ui, area),
{
    let mut lines: Vec<Vec<Piece>> = Vec::new();
    assert(rows_view(lines@) =~= Seq::empty());
    if let Some(quote) = &ui.hitokoto {
        let ls = layout::wrap_text(quote.text.as_str(), width_for_text(area.width, 4));
        let ghost all = views(ls@);
        let ghost goal = Seq::new(
            all.len(),
            |i: int| centered_row(seq![piece(all[i], italic(Color::Text))], area.width),
        );
        let mut i: usize = 0;
        while i < ls.len()
            invariant
                i <= ls@.len(),
                all == views(ls@),
                goal == Seq::new(
                    all.len(),
                    |i: int| centered_row(seq![piece(all[i], italic(Color::Text))], area.width),
                ),
                rows_view(lines@) =~= goal.take(i as int),
            decreases ls@.len() - i,
        {
            assert(all[i as int] == ls@[i as int]@);
            push_row(
                &mut lines,
                centered_line(
                    layout::one(Piece::new(ls[i].as_str(), Style::italic(Color::Text))),
                    area.width,
                ),
            );
            assert(goal.take(i + 1) =~= goal.take(i as int).push(goal[i as int]));
            i += 1;
        }
        assert(goal.take(i as int) =~= goal);
        if let Some(source) = &quote.source {
            let line = text::glue("—— ", source.as_str());
            push_row(
                &mut lines,
                centered_line(
                    layout::one(Piece::new(line.as_str(), Style::colored(Color::Meta))),
                    area.width,
                ),
            );
        }
        push_row(&mut lines, centered_line(layout::one(Piece::plain("")), area.width));
    }
    push_row(
        &mut lines,
        centered_line(
            layout::two(
                Piece::new("✦ ", Style::colored(Color::Pink)),
                Piece::new(ui.tip.as_str(), Style::italic(Color::Meta)),
            ),
            area.width,
        ),
    );
    assert(rows_view(lines@) =~= intro_rows(quote_of(*ui), ui.tip@, area.width));
    assert(rows_view(lines@).len() == lines@.len());
    let height: u16 = coordinate(lines.len());
    Panel::of(
        Area {
            x: 0,
            y: area.y.saturating_add(area.height.saturating_sub(height) / 2),
            width: area.width,
            height,
        },
        lines,
    )
}

/// How far back the conversation is scrolled: no further than to its beginning.
pub open spec fn scrolled_back(offset: usize, total: u16, viewport: u16) -> usize {
    let most = minus(total, viewport) as usize;
    if offset <= most {
        offset
    } else {
        most
    }
}

/// The conversation as rows on a screen of `width` columns.
pub open spec fn shown_rows(ui: UiState, elapsed: Seq<Seq<char>>, width: u16) -> Seq<Seq<PieceView>> {
    conversation_rows(
        messages_view(ui.messages@),
        ui.streaming,
        elapsed,
        look_of(ui, text_width(width, 2) as nat),
        ui.messages@.len() as int,
    )
}

/// Whether the start screen is shown in place of the conversation.
pub open spec fn shows_intro(ui: UiState) -> bool {
    ui.messages@.len() == 0 && ui.mode != Mode::Approve
}

/// How far back the conversation is scrolled once it has been drawn in `area`.
pub open spec fn drawn_offset(ui: UiState, elapsed: Seq<Seq<char>>, area: Area) -> usize {
    if shows_intro(ui) {
        ui.scroll_offset
    } else {
        scrolled_back(
            ui.scroll_offset,
            low16(shown_rows(ui, elapsed, area.width).len()),
            minus(area.height, 1),
        )
    }
}

/// The panel of the conversation, which shows its end unless it is scrolled back.
pub open spec fn messages_panel(ui: UiState, elapsed: Seq<Seq<char>>, area: Area) -> PanelView {
    if shows_intro(ui) {
        intro_panel(ui, area)
    } else {
        let rows = shown_rows(ui, elapsed, area.width);
        let total = low16(rows.len());
        let viewport = minus(area.height, 1);
        PanelView {
            area,
            rows,
            scroll: minus(
                total,
                (viewport + scrolled_back(ui.scroll_offset, total, viewport)) as u16,
            ),
            wraps: false,
            clears: false,
        }
    }
}

/// Draws the conversation. `elapsed` holds, for each message, the time of its tool call as it is
/// shown.
pub fn draw_messages(ui: &mut UiState, elapsed: &Vec<String>, area: Area) -> (r: Panel)
    requires
        elapsed@.len() == old(ui).messages@.len(),
    ensures
        r@ == messages_panel(*old(ui), views(elapsed@), area),
        *final(ui) == (UiState {
            scroll_offset: drawn_offset(*old(ui), views(elapsed@), area),
            ..*old(ui)
        }),
{
    if ui.messages.len() == 0 && ui.mode != Mode::Approve {
        return draw_intro(ui, area);
    }
    let width: usize = width_for_text(area.width, 2);
    let rows = render::render_rows(ui, width, elapsed);
    assert(rows_view(rows@).len() == rows@.len());
    let total: u16 = coordinate(rows.len());
    let viewport: u16 = area.height.saturating_sub(1);
    let most: usize = total.saturating_sub(viewport) as usize;
    let back: usize = if ui.scroll_offset <= most {
        ui.scroll_offset
    } else {
        most
    };
    ui.scroll_offset = back;
    let scroll: u16 = total.saturating_sub(viewport + back as u16);
    Panel { area, rows, scroll, wraps: false, clears: false }
}

/// A conversation that is not scrolled back shows its last rows: those above the panel's last row
/// reach its end.
pub proof fn end_is_shown(ui: UiState, elapsed: Seq<Seq<char>>, area: Area)
    requires
        ui.messages@.len() > 0,
        ui.scroll_offset == 0,
        shown_rows(ui, elapsed, area.width).len() <= u16::MAX,
    ensures
        messages_panel(ui, elapsed, area).scroll + minus(area.height, 1) >= shown_rows(
            ui,
            elapsed,
            area.width,
        ).len(),
{
}

// ---------------------------------------------------------------------------------------------
// The input
// ---------------------------------------------------------------------------------------------
/// The rows of the input so far, and the columns of the last of them.
pub ghost struct InputRows {
    pub lines: nat,
    pub current: int,
}

/// The rows that the first `n` characters of the input take.
pub open spec fn input_rows(s: Seq<char>, width: int, n: int) -> InputRows
    decreases n,
{
    if n <= 0 {
        InputRows { lines: 1, current: 0 }
    } else {
        let before = input_rows(s, width, n - 1);
        let c = s[n - 1];
        if c == '\n' {
            InputRows { lines: before.lines + 1, current: 0 }
        } else if before.current + columns(c) > width {
            InputRows { lines: before.lines + 1, current: columns(c) }
        } else {
            InputRows { lines: before.lines, current: before.current + columns(c) }
        }
    }
}

/// The rows of the screen that the input takes: its own, five at most, and one for the line above.
pub open spec fn input_height(ui: UiState, width: u16) -> u16 {
    let inner = if minus(width, 2) > 4 {
        minus(width, 2) as int
    } else {
        4
    };
    let lines = input_rows(ui.input.buffer@, inner, ui.input.buffer@.len() as int).lines;
    if ui.mode == Mode::Approve {
        0
    } else if lines >= 5 {
        6
    } else {
        (lines + 1) as u16
    }
}

/// The rows of the screen that the input takes.
pub fn input_area_height(ui: &UiState, width: u16) -> (r: u16)
    ensures
        r == input_height(*ui, width),
        r <= 6,
{
    if ui.mode == Mode::Approve {
        return 0;
    }
    let inner: usize = if width.saturating_sub(2) > 4 {
        width.saturating_sub(2) as usize
    } else {
        4
    };
    let chars = text::chars_of(ui.input.buffer.as_str());
    let total: usize = chars.len();
    let mut lines: usize = 1;
    let mut current: usize = 0;
    let mut i: usize = 0;
    while i < total
        invariant
            i <= total,
            total == chars@.len(),
            4 <= inner,
            current <= inner,
            lines <= 6,
            ({
                let all = input_rows(chars@, inner as int, i as int);
                &&& all.current == current
                &&& (lines == all.lines || lines == 6 && all.lines >= 6)
            }),
        decreases total - i,
    {
        let c: char = chars[i];
        let mut next = false;
        if c == '\n' {
            next = true;
            current = 0;
        } else {
            let w: usize = layout::char_width(c);
            if w > inner - current {
                next = true;
                current = 0;
            }
            current = current + w;
        }
        if next && lines < 6 {
            lines += 1;
        }
        i += 1;
    }
    if lines >= 5 {
        6
    } else {
        lines as u16 + 1
    }
}

/// What the input shows while it is empty.
pub open spec fn placeholder(queued: nat) -> Seq<char> {
    if queued == 0 {
        "Ask anything, / for slash commands"@
    } else {
        "Ask anything, / for slash commands · "@ + decimal(queued)
            + " queued — will send when the agent finishes"@
    }
}

/// The lines of the input from `n` on back: the first behind a mark, the others unless they are empty.
pub open spec fn typed_rows(ls: Seq<Seq<char>>, n: int) -> Seq<Seq<PieceView>>
    decreases n,
{
    if n <= 0 {
        Seq::empty()
    } else if n == 1 {
        seq![
            if ls[0].len() == 0 {
                seq![piece("❯ "@, colored(Color::Pink))]
            } else {
                seq![piece("❯ "@, colored(Color::Pink)), piece(ls[0], colored(Color::Text))]
            },
        ]
    } else if ls[n - 1].len() == 0 {
        typed_rows(ls, n - 1)
    } else {
        typed_rows(ls, n - 1).push(seq![piece(ls[n - 1], colored(Color::Text))])
    }
}

/// The panel of the input.
pub open spec fn input_panel(ui: UiState, area: Area) -> PanelView {
    let buffer = ui.input.buffer@;
    PanelView {
        area,
        rows: if buffer.len() == 0 {
            seq![
                seq![
                    piece("❯ "@, colored(Color::Pink)),
                    piece(placeholder(ui.input.pending_submit@.len()), italic(Color::Meta)),
                ],
            ]
        } else {
            typed_rows(split(buffer, '\n'), split(buffer, '\n').len() as int)
        },
        scroll: 0,
        wraps: true,
        clears: false,
    }
}

/// Where the cursor stands: behind the part of its line that is before it, within the area.
pub open spec fn input_cursor(ui: UiState, area: Area) -> Position {
    let buffer = ui.input.buffer@;
    if buffer.len() == 0 {
        Position { x: plus(area.x, 2), y: area.y }
    } else {
        let before = split(prefix_of(buffer, ui.input.cursor as nat), '\n');
        let line = (before.len() - 1) as nat;
        let indent = if line == 0 {
            2
        } else {
            0
        };
        Position {
            x: least(
                plus(plus(area.x, indent), low16(text_columns(before.last()) as nat)),
                minus(plus(area.x, area.width), 1),
            ),
            y: least(
                plus(area.y, low16(line)),
                minus(plus(area.y, area.height), 1),
            ),
        }
    }
}

/// The panel of the input, and where the cursor stands.
pub fn draw_input(ui: &UiState, area: Area) -> (r: (Panel, Position))
    ensures
        r.0@ == input_panel(*ui, area),
        r.1 == input_cursor(*ui, area),
{
    let ghost goal = input_panel(*ui, area);
    let buffer = text::chars_of(ui.input.buffer.as_str());
    let mut out: Vec<Vec<Piece>> = Vec::new();
    if buffer.len() == 0 {
        let queued: usize = ui.input.pending_submit.len();
        let hint = if queued == 0 {
            "Ask anything, / for slash commands".to_owned()
        } else {
            text::glue3(
                "Ask anything, / for slash commands · ",
                text::number_text(queued as u64).as_str(),
                " queued — will send when the agent finishes",
            )
        };
        push_row(
            &mut out,
            layout::two(
                Piece::new("❯ ", Style::colored(Color::Pink)),
                Piece::new(hint.as_str(), Style::italic(Color::Meta)),
            ),
        );
        assert(rows_view(out@) =~= goal.rows);
        return (
            Panel { area, rows: out, scroll: 0, wraps: true, clears: false },
            Position { x: area.x.saturating_add(2), y: area.y },
        );
    }
    let ls = text::pieces(buffer.as_slice(), '\n');
    let ghost all = rows(ls@);
    let mut i: usize = 0;
    assert(rows_view(out@) =~= Seq::empty());
    while i < ls.len()
        invariant
            i <= ls@.len(),
            all == rows(ls@),
            rows_view(out@) == typed_rows(all, i as int),
        decreases ls@.len() - i,
    {
        assert(all[i as int] == ls@[i as int]@);
        let line = text::string_of(ls[i].as_slice());
        if i == 0 {
            let mut row: Vec<Piece> = layout::one(
                Piece::new("❯ ", Style::colored(Color::Pink)),
            );
            if ls[i].len() > 0 {
                push_piece(&mut row, Piece::new(line.as_str(), Style::colored(Color::Text)));
            }
            assert(row_view(row@) =~= typed_rows(all, 1)[0]);
            push_row(&mut out, row);
            assert(rows_view(out@) =~= typed_rows(all, 1));
        } else if ls[i].len() > 0 {
            push_row(
                &mut out,
                layout::one(Piece::new(line.as_str(), Style::colored(Color::Text))),
            );
        }
        i += 1;
    }
    let typed = text::first_chars(ui.input.buffer.as_str(), ui.input.cursor);
    let before = text::pieces(text::chars_of(typed.as_str()).as_slice(), '\n');
    proof {
        text::split_not_empty(typed@, '\n');
        assert(rows(before@).last() == before@.last()@);
    }
    let line: usize = before.len() - 1;
    let part = text::string_of(before[line].as_slice());
    let indent: u16 = if line == 0 {
        2
    } else {
        0
    };
    let x: u16 = area.x.saturating_add(indent).saturating_add(
        coordinate(layout::width_of(part.as_str())),
    );
    let y: u16 = area.y.saturating_add(coordinate(line));
    let cursor = Position {
        x: smaller_of(x, area.x.saturating_add(area.width).saturating_sub(1)),
        y: smaller_of(y, area.y.saturating_add(area.height).saturating_sub(1)),
    };
    (Panel { area, rows: out, scroll: 0, wraps: true, clears: false }, cursor)
}

// ---------------------------------------------------------------------------------------------
// Commands and selectors
// ---------------------------------------------------------------------------------------------
/// The mark before an item.
pub open spec fn item_mark(selected: bool) -> Seq<char> {
    if selected {
        "➤ "@
    } else {
        "  "@
    }
}

/// The style of an item.
pub open spec fn item_style(selected: bool) -> Style {
    if selected {
        bold(Color::Pink)
    } else {
        colored(Color::Text)
    }
}

/// The mark before an item.
fn mark_of(selected: bool) -> (r: &'static str)
    ensures
        r@ == item_mark(selected),
{
    if selected {
        "➤ "
    } else {
        "  "
    }
}

/// The style of an item.
fn style_of(selected: bool) -> (r: Style)
    ensures
        r == item_style(selected),
{
    if selected {
        Style::bold(Color::Pink)
    } else {
        Style::colored(Color::Text)
    }
}

/// The line of an area with the given number.
pub open spec fn line_area(area: Area, offset: u16, index: nat) -> Area {
    Area { x: area.x, y: plus(plus(area.y, offset), low16(index)), width: area.width, height: 1 }
}

/// The line of an area with the given number.
fn area_of_line(area: Area, offset: u16, index: usize) -> (r: Area)
    ensures
        r == line_area(area, offset, index as nat),
{
    Area {
        x: area.x,
        y: area.y.saturating_add(offset).saturating_add(coordinate(index)),
        width: area.width,
        height: 1,
    }
}

/// A command as it is listed.
pub open spec fn command_row(command: CommandView, selected: bool) -> Seq<PieceView> {
    seq![
        piece(item_mark(selected), item_style(selected)),
        piece("/"@ + command.name, item_style(selected)),
        piece("  "@ + command.description, colored(Color::Meta)),
    ]
}

/// The list of commands that match what is typed.
pub open spec fn command_panels(
    commands: Seq<CommandView>,
    selection: usize,
    area: Area,
) -> Seq<PanelView> {
    let height = least(low16(commands.len()), area.height);
    let popup = centered(area, least(area.width, 60), height);
    if commands.len() == 0 {
        Seq::empty()
    } else {
        seq![cleared(popup)] + Seq::new(
            height as nat,
            |i: int|
                panel(
                    line_area(popup, 0, i as nat),
                    seq![
                        command_row(
                            commands[i],
                            i == selection as int % commands.len() as int,
                        ),
                    ],
                ),
        )
    }
}

/// The list of commands, the one with the number `selection` marked.
pub fn draw_commands(commands: &Vec<(String, String)>, selection: usize, area: Area) -> (r: Vec<
    Panel,
>)
    ensures
        panels_view(r@) == command_panels(commands_view(commands@), selection, area),
{
    let ghost all = commands_view(commands@);
    let ghost goal = command_panels(all, selection, area);
    let mut out: Vec<Panel> = Vec::new();
    if commands.len() == 0 {
        assert(panels_view(out@) =~= goal);
        return out;
    }
    let height: u16 = smaller_of(coordinate(commands.len()), area.height);
    let popup = center(area, smaller_of(area.width, 60), height);
    let selected: usize = selection % commands.len();
    push_panel(&mut out, Panel::cleared(popup));
    let count: usize = height as usize;
    let mut i: usize = 0;
    proof {
        assert(low16(all.len()) <= all.len());
        assert(panels_view(out@) =~= goal.take(1));
    }
    while i < count
        invariant
            i <= count <= commands@.len(),
            commands@.len() > 0,
            all == commands_view(commands@),
            selected == selection as int % commands@.len() as int,
            count == height,
            height == least(low16(all.len()), area.height),
            popup == centered(area, least(area.width, 60), height),
            goal == command_panels(all, selection, area),
            panels_view(out@) == goal.take(i + 1),
        decreases count - i,
    {
        let style = style_of(i == selected);
        let name = text::glue("/", commands[i].0.as_str());
        let description = text::glue("  ", commands[i].1.as_str());
        let mut row: Vec<Piece> = layout::two(
            Piece::new(mark_of(i == selected), style),
            Piece::new(name.as_str(), style),
        );
        push_piece(&mut row, Piece::new(description.as_str(), Style::colored(Color::Meta)));
        assert(row_view(row@) =~= command_row(all[i as int], i == selected));
        push_panel(&mut out, Panel::line(area_of_line(popup, 0, i), row));
        assert(goal.take(i + 2) =~= goal.take(i + 1).push(goal[i + 1]));
        i += 1;
    }
    assert(goal.take(i + 1) =~= goal);
    out
}

/// What of the input picks commands: all behind the slashes.
pub open spec fn command_filter(buffer: Seq<char>) -> Seq<char> {
    trim_start_char(buffer, '/')
}

/// The list of commands that match what is typed.
pub fn draw_command_layer(ui: &UiState, area: Area) -> (r: Vec<Panel>)
    ensures
        panels_view(r@) == command_panels(
            commands_for(lowercase(command_filter(ui.input.buffer@))),
            ui.input.command_selection,
            area,
        ),
{
    let filter = text::trimmed_start_char(text::chars_of(ui.input.buffer.as_str()).as_slice(), '/');
    let commands = commands::filtered(text::string_of(filter.as_slice()).as_str());
    draw_commands(&commands, ui.input.command_selection, area)
}

/// The rows of a selector that are shown at most.
pub const SELECTOR_ROWS: u16 = 14;

/// The area of a selector.
pub open spec fn selector_area(selector: Selector, area: Area) -> Area {
    centered(
        area,
        least(area.width, 72),
        (least(low16(selector.items@.len()), SELECTOR_ROWS) + 2) as u16,
    )
}

/// A selector: its title, its items and a hint.
pub open spec fn selector_panels(selector: Selector, area: Area) -> Seq<PanelView> {
    let popup = selector_area(selector, area);
    seq![
        cleared(popup),
        panel(
            line_area(popup, 0, 0),
            seq![seq![piece(selector.title@, bold(Color::Pink))]],
        ),
    ] + Seq::new(
        least(low16(selector.items@.len()), SELECTOR_ROWS) as nat,
        |i: int|
            panel(
                line_area(popup, 1, i as nat),
                seq![
                    seq![
                        piece(item_mark(i == selector.selected), item_style(i == selector.selected)),
                        piece(selector.items@[i]@, item_style(i == selector.selected)),
                    ],
                ],
            ),
    ) + seq![
        panel(
            line_area(popup, minus(popup.height, 1), 0),
            seq![seq![piece(selector.hint@, colored(Color::Meta))]],
        ),
    ]
}

/// A selector: its title, its items and a hint.
pub fn draw_selector(selector: &Selector, area: Area) -> (r: Vec<Panel>)
    ensures
        panels_view(r@) == selector_panels(*selector, area),
{
    let ghost goal = selector_panels(*selector, area);
    let shown: u16 = smaller_of(coordinate(selector.items.len()), SELECTOR_ROWS);
    let popup = center(area, smaller_of(area.width, 72), shown + 2);
    let mut out: Vec<Panel> = Vec::new();
    push_panel(&mut out, Panel::cleared(popup));
    push_panel(
        &mut out,
        Panel::line(
            area_of_line(popup, 0, 0),
            layout::one(Piece::new(selector.title.as_str(), Style::bold(Color::Pink))),
        ),
    );
    let count: usize = shown as usize;
    let mut i: usize = 0;
    proof {
        assert(low16(selector.items@.len()) <= selector.items@.len());
        assert(panels_view(out@) =~= goal.take(2));
    }
    while i < count
        invariant
            i <= count <= selector.items@.len(),
            count == shown,
            shown == least(low16(selector.items@.len()), SELECTOR_ROWS),
            popup == selector_area(*selector, area),
            goal == selector_panels(*selector, area),
            panels_view(out@) == goal.take(i + 2),
        decreases count - i,
    {
        let style = style_of(i == selector.selected);
        push_panel(
            &mut out,
            Panel::line(
                area_of_line(popup, 1, i),
                layout::two(
                    Piece::new(mark_of(i == selector.selected), style),
                    Piece::new(selector.items[i].as_str(), style),
                ),
            ),
        );
        assert(goal.take(i + 3) =~= goal.take(i + 2).push(goal[i + 2]));
        i += 1;
    }
    push_panel(
        &mut out,
        Panel::line(
            area_of_line(popup, popup.height.saturating_sub(1), 0),
            layout::one(Piece::new(selector.hint.as_str(), Style::colored(Color::Meta))),
        ),
    );
    assert(panels_view(out@) =~= goal);
    out
}

// ---------------------------------------------------------------------------------------------
// Approvals and panels
// ---------------------------------------------------------------------------------------------
/// The tool that waits for approval: the one that was called last.
pub open spec fn waiting_tool(ui: UiState) -> Seq<char> {
    match ui.last_tool_index {
        Some(i) => if i < ui.messages@.len() {
            match ui.messages@[i as int]@ {
                MessageView::ToolCall(call) => call.name,
                _ => Seq::empty(),
            }
        } else {
            Seq::empty()
        },
        None => Seq::empty(),
    }
}

/// The row that asks for approval.
pub open spec fn approve_row(ui: UiState) -> Seq<PieceView> {
    seq![
        piece("◉ Tool Approval"@, bold(Color::Pink)),
        piece(" · "@, colored(Color::Divider)),
        piece(waiting_tool(ui), bold(Color::Text)),
        piece(" · "@, colored(Color::Divider)),
        piece(
            if ui.kitty_supported {
                "Enter: Approve · Shift+Enter: Remember · Esc: Deny"@
            } else {
                "Enter: Approve · Shift+Tab/y: Remember · Esc: Deny"@
            },
            colored(Color::Meta),
        ),
    ]
}

/// The panel that asks for approval, in the last row of the area.
pub open spec fn approve_panel(ui: UiState, area: Area) -> PanelView {
    panel(
        Area {
            x: 0,
            y: plus(area.y, minus(area.height, 1)),
            width: area.width,
            height: 1,
        },
        seq![centered_row(approve_row(ui), area.width)],
    )
}

/// The panel that asks for approval.
pub fn draw_approve(ui: &UiState, area: Area) -> (r: Panel)
    ensures
        r@ == approve_panel(*ui, area),
{
    let name = match ui.last_tool_index {
        Some(i) => if i < ui.messages.len() {
            match &ui.messages[i] {
                UiMessage::ToolCall(call) => call.name.clone(),
                _ => String::new(),
            }
        } else {
            String::new()
        },
        None => String::new(),
    };
    assert(name@ =~= waiting_tool(*ui));
    let keys = if ui.kitty_supported {
        "Enter: Approve · Shift+Enter: Remember · Esc: Deny"
    } else {
        "Enter: Approve · Shift+Tab/y: Remember · Esc: Deny"
    };
    let mut row: Vec<Piece> = layout::two(
        Piece::new("◉ Tool Approval", Style::bold(Color::Pink)),
        Piece::new(" · ", Style::colored(Color::Divider)),
    );
    push_piece(&mut row, Piece::new(name.as_str(), Style::bold(Color::Text)));
    push_piece(&mut row, Piece::new(" · ", Style::colored(Color::Divider)));
    push_piece(&mut row, Piece::new(keys, Style::colored(Color::Meta)));
    assert(row_view(row@) =~= approve_row(*ui));
    Panel::line(
        Area {
            x: 0,
            y: area.y.saturating_add(area.height.saturating_sub(1)),
            width: area.width,
            height: 1,
        },
        centered_line(row, area.width),
    )
}

/// The columns of the widest row.
pub open spec fn widest(rows: Seq<Seq<PieceView>>) -> usize
    decreases rows.len(),
{
    if rows.len() == 0 {
        0
    } else {
        let before = widest(rows.drop_last());
        let here = at_most_max(pieces_columns(rows.last()));
        if here >= before {
            here
        } else {
            before
        }
    }
}

/// The columns of the widest row.
fn widest_row(rows: &Vec<Vec<Piece>>) -> (r: usize)
    ensures
        r == widest(rows_view(rows@)),
{
    let ghost all = rows_view(rows@);
    let mut most: usize = 0;
    let mut i: usize = 0;
    while i < rows.len()
        invariant
            i <= rows@.len(),
            all == rows_view(rows@),
            most == widest(all.take(i as int)),
        decreases rows@.len() - i,
    {
        proof {
            assert(all.take(i + 1).drop_last() =~= all.take(i as int));
            assert(all.take(i + 1).last() == row_view(rows@[i as int]@));
        }
        let here: usize = pieces_width(&rows[i]);
        if here >= most {
            most = here;
        }
        i += 1;
    }
    assert(all.take(i as int) =~= all);
    most
}

/// The rows of a panel that fit on the screen, with a margin of six rows.
pub open spec fn window_height(total: nat, area: Area) -> u16 {
    least(minus(area.height, 6), low16(total))
}

/// How far a panel is scrolled: no further than to its end.
pub open spec fn window_start(total: nat, scroll: usize, area: Area) -> usize {
    let most = total - window_height(total, area);
    if scroll <= most {
        scroll
    } else {
        most as usize
    }
}

/// A panel in the middle of the screen that shows a part of its rows.
pub open spec fn window(all: Seq<Seq<PieceView>>, width: u16, scroll: usize, area: Area) -> PanelView {
    let height = window_height(all.len(), area);
    let start = window_start(all.len(), scroll, area) as int;
    PanelView {
        area: Area {
            x: plus(area.x, minus(area.width, width) / 2),
            y: plus(plus(area.y, 2), minus(minus(area.height, 6), height) / 2),
            width,
            height,
        },
        rows: all.subrange(start, start + height),
        scroll: 0,
        wraps: false,
        clears: true,
    }
}

/// A panel in the middle of the screen that shows a part of its rows, and how far it is scrolled.
fn draw_window(all: Vec<Vec<Piece>>, width: u16, scroll: usize, area: Area) -> (r: (Panel, usize))
    ensures
        r.0@ == window(rows_view(all@), width, scroll, area),
        r.1 == window_start(all@.len(), scroll, area),
{
    let total: usize = all.len();
    let ghost views = rows_view(all@);
    let height: u16 = smaller_of(area.height.saturating_sub(6), coordinate(total));
    assert(low16(total as nat) <= total);
    let most: usize = total - height as usize;
    let start: usize = if scroll <= most {
        scroll
    } else {
        most
    };
    let mut all = all;
    let ghost whole = all@;
    let mut rows = all.split_off(start);
    rows.truncate(height as usize);
    proof {
        assert(rows@ =~= whole.subrange(start as int, start + height));
        assert(rows_view(rows@) =~= views.subrange(start as int, start + height));
    }
    let place = Area {
        x: area.x.saturating_add(area.width.saturating_sub(width) / 2),
        y: area.y.saturating_add(2).saturating_add(
            area.height.saturating_sub(6).saturating_sub(height) / 2,
        ),
        width,
        height,
    };
    (Panel { area: place, rows, scroll: 0, wraps: false, clears: true }, start)
}

/// The rows of the status panel before they are centred.
pub open spec fn status_rows(status: Seq<StatusRow>) -> Seq<Seq<PieceView>> {
    seq![seq![piece("Cognitive Status"@, bold(Color::Pink))]] + Seq::new(
        status.len(),
        |i: int|
            seq![
                piece(
                    status[i].text@,
                    if status[i].title {
                        bold(status[i].color)
                    } else {
                        colored(status[i].color)
                    },
                ),
            ],
    )
}

/// Rows in the middle of `width` columns.
pub open spec fn centered_rows(rows: Seq<Seq<PieceView>>, width: u16) -> Seq<Seq<PieceView>> {
    Seq::new(rows.len(), |i: int| centered_row(rows[i], width))
}

/// The columns of the status panel.
pub open spec fn status_width(status: Seq<StatusRow>, area: Area) -> u16 {
    least(plus(low16(widest(status_rows(status)) as nat), 4), area.width)
}

/// The status panel.
pub open spec fn status_panel(status: Seq<StatusRow>, scroll: usize, area: Area) -> PanelView {
    let width = status_width(status, area);
    window(centered_rows(status_rows(status), width), width, scroll, area)
}

/// Rows in the middle of `width` columns.
fn center_rows(rows: Vec<Vec<Piece>>, width: u16) -> (r: Vec<Vec<Piece>>)
    ensures
        rows_view(r@) == centered_rows(rows_view(rows@), width),
{
    let ghost all = rows_view(rows@);
    let ghost goal = centered_rows(all, width);
    let mut rest = rows;
    let mut out: Vec<Vec<Piece>> = Vec::new();
    let mut i: usize = 0;
    let total: usize = rest.len();
    assert(rows_view(out@) =~= goal.take(0));
    while i < total
        invariant
            i <= total,
            total == all.len(),
            rows_view(rest@) == all.skip(i as int),
            goal == centered_rows(all, width),
            rows_view(out@) == goal.take(i as int),
        decreases total - i,
    {
        assert(rows_view(rest@).len() == rest@.len());
        assert(rows_view(rest@)[0] == row_view(rest@[0]@));
        let ghost before = rest@;
        let row = rest.remove(0);
        proof {
            assert(rest@ =~= before.skip(1));
            assert(rows_view(rest@) =~= rows_view(before).skip(1));
            assert(all.skip(i as int).skip(1) =~= all.skip(i + 1));
            assert(all.skip(i as int)[0] == all[i as int]);
        }
        push_row(&mut out, centered_line(row, width));
        assert(goal.take(i + 1) =~= goal.take(i as int).push(goal[i as int]));
        i += 1;
    }
    assert(goal.take(i as int) =~= goal);
    out
}

/// The status panel, and how far it is scrolled.
pub fn draw_status(status: &Vec<StatusRow>, scroll: usize, area: Area) -> (r: (Panel, usize))
    ensures
        r.0@ == status_panel(status@, scroll, area),
        r.1 == window_start(status@.len() + 1, scroll, area),
{
    let ghost goal = status_rows(status@);
    let mut all: Vec<Vec<Piece>> = Vec::new();
    push_row(&mut all, layout::one(Piece::new("Cognitive Status", Style::bold(Color::Pink))));
    let mut i: usize = 0;
    assert(rows_view(all@) =~= goal.take(1));
    while i < status.len()
        invariant
            i <= status@.len(),
            goal == status_rows(status@),
            rows_view(all@) == goal.take(i + 1),
        decreases status@.len() - i,
    {
        let style = if status[i].title {
            Style::bold(status[i].color)
        } else {
            Style::colored(status[i].color)
        };
        push_row(&mut all, layout::one(Piece::new(status[i].text.as_str(), style)));
        assert(goal.take(i + 2) =~= goal.take(i + 1).push(goal[i + 1]));
        i += 1;
    }
    assert(goal.take(i + 1) =~= goal);
    let width: u16 = smaller_of(coordinate(widest_row(&all)).saturating_add(4), area.width);
    let rows = center_rows(all, width);
    assert(rows_view(rows@).len() == rows@.len());
    draw_window(rows, width, scroll, area)
}

/// The keys with what they do.
pub const KEY_BINDINGS: [(&'static str, &'static str); 10] = [
    ("Enter", "Submit / Approve"),
    ("Shift+Enter", "Newline / Approve & Remember"),
    ("Shift+Tab / y", "Approve & Remember (fallback)"),
    ("Esc", "Interrupt, Close Panels, Deny"),
    ("↑/↓", "Input History / Scroll Panels"),
    ("Tab", "Complete Command / Expand & Collapse Folds"),
    ("PageUp/Down", "Scroll Message History"),
    ("Paste", "Insert text (multi-line ok) — Enter sends"),
    ("Ctrl+C", "Interrupt Generation / Quit when idle"),
    ("Ctrl+D", "Quit"),
];

/// The columns of a key and what it does, or of a command and its description behind its slash.
pub open spec fn pair_columns(a: Seq<char>, b: Seq<char>, extra: nat) -> usize {
    at_most_max(extra + text_columns(a) as nat + text_columns(b) as nat)
}

/// The larger of two numbers.
pub open spec fn most_of(a: usize, b: usize) -> usize {
    if a >= b {
        a
    } else {
        b
    }
}

/// The most columns that one of the first `n` keys takes.
pub open spec fn keys_columns(n: int) -> usize
    decreases n,
{
    if n <= 0 {
        0
    } else {
        most_of(
            pair_columns(KEY_BINDINGS@[n - 1].0@, KEY_BINDINGS@[n - 1].1@, 0),
            keys_columns(n - 1),
        )
    }
}

/// The most columns that one of the first `n` commands takes.
pub open spec fn commands_columns(n: int) -> usize
    decreases n,
{
    if n <= 0 {
        0
    } else {
        most_of(
            pair_columns(command(n - 1).name, command(n - 1).description, 2),
            commands_columns(n - 1),
        )
    }
}

/// The columns of the help panel.
pub open spec fn help_width(area: Area) -> u16 {
    least(
        plus(
            low16(
                most_of(
                    keys_columns(KEY_BINDINGS@.len() as int),
                    commands_columns(COMMANDS@.len() as int),
                ) as nat,
            ),
            4,
        ),
        area.width,
    )
}

/// A key at the left and what it does at the right.
pub open spec fn help_line(key: Seq<char>, desc: Seq<char>, width: u16) -> Seq<PieceView> {
    let used = plus(low16(text_columns(key) as nat), low16(text_columns(desc) as nat));
    seq![
        piece(key, colored(Color::Text)),
        plain(repeated(' ', minus(width, used) as nat)),
        piece(desc, colored(Color::Meta)),
    ]
}

/// A title of the help panel.
pub open spec fn help_title(title: Seq<char>, width: u16) -> Seq<PieceView> {
    centered_row(seq![piece(title, bold(Color::Pink))], width)
}

/// The rows of the help panel: the keys and the commands.
pub open spec fn help_rows(width: u16) -> Seq<Seq<PieceView>> {
    seq![help_title("Help"@, width), help_title("Key Bindings"@, width)] + Seq::new(
        KEY_BINDINGS@.len(),
        |i: int| help_line(KEY_BINDINGS@[i].0@, KEY_BINDINGS@[i].1@, width),
    ) + seq![help_title("Commands"@, width)] + Seq::new(
        COMMANDS@.len(),
        |i: int|
            centered_row(
                seq![
                    piece("/"@ + command(i).name, colored(Color::Purple)),
                    piece("  "@ + command(i).description, colored(Color::Meta)),
                ],
                width,
            ),
    )
}

/// The help panel.
pub open spec fn help_panel(scroll: usize, area: Area) -> PanelView {
    window(help_rows(help_width(area)), help_width(area), scroll, area)
}

/// A key at the left and what it does at the right.
pub fn help_row(key: &str, desc: &str, width: u16) -> (r: Vec<Piece>)
    ensures
        row_view(r@) == help_line(key@, desc@, width),
{
    let key_width: u16 = coordinate(layout::width_of(key));
    let desc_width: u16 = coordinate(layout::width_of(desc));
    let pad: u16 = width.saturating_sub(key_width.saturating_add(desc_width));
    let mut row: Vec<Piece> = layout::two(
        Piece::new(key, Style::colored(Color::Text)),
        Piece::plain(text::repeat_char(' ', pad as usize).as_str()),
    );
    push_piece(&mut row, Piece::new(desc, Style::colored(Color::Meta)));
    assert(row_view(row@) =~= help_line(key@, desc@, width));
    row
}

/// The columns of the help panel.
fn width_of_help(area: Area) -> (r: u16)
    ensures
        r == help_width(area),
{
    let mut most: usize = 0;
    let mut i: usize = 0;
    while i < 10
        invariant
            i <= 10,
            most == keys_columns(i as int),
        decreases 10 - i,
    {
        let (key, desc) = KEY_BINDINGS[i];
        let here: usize = layout::width_of(key).saturating_add(layout::width_of(desc));
        if here >= most {
            most = here;
        }
        i += 1;
    }
    let mut other: usize = 0;
    let mut k: usize = 0;
    while k < 15
        invariant
            k <= 15,
            other == commands_columns(k as int),
        decreases 15 - k,
    {
        let (name, desc) = COMMANDS[k];
        let two: usize = 2;
        let here: usize = two.saturating_add(layout::width_of(name)).saturating_add(
            layout::width_of(desc),
        );
        if here >= other {
            other = here;
        }
        k += 1;
    }
    let widest: usize = if most >= other {
        most
    } else {
        other
    };
    smaller_of(coordinate(widest).saturating_add(4), area.width)
}

/// A title of the help panel.
fn draw_help_title(title: &str, width: u16) -> (r: Vec<Piece>)
    ensures
        row_view(r@) == help_title(title@, width),
{
    centered_line(layout::one(Piece::new(title, Style::bold(Color::Pink))), width)
}

/// The help panel, and how far it is scrolled.
pub fn draw_help(scroll: usize, area: Area) -> (r: (Panel, usize))
    ensures
        r.0@ == help_panel(scroll, area),
        r.1 == window_start(help_rows(help_width(area)).len(), scroll, area),
{
    let width: u16 = width_of_help(area);
    let ghost goal = help_rows(width);
    let mut all: Vec<Vec<Piece>> = Vec::new();
    push_row(&mut all, draw_help_title("Help", width));
    push_row(&mut all, draw_help_title("Key Bindings", width));
    let mut i: usize = 0;
    assert(rows_view(all@) =~= goal.take(2));
    while i < 10
        invariant
            i <= 10,
            goal == help_rows(width),
            rows_view(all@) == goal.take(i + 2),
        decreases 10 - i,
    {
        let (key, desc) = KEY_BINDINGS[i];
        push_row(&mut all, help_row(key, desc, width));
        assert(goal.take(i + 3) =~= goal.take(i + 2).push(goal[i + 2]));
        i += 1;
    }
    push_row(&mut all, draw_help_title("Commands", width));
    assert(rows_view(all@) =~= goal.take(13));
    let mut k: usize = 0;
    while k < 15
        invariant
            k <= 15,
            goal == help_rows(width),
            rows_view(all@) == goal.take(k + 13),
        decreases 15 - k,
    {
        let (name, description) = COMMANDS[k];
        let name = text::glue("/", name);
        let description = text::glue("  ", description);
        push_row(
            &mut all,
            centered_line(
                layout::two(
                    Piece::new(name.as_str(), Style::colored(Color::Purple)),
                    Piece::new(description.as_str(), Style::colored(Color::Meta)),
                ),
                width,
            ),
        );
        assert(goal.take(k + 14) =~= goal.take(k + 13).push(goal[k + 13]));
        k += 1;
    }
    assert(goal.take(k + 13) =~= goal);
    assert(rows_view(all@).len() == all@.len());
    draw_window(all, width, scroll, area)
}

// ---------------------------------------------------------------------------------------------
// The form for a model
// ---------------------------------------------------------------------------------------------
/// A field of the form.
pub open spec fn field_row(label: Seq<char>, value: Seq<char>, active: bool) -> Seq<PieceView> {
    seq![
        piece(item_mark(active), item_style(active)),
        piece(label + ": "@, item_style(active)),
        piece(value, colored(Color::Text)),
    ]
}

/// The rows of the form below its title: its fields, an error, if there is one, and a hint.
pub open spec fn setup_content(setup: SetupState) -> Seq<Seq<PieceView>> {
    let error = match setup.error {
        Some(error) => seq![seq![piece(error@, colored(Color::Red))]],
        None => Seq::empty(),
    };
    Seq::new(
        setup.fields@.len(),
        |i: int| field_row(setup.fields@[i].0@, setup.fields@[i].1@, i == setup.active),
    ) + error + seq![
        seq![
            piece(
                "Enter: Next Field / Finish · ↑↓ : Move · Esc: Cancel"@,
                colored(Color::Meta),
            ),
        ],
    ]
}

/// The rows of the form.
pub open spec fn setup_rows(setup: SetupState) -> Seq<Seq<PieceView>> {
    seq![seq![piece("Model Setup"@, bold(Color::Pink))]] + setup_content(setup)
}

/// The area of the form.
pub open spec fn setup_area(setup: SetupState, area: Area) -> Area {
    centered(
        area,
        least(plus(low16(widest(setup_content(setup)) as nat), 6), area.width),
        low16(setup_rows(setup).len()),
    )
}

/// The panel of the form.
pub open spec fn setup_panel(setup: SetupState, area: Area) -> PanelView {
    PanelView {
        area: setup_area(setup, area),
        rows: setup_rows(setup),
        scroll: 0,
        wraps: false,
        clears: true,
    }
}

/// Where the cursor stands in the form: in the active field, within the form.
pub open spec fn setup_cursor(setup: SetupState, area: Area) -> Option<Position> {
    let popup = setup_area(setup, area);
    if setup.active < setup.fields@.len() {
        let (label, value) = setup.fields@[setup.active as int];
        let column = plus(
            plus(plus(2, low16(label@.len())), 2),
            low16(text_columns(prefix_of(value@, setup.cursor as nat)) as nat),
        );
        Some(
            Position {
                x: least(plus(popup.x, column), minus(plus(popup.x, popup.width), 1)),
                y: least(
                    plus(popup.y, plus(low16(setup.active as nat), 1)),
                    minus(plus(popup.y, popup.height), 1),
                ),
            },
        )
    } else {
        None
    }
}

/// The rows of the form below its title.
fn draw_setup_content(setup: &SetupState) -> (r: Vec<Vec<Piece>>)
    ensures
        rows_view(r@) == setup_content(*setup),
{
    let ghost goal = setup_content(*setup);
    let mut content: Vec<Vec<Piece>> = Vec::new();
    let mut i: usize = 0;
    assert(rows_view(content@) =~= goal.take(0));
    while i < setup.fields.len()
        invariant
            i <= setup.fields@.len(),
            goal == setup_content(*setup),
            rows_view(content@) == goal.take(i as int),
        decreases setup.fields@.len() - i,
    {
        let style = style_of(i == setup.active);
        let label = text::glue(setup.fields[i].0.as_str(), ": ");
        let mut row: Vec<Piece> = layout::two(
            Piece::new(mark_of(i == setup.active), style),
            Piece::new(label.as_str(), style),
        );
        push_piece(&mut row, Piece::new(setup.fields[i].1.as_str(), Style::colored(Color::Text)));
        proof {
            assert(row_view(row@) =~= goal[i as int]);
            assert(goal.take(i + 1) =~= goal.take(i as int).push(goal[i as int]));
        }
        push_row(&mut content, row);
        i += 1;
    }
    if let Some(error) = &setup.error {
        push_row(
            &mut content,
            layout::one(Piece::new(error.as_str(), Style::colored(Color::Red))),
        );
    }
    push_row(
        &mut content,
        layout::one(
            Piece::new(
                "Enter: Next Field / Finish · ↑↓ : Move · Esc: Cancel",
                Style::colored(Color::Meta),
            ),
        ),
    );
    assert(rows_view(content@) =~= goal);
    content
}

/// The panel of the form, and where the cursor stands.
pub fn draw_setup(setup: &SetupState, area: Area) -> (r: (Panel, Option<Position>))
    ensures
        r.0@ == setup_panel(*setup, area),
        r.1 == setup_cursor(*setup, area),
{
    let content = draw_setup_content(setup);
    let width: u16 = smaller_of(coordinate(widest_row(&content)).saturating_add(6), area.width);
    let mut lines: Vec<Vec<Piece>> = Vec::new();
    push_row(&mut lines, layout::one(Piece::new("Model Setup", Style::bold(Color::Pink))));
    render::append_rows(&mut lines, content);
    proof {
        assert(rows_view(lines@) =~= setup_rows(*setup));
        assert(rows_view(lines@).len() == lines@.len());
    }
    let popup = center(area, width, coordinate(lines.len()));
    let cursor = if setup.active < setup.fields.len() {
        let label = text::chars_of(setup.fields[setup.active].0.as_str());
        let before = text::first_chars(setup.fields[setup.active].1.as_str(), setup.cursor);
        let two: u16 = 2;
        let column: u16 = two.saturating_add(coordinate(label.len())).saturating_add(
            2,
        ).saturating_add(coordinate(layout::width_of(before.as_str())));
        let row: u16 = coordinate(setup.active).saturating_add(1);
        Some(
            Position {
                x: smaller_of(
                    popup.x.saturating_add(column),
                    popup.x.saturating_add(popup.width).saturating_sub(1),
                ),
                y: smaller_of(
                    popup.y.saturating_add(row),
                    popup.y.saturating_add(popup.height).saturating_sub(1),
                ),
            },
        )
    } else {
        None
    };
    (Panel { area: popup, rows: lines, scroll: 0, wraps: false, clears: true }, cursor)
}

// ---------------------------------------------------------------------------------------------
// The screen
// ---------------------------------------------------------------------------------------------
/// What is on the screen: panels, of which later ones cover earlier ones, and the cursor.
#[derive(Debug)]
pub struct Scene {
    pub panels: Vec<Panel>,
    pub cursor: Option<Position>,
}

/// The area of the conversation, between the bars and the input.
pub open spec fn message_area(ui: UiState, width: u16, height: u16) -> Area {
    Area { x: 0, y: 2, width, height: minus(height, (4 + input_height(ui, width)) as u16) }
}

/// The area of the input, below the conversation.
pub open spec fn input_area(ui: UiState, width: u16, height: u16) -> Area {
    let messages = message_area(ui, width, height);
    Area {
        x: 0,
        y: plus(plus(messages.y, messages.height), 1),
        width,
        height: input_height(ui, width),
    }
}

/// The area of the conversation while an approval is asked for.
pub open spec fn shorter(area: Area) -> Area {
    Area { height: minus(area.height, 1), ..area }
}

/// What stands between the bars.
pub open spec fn middle(
    ui: UiState,
    elapsed: Seq<Seq<char>>,
    status: Seq<StatusRow>,
    width: u16,
    height: u16,
) -> Seq<PanelView> {
    let messages = message_area(ui, width, height);
    let input = input_area(ui, width, height);
    let whole = Area { x: 0, y: 0, width, height };
    match ui.mode {
        Mode::Chat => seq![
            messages_panel(ui, elapsed, messages),
            divider_panel(messages),
            input_panel(ui, input),
        ],
        Mode::Command => command_panels(
            commands_for(lowercase(command_filter(ui.input.buffer@))),
            ui.input.command_selection,
            messages,
        ) + seq![divider_panel(messages), input_panel(ui, input)],
        Mode::Approve => seq![
            messages_panel(ui, elapsed, shorter(messages)),
            approve_panel(ui, messages),
            divider_panel(messages),
        ],
        Mode::Selector => match ui.selector {
            Some(selector) => selector_panels(selector, messages),
            None => Seq::empty(),
        },
        Mode::Status => seq![status_panel(status, ui.panel_scroll, whole)],
        Mode::Help => seq![help_panel(ui.panel_scroll, whole)],
        Mode::Setup => match ui.setup {
            Some(setup) => seq![setup_panel(setup, whole)],
            None => Seq::empty(),
        },
    }
}

/// Where the cursor stands.
pub open spec fn scene_cursor(ui: UiState, width: u16, height: u16) -> Option<Position> {
    match ui.mode {
        Mode::Chat | Mode::Command => Some(
            input_cursor(ui, input_area(ui, width, height)),
        ),
        Mode::Setup => match ui.setup {
            Some(setup) => setup_cursor(setup, Area { x: 0, y: 0, width, height }),
            None => None,
        },
        _ => None,
    }
}

/// What the drawing changes: how far the conversation or a panel is scrolled.
pub open spec fn after_drawing(
    ui: UiState,
    elapsed: Seq<Seq<char>>,
    status: Seq<StatusRow>,
    width: u16,
    height: u16,
) -> UiState {
    let messages = message_area(ui, width, height);
    let whole = Area { x: 0, y: 0, width, height };
    match ui.mode {
        Mode::Chat => UiState { scroll_offset: drawn_offset(ui, elapsed, messages), ..ui },
        Mode::Approve => UiState {
            scroll_offset: drawn_offset(ui, elapsed, shorter(messages)),
            ..ui
        },
        Mode::Status => UiState {
            panel_scroll: window_start(status.len() + 1, ui.panel_scroll, whole),
            ..ui
        },
        Mode::Help => UiState {
            panel_scroll: window_start(
                help_rows(help_width(whole)).len(),
                ui.panel_scroll,
                whole,
            ),
            ..ui
        },
        _ => ui,
    }
}

/// Draws the screen. `elapsed` holds, for each message, the time of its tool call as it is shown;
/// `status` holds the rows of the status panel.
pub fn draw(
    ui: &mut UiState,
    ctx: &RenderCtx,
    git: &GitInfo,
    elapsed: &Vec<String>,
    status: &Vec<StatusRow>,
    width: u16,
    height: u16,
) -> (r: Scene)
    requires
        elapsed@.len() == old(ui).messages@.len(),
    ensures
        *final(ui) == after_drawing(*old(ui), views(elapsed@), status@, width, height),
        r.cursor == scene_cursor(*old(ui), width, height),
        panels_view(r.panels@) == top_bar(
            *ctx,
            *old(ui),
            *git,
            Area { x: 0, y: 0, width, height: 2 },
        ) + middle(*old(ui), views(elapsed@), status@, width, height) + bottom_bar(
            *ctx,
            *final(ui),
            Area { x: 0, y: minus(height, 1), width, height: 1 },
        ),
{
    let ghost top = top_bar(*ctx, *old(ui), *git, Area { x: 0, y: 0, width, height: 2 });
    let ghost mid = middle(*old(ui), views(elapsed@), status@, width, height);
    let whole = Area { x: 0, y: 0, width, height };
    let input_height: u16 = input_area_height(ui, width);
    let messages = Area { x: 0, y: 2, width, height: height.saturating_sub(4 + input_height) };
    let input = Area {
        x: 0,
        y: messages.y.saturating_add(messages.height).saturating_add(1),
        width,
        height: input_height,
    };
    let mut panels = draw_top_bar(ctx, ui, git, Area { x: 0, y: 0, width, height: 2 });
    let mut cursor: Option<Position> = None;
    match ui.mode {
        Mode::Chat => {
            let typed = draw_input(ui, input);
            cursor = Some(typed.1);
            push_panel(&mut panels, draw_messages(ui, elapsed, messages));
            push_panel(&mut panels, draw_divider(messages));
            push_panel(&mut panels, typed.0);
        },
        Mode::Command => {
            append_panels(&mut panels, draw_command_layer(ui, messages));
            push_panel(&mut panels, draw_divider(messages));
            let typed = draw_input(ui, input);
            cursor = Some(typed.1);
            push_panel(&mut panels, typed.0);
        },
        Mode::Approve => {
            let question = draw_approve(ui, messages);
            let above = Area { height: messages.height.saturating_sub(1), ..messages };
            push_panel(&mut panels, draw_messages(ui, elapsed, above));
            push_panel(&mut panels, question);
            push_panel(&mut panels, draw_divider(messages));
        },
        Mode::Selector => {
            if let Some(selector) = &ui.selector {
                append_panels(&mut panels, draw_selector(selector, messages));
            }
        },
        Mode::Status => {
            let (shown, scroll) = draw_status(status, ui.panel_scroll, whole);
            ui.panel_scroll = scroll;
            push_panel(&mut panels, shown);
        },
        Mode::Help => {
            let (shown, scroll) = draw_help(ui.panel_scroll, whole);
            ui.panel_scroll = scroll;
            push_panel(&mut panels, shown);
        },
        Mode::Setup => {
            if let Some(setup) = &ui.setup {
                let (shown, place) = draw_setup(setup, whole);
                cursor = place;
                push_panel(&mut panels, shown);
            }
        },
    }
    assert(panels_view(panels@) =~= top + mid);
    append_panels(
        &mut panels,
        draw_bottom_bar(
            ctx,
            ui,
            Area { x: 0, y: height.saturating_sub(1), width, height: 1 },
        ),
    );
    Scene { panels, cursor }
}

} // verus!
