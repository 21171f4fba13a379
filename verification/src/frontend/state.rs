//! What the terminal shows: messages, input, selectors and the counters of a turn.

use crate::frontend::hitokoto::Hitokoto;
use crate::frontend::select::Selector;
use crate::frontend::theme;
use crate::frontend::theme::{spinner_frames, SPINNER_LEN};
use crate::json;
use crate::json::{json_parsed, Json, JsonView};
use crate::text;
use crate::number::Single;
use crate::text::{
    contains, decimal, has_prefix, lines, opt_text, rows, split, unsigned, views, words,
};
use vstd::prelude::*;

verus! {

// ---------------------------------------------------------------------------------------------
// Differences in a tool's output
// ---------------------------------------------------------------------------------------------
/// A line of a difference: an added line (`+`), a removed one (`-`) or one of context (a space), with
/// its number where that is known.
#[derive(Debug, Clone, PartialEq)]
pub struct DiffLine {
    pub kind: char,
    pub line_no: Option<u32>,
    pub text: String,
}

/// A `DiffLine` with its text as characters.
pub ghost struct DiffView {
    pub kind: char,
    pub line_no: Option<u32>,
    pub text: Seq<char>,
}

impl View for DiffLine {
    type V = DiffView;

    open spec fn view(&self) -> DiffView {
        DiffView { kind: self.kind, line_no: self.line_no, text: self.text@ }
    }
}

/// The views of the lines of a difference.
pub open spec fn diff_view(lines: Seq<DiffLine>) -> Seq<DiffView> {
    Seq::new(lines.len(), |i: int| lines[i]@)
}

/// Whether a text shows a difference.
pub open spec fn is_diff(output: Seq<char>) -> bool {
    contains(output, "diff --git"@) || contains(output, "@@ -"@)
}

/// Whether a line is marked with `mark` and is no header line, and holds more than the mark.
pub open spec fn counted(line: Seq<char>, mark: char) -> bool {
    &&& line.len() > 1 && line[0] == mark
    &&& !has_prefix(line, "+++"@)
    &&& !has_prefix(line, "---"@)
    &&& !has_prefix(line, "@@"@)
}

/// The number of lines with the mark `mark`.
pub open spec fn marked_lines(ls: Seq<Seq<char>>, mark: char) -> nat
    decreases ls.len(),
{
    if ls.len() == 0 {
        0
    } else if counted(ls.last(), mark) {
        marked_lines(ls.drop_last(), mark) + 1
    } else {
        marked_lines(ls.drop_last(), mark)
    }
}

/// The line number in the last of the words that begins with `mark`.
pub open spec fn hunk_start(ws: Seq<Seq<char>>, mark: char) -> Option<nat>
    decreases ws.len(),
{
    if ws.len() == 0 {
        None
    } else if ws.last().len() > 0 && ws.last()[0] == mark {
        unsigned(split(ws.last().skip(1), ',')[0], u32::MAX as nat)
    } else {
        hunk_start(ws.drop_last(), mark)
    }
}

/// The first old and the first new line number in the header of a hunk.
pub open spec fn hunk_numbers(header: Seq<char>) -> Option<(u32, u32)> {
    match (hunk_start(words(header), '-'), hunk_start(words(header), '+')) {
        (Some(old), Some(new)) => Some((old as u32, new as u32)),
        _ => None,
    }
}

/// The most lines of a difference that are kept.
pub const DIFF_ROWS: usize = 40;

/// A difference as far as it has been read: the lines so far and the numbers of the next old and the
/// next new line, once a hunk has begun.
pub ghost struct DiffState {
    pub found: Seq<DiffView>,
    pub old_no: u32,
    pub new_no: u32,
    pub in_hunk: bool,
}

/// The number after `n`.
pub open spec fn next_no(n: u32) -> u32 {
    if n == u32::MAX {
        0
    } else {
        (n + 1) as u32
    }
}

/// `text` without a space at its beginning.
pub open spec fn without_space(line: Seq<char>) -> Seq<char> {
    if line.len() > 0 && line[0] == ' ' {
        line.skip(1)
    } else {
        line
    }
}

/// The difference after one more line.
pub open spec fn diff_step(state: DiffState, line: Seq<char>) -> DiffState {
    let number = |n: u32|
        if state.in_hunk {
            Some(n)
        } else {
            None
        };
    if state.found.len() >= DIFF_ROWS {
        state
    } else if has_prefix(line, "+++"@) || has_prefix(line, "---"@) || has_prefix(
        line,
        "diff --git"@,
    ) {
        state
    } else if has_prefix(line, "@@"@) {
        match hunk_numbers(line.skip(2)) {
            Some((old, new)) => DiffState { old_no: old, new_no: new, in_hunk: true, ..state },
            None => state,
        }
    } else if line.len() > 0 && line[0] == '+' {
        if line.len() == 1 {
            state
        } else {
            DiffState {
                found: state.found.push(
                    DiffView { kind: '+', line_no: number(state.new_no), text: line.skip(1) },
                ),
                new_no: if state.in_hunk {
                    next_no(state.new_no)
                } else {
                    state.new_no
                },
                ..state
            }
        }
    } else if line.len() > 0 && line[0] == '-' {
        if line.len() == 1 {
            state
        } else {
            DiffState {
                found: state.found.push(
                    DiffView { kind: '-', line_no: number(state.old_no), text: line.skip(1) },
                ),
                old_no: if state.in_hunk {
                    next_no(state.old_no)
                } else {
                    state.old_no
                },
                ..state
            }
        }
    } else if state.in_hunk {
        DiffState {
            found: state.found.push(
                DiffView { kind: ' ', line_no: number(state.new_no), text: without_space(line) },
            ),
            old_no: next_no(state.old_no),
            new_no: next_no(state.new_no),
            ..state
        }
    } else {
        state
    }
}

/// The difference after the first `n` lines.
pub open spec fn diff_upto(ls: Seq<Seq<char>>, n: int) -> DiffState
    decreases n,
{
    if n <= 0 {
        DiffState { found: Seq::empty(), old_no: 0, new_no: 0, in_hunk: false }
    } else {
        diff_step(diff_upto(ls, n - 1), ls[n - 1])
    }
}

/// The lines of the difference that a tool's output shows, up to a limit.
pub open spec fn shown_diff(output: Seq<char>) -> Seq<DiffView> {
    if is_diff(output) {
        diff_upto(lines(output), lines(output).len() as int).found
    } else {
        Seq::empty()
    }
}

/// Whether a text shows a difference.
pub fn looks_like_diff(output: &[char]) -> (r: bool)
    ensures
        r == is_diff(output@),
{
    text::has(output, "diff --git") || text::has(output, "@@ -")
}

/// The numbers of added and removed lines in a tool's output.
pub fn count_diff_lines(output: &str) -> (r: (usize, usize))
    ensures
        is_diff(output@) ==> r.0 == marked_lines(lines(output@), '+') && r.1 == marked_lines(
            lines(output@),
            '-',
        ),
        !is_diff(output@) ==> r.0 == 0 && r.1 == 0,
{
    let chars = text::chars_of(output);
    if !looks_like_diff(chars.as_slice()) {
        return (0, 0);
    }
    let ls = text::lines_of(chars.as_slice());
    let ghost all = rows(ls@);
    let mut added: usize = 0;
    let mut removed: usize = 0;
    let mut i: usize = 0;
    while i < ls.len()
        invariant
            i <= ls@.len(),
            all == rows(ls@),
            added <= i,
            removed <= i,
            added == marked_lines(all.take(i as int), '+'),
            removed == marked_lines(all.take(i as int), '-'),
        decreases ls@.len() - i,
    {
        let line = &ls[i];
        proof {
            assert(all.take(i + 1).drop_last() =~= all.take(i as int));
            assert(all.take(i + 1).last() == line@);
        }
        if !text::starts_with(line.as_slice(), "+++") && !text::starts_with(line.as_slice(), "---")
            && !text::starts_with(line.as_slice(), "@@") && line.len() > 1 {
            if line[0] == '+' {
                added += 1;
            } else if line[0] == '-' {
                removed += 1;
            }
        }
        i += 1;
    }
    assert(all.take(i as int) =~= all);
    (added, removed)
}

/// The line number in the last of the words that begins with `mark`.
fn start_number(ws: &Vec<Vec<char>>, mark: char) -> (r: Option<u32>)
    ensures
        match r {
            Some(n) => hunk_start(rows(ws@), mark) == Some(n as nat),
            None => hunk_start(rows(ws@), mark) is None,
        },
{
    let ghost all = rows(ws@);
    let mut k: usize = ws.len();
    assert(all.take(k as int) =~= all);
    while k > 0
        invariant
            k <= ws@.len(),
            all == rows(ws@),
            hunk_start(all, mark) == hunk_start(all.take(k as int), mark),
        decreases k,
    {
        let word = &ws[k - 1];
        proof {
            assert(all.take(k as int).last() == word@);
            assert(all.take(k as int).drop_last() =~= all.take(k - 1));
        }
        if word.len() > 0 && word[0] == mark {
            let rest = text::part(word.as_slice(), 1, word.len());
            assert(rest@ =~= word@.skip(1));
            let numbers = text::pieces(rest.as_slice(), ',');
            assert(rows(numbers@)[0] == numbers@[0]@);
            return match text::parse_unsigned(numbers[0].as_slice(), u32::MAX as u64) {
                Some(n) => Some(n as u32),
                None => None,
            };
        }
        k -= 1;
    }
    None
}

/// The first old and the first new line number in the header of a hunk.
pub fn parse_hunk(header: &str) -> (r: Option<(u32, u32)>)
    ensures
        r == hunk_numbers(header@),
{
    let ws = text::words_of(text::chars_of(header).as_slice());
    match (start_number(&ws, '-'), start_number(&ws, '+')) {
        (Some(old), Some(new)) => Some((old, new)),
        _ => None,
    }
}

/// Appends a line to a difference.
fn push_diff(found: &mut Vec<DiffLine>, kind: char, line_no: Option<u32>, line: &[char], skip: usize)
    requires
        skip <= line@.len(),
    ensures
        diff_view(final(found)@) == diff_view(old(found)@).push(
            DiffView { kind, line_no, text: line@.skip(skip as int) },
        ),
{
    let ghost before = diff_view(found@);
    let body = text::part(line, skip, line.len());
    assert(body@ =~= line@.skip(skip as int));
    let entry = DiffLine { kind, line_no, text: text::string_of(body.as_slice()) };
    found.push(entry);
    assert(diff_view(found@) =~= before.push(entry@));
}

/// The lines of the difference that a tool's output shows, up to a limit.
pub fn parse_diff(output: &str) -> (r: Vec<DiffLine>)
    ensures
        diff_view(r@) == shown_diff(output@),
{
    let mut found: Vec<DiffLine> = Vec::new();
    let chars = text::chars_of(output);
    if !looks_like_diff(chars.as_slice()) {
        assert(diff_view(found@) =~= Seq::empty());
        return found;
    }
    let ls = text::lines_of(chars.as_slice());
    let ghost all = rows(ls@);
    let mut old_no: u32 = 0;
    let mut new_no: u32 = 0;
    let mut in_hunk = false;
    let mut i: usize = 0;
    assert(diff_view(found@) =~= Seq::empty());
    while i < ls.len()
        invariant
            i <= ls@.len(),
            all == rows(ls@),
            diff_upto(all, i as int) == (DiffState {
                found: diff_view(found@),
                old_no,
                new_no,
                in_hunk,
            }),
        decreases ls@.len() - i,
    {
        let line = &ls[i];
        let ghost before = diff_upto(all, i as int);
        assert(all[i as int] == line@);
        assert(diff_view(found@).len() == found@.len());
        if found.len() >= DIFF_ROWS {
        } else if text::starts_with(line.as_slice(), "+++") || text::starts_with(
            line.as_slice(),
            "---",
        ) || text::starts_with(line.as_slice(), "diff --git") {
        } else if text::starts_with(line.as_slice(), "@@") {
            proof {
                reveal_strlit("@@");
            }
            let header = text::part(line.as_slice(), 2, line.len());
            assert(header@ =~= line@.skip(2));
            if let Some((old, new)) = parse_hunk(text::string_of(header.as_slice()).as_str()) {
                old_no = old;
                new_no = new;
                in_hunk = true;
            }
        } else if line.len() > 0 && line[0] == '+' {
            if line.len() > 1 {
                let number = if in_hunk {
                    Some(new_no)
                } else {
                    None
                };
                push_diff(&mut found, '+', number, line.as_slice(), 1);
                if in_hunk {
                    new_no = new_no.wrapping_add(1);
                }
            }
        } else if line.len() > 0 && line[0] == '-' {
            if line.len() > 1 {
                let number = if in_hunk {
                    Some(old_no)
                } else {
                    None
                };
                push_diff(&mut found, '-', number, line.as_slice(), 1);
                if in_hunk {
                    old_no = old_no.wrapping_add(1);
                }
            }
        } else if in_hunk {
            let skip: usize = if line.len() > 0 && line[0] == ' ' {
                1
            } else {
                assert(line@.skip(0) =~= line@);
                0
            };
            push_diff(&mut found, ' ', Some(new_no), line.as_slice(), skip);
            old_no = old_no.wrapping_add(1);
            new_no = new_no.wrapping_add(1);
        }
        i += 1;
    }
    found
}

/// A difference is shown in no more rows than the limit.
pub proof fn shown_diff_is_limited(output: Seq<char>)
    ensures
        shown_diff(output).len() <= DIFF_ROWS,
{
    diff_upto_is_limited(lines(output), lines(output).len() as int);
}

proof fn diff_upto_is_limited(ls: Seq<Seq<char>>, n: int)
    ensures
        diff_upto(ls, n).found.len() <= DIFF_ROWS,
    decreases n,
{
    if n > 0 {
        diff_upto_is_limited(ls, n - 1);
    }
}

// ---------------------------------------------------------------------------------------------
// Messages
// ---------------------------------------------------------------------------------------------
/// How far a tool call has come.
#[derive(Debug, Clone, Copy, PartialEq, Eq, Structural)]
pub enum ToolStatus {
    Running,
    Done,
    Errored,
    Denied,
}

/// A tool call in the conversation. Times are nanoseconds on the caller's clock.
#[derive(Debug)]
pub struct ToolCallMsg {
    pub tool_call_id: String,
    pub name: String,
    pub arguments: String,
    pub status: ToolStatus,
    pub summary: String,
    pub output: String,
    pub diff: Vec<DiffLine>,
    pub elapsed: Option<u64>,
    pub started: u64,
    pub verdict: Option<String>,
}

/// A message of the conversation.
#[derive(Debug)]
pub enum UiMessage {
    User { content: String, time: String },
    Assistant { content: String, reasoning: String },
    System { content: String },
    Summary(String),
    ToolCall(ToolCallMsg),
}

/// A `ToolCallMsg` with its texts as characters.
pub ghost struct CallView {
    pub tool_call_id: Seq<char>,
    pub name: Seq<char>,
    pub arguments: Seq<char>,
    pub status: ToolStatus,
    pub summary: Seq<char>,
    pub output: Seq<char>,
    pub diff: Seq<DiffView>,
    pub elapsed: Option<u64>,
    pub started: u64,
    pub verdict: Option<Seq<char>>,
}

/// A `UiMessage` with its texts as characters.
pub ghost enum MessageView {
    User { content: Seq<char>, time: Seq<char> },
    Assistant { content: Seq<char>, reasoning: Seq<char> },
    System { content: Seq<char> },
    Summary(Seq<char>),
    ToolCall(CallView),
}

impl View for ToolCallMsg {
    type V = CallView;

    open spec fn view(&self) -> CallView {
        CallView {
            tool_call_id: self.tool_call_id@,
            name: self.name@,
            arguments: self.arguments@,
            status: self.status,
            summary: self.summary@,
            output: self.output@,
            diff: diff_view(self.diff@),
            elapsed: self.elapsed,
            started: self.started,
            verdict: opt_text(self.verdict),
        }
    }
}

impl View for UiMessage {
    type V = MessageView;

    open spec fn view(&self) -> MessageView {
        match self {
            UiMessage::User { content, time } => MessageView::User { content: content@, time: time@ },
            UiMessage::Assistant { content, reasoning } => MessageView::Assistant {
                content: content@,
                reasoning: reasoning@,
            },
            UiMessage::System { content } => MessageView::System { content: content@ },
            UiMessage::Summary(summary) => MessageView::Summary(summary@),
            UiMessage::ToolCall(call) => MessageView::ToolCall(call@),
        }
    }
}

/// The views of the messages of a conversation.
pub open spec fn messages_view(messages: Seq<UiMessage>) -> Seq<MessageView> {
    Seq::new(messages.len(), |i: int| messages[i]@)
}

// ---------------------------------------------------------------------------------------------
// State
// ---------------------------------------------------------------------------------------------
/// What the screen shows and where keys go.
#[derive(Debug, Clone, Copy, PartialEq, Eq, Structural)]
pub enum Mode {
    Chat,
    Command,
    Approve,
    Selector,
    Status,
    Help,
    Setup,
}

/// What a selector chooses from.
#[derive(Debug, Clone, Copy, PartialEq, Eq, Structural)]
pub enum SelectorKind {
    Models,
    Tasks,
    Rules,
    Skills,
    Approvals,
    Remember,
    History,
    RemoveModel,
}

/// The cognitive signals that the status panel shows.
#[derive(Debug)]
pub struct CognitiveSnapshot {
    pub dopamine: Single,
    pub norepinephrine: Single,
    pub acetylcholine: Single,
    pub serotonin: Single,
    pub valence: Single,
    pub arousal: Single,
    pub uncertainty: Single,
    pub conflict: Single,
    pub confidence: Single,
    pub wm_slots: Vec<String>,
    pub rpe: Option<Single>,
    pub last_error: Option<Single>,
    pub prediction_direction: Option<Single>,
    pub mode: String,
    pub drive_homeostatic: Single,
    pub drive_curiosity: Single,
    pub drive_salience: Single,
}

impl CognitiveSnapshot {
    /// Whether no signal has come in yet.
    pub open spec fn blank(self) -> bool {
        let zero = Single { bits: 0 };
        &&& self.dopamine == zero && self.norepinephrine == zero && self.acetylcholine == zero
        &&& self.serotonin == zero && self.valence == zero && self.arousal == zero
        &&& self.uncertainty == zero && self.conflict == zero && self.confidence == zero
        &&& self.wm_slots@.len() == 0 && self.mode@.len() == 0
        &&& self.rpe is None && self.last_error is None && self.prediction_direction is None
        &&& self.drive_homeostatic == zero && self.drive_curiosity == zero && self.drive_salience
            == zero
    }
}

impl Default for CognitiveSnapshot {
    fn default() -> (r: Self)
        ensures
            r.blank(),
    {
        let zero = Single { bits: 0 };
        CognitiveSnapshot {
            dopamine: zero,
            norepinephrine: zero,
            acetylcholine: zero,
            serotonin: zero,
            valence: zero,
            arousal: zero,
            uncertainty: zero,
            conflict: zero,
            confidence: zero,
            wm_slots: Vec::new(),
            rpe: None,
            last_error: None,
            prediction_direction: None,
            mode: String::new(),
            drive_homeostatic: zero,
            drive_curiosity: zero,
            drive_salience: zero,
        }
    }
}

/// The input line: its text, the cursor as a number of characters, and the texts sent before.
pub struct InputState {
    pub buffer: String,
    pub cursor: usize,
    pub history: Vec<String>,
    pub history_index: Option<usize>,
    pub command_selection: usize,
    pub pending_submit: Vec<String>,
}

impl InputState {
    /// The cursor stands within the text, and the history position within the history.
    pub open spec fn wf(self) -> bool {
        &&& self.cursor <= self.buffer@.len()
        &&& self.history_index matches Some(i) ==> i < self.history@.len()
    }

    /// Whether nothing has been typed or sent yet.
    pub open spec fn blank(self) -> bool {
        &&& self.buffer@.len() == 0 && self.cursor == 0
        &&& self.history@.len() == 0 && self.history_index is None
        &&& self.command_selection == 0 && self.pending_submit@.len() == 0
    }

    /// An empty input line.
    pub fn new() -> (r: Self)
        ensures
            r.blank(),
            r.wf(),
    {
        InputState {
            buffer: String::new(),
            cursor: 0,
            history: Vec::new(),
            history_index: None,
            command_selection: 0,
            pending_submit: Vec::new(),
        }
    }
}

impl Default for InputState {
    fn default() -> (r: Self)
        ensures
            r.blank(),
            r.wf(),
    {
        Self::new()
    }
}

/// The form for a model: its fields with their labels, the active field and the cursor in it.
pub struct SetupState {
    pub fields: Vec<(String, String)>,
    pub active: usize,
    pub cursor: usize,
    pub error: Option<String>,
}

/// A tool call that waits for its turn.
pub struct PendingCall {
    pub name: String,
    pub arguments: Json,
    pub tool_call_id: Option<String>,
}

/// Everything that the terminal shows. Times are nanoseconds on the caller's clock.
pub struct UiState {
    pub messages: Vec<UiMessage>,
    pub streaming: Option<usize>,
    pub mode: Mode,
    pub input: InputState,
    pub cognitive: CognitiveSnapshot,
    pub total_tokens: usize,
    pub context_tokens: usize,
    pub selector: Option<Selector>,
    pub setup: Option<SetupState>,
    pub scroll_offset: usize,
    pub last_tool_index: Option<usize>,
    pub tip: String,
    pub kitty_supported: bool,
    pub spinner_index: usize,
    pub turn_start: u64,
    pub turn_files: Vec<String>,
    pub turn_added: usize,
    pub turn_removed: usize,
    pub turn_tool_calls: usize,
    pub pending_tool_calls: Vec<PendingCall>,
    pub last_recorded_assistant_index: Option<usize>,
    pub hitokoto: Option<Hitokoto>,
    pub fold_expanded: bool,
    pub panel_scroll: usize,
    pub cancelled: bool,
}

/// A counter that stops at the largest value of its type.
pub open spec fn capped(n: int) -> usize {
    if n > usize::MAX {
        usize::MAX
    } else {
        n as usize
    }
}

/// The file that a tool call's arguments name: the field `filepath`, or else `path`.
pub open spec fn path_of(arguments: JsonView) -> Option<Seq<char>> {
    match arguments.field("filepath"@) {
        Some(value) => value.text(),
        None => arguments.text_field("path"@),
    }
}

/// The file that the text of a tool call's arguments names.
pub open spec fn path_in(arguments: Seq<char>) -> Option<Seq<char>> {
    match json_parsed(arguments) {
        Some(value) => path_of(value),
        None => None,
    }
}

/// The file that a tool call's arguments name.
pub fn argument_path(arguments: &Json) -> (r: Option<String>)
    ensures
        opt_text(r) == path_of(arguments@),
{
    match arguments.get("filepath") {
        Some(value) => match value.as_str() {
            Some(s) => Some(s.to_owned()),
            None => None,
        },
        None => arguments.get_str("path"),
    }
}

/// The file that the text of a tool call's arguments names.
pub fn extract_filepath(arguments: &str) -> (r: Option<String>)
    ensures
        opt_text(r) == path_in(arguments@),
{
    match json::parse_json(arguments) {
        Some(value) => argument_path(&value),
        None => None,
    }
}

/// The files with one more, which is named once only.
pub open spec fn with_file(files: Seq<Seq<char>>, path: Option<Seq<char>>) -> Seq<Seq<char>> {
    match path {
        Some(path) => if files.contains(path) {
            files
        } else {
            files.push(path)
        },
        None => files,
    }
}

/// The summary of a turn.
pub open spec fn turn_summary(files: nat, added: nat, removed: nat, elapsed: Seq<char>) -> Seq<char> {
    (if files == 1 {
        "1 file"@
    } else {
        decimal(files) + " files"@
    }) + " changed · +"@ + decimal(added) + " −"@ + decimal(removed) + " · "@ + elapsed
}

/// The message that the end of the tool call `id` is recorded in: the call with that identifier, or
/// else the call that was started last.
pub open spec fn finished_index(
    messages: Seq<MessageView>,
    id: Seq<char>,
    last: Option<usize>,
    from: int,
) -> Option<int>
    decreases messages.len() - from,
{
    if from < 0 {
        None
    } else if from < messages.len() {
        match messages[from] {
            MessageView::ToolCall(call) => if call.tool_call_id == id {
                Some(from)
            } else {
                finished_index(messages, id, last, from + 1)
            },
            _ => finished_index(messages, id, last, from + 1),
        }
    } else {
        match last {
            Some(index) => if index < messages.len() && messages[index as int] is ToolCall {
                Some(index as int)
            } else {
                None
            },
            None => None,
        }
    }
}

/// A tool call after its end.
pub open spec fn finished_call(
    call: CallView,
    summary: Seq<char>,
    output: Seq<char>,
    status: ToolStatus,
    verdict: Option<Seq<char>>,
    now: u64,
) -> CallView {
    CallView {
        status,
        summary,
        output,
        diff: shown_diff(output),
        elapsed: Some(elapsed_since(call.started, now)),
        verdict,
        ..call
    }
}

/// The time from `start` to `now`, which is none if the clock went back.
pub open spec fn elapsed_since(start: u64, now: u64) -> u64 {
    if now >= start {
        (now - start) as u64
    } else {
        0
    }
}

/// The messages after the end of the tool call `id`.
pub open spec fn finished_messages(
    messages: Seq<MessageView>,
    id: Seq<char>,
    last: Option<usize>,
    summary: Seq<char>,
    output: Seq<char>,
    status: ToolStatus,
    verdict: Option<Seq<char>>,
    now: u64,
) -> Seq<MessageView> {
    match finished_index(messages, id, last, 0) {
        Some(i) => messages.update(
            i,
            MessageView::ToolCall(
                finished_call(messages[i]->ToolCall_0, summary, output, status, verdict, now),
            ),
        ),
        None => messages,
    }
}

/// The messages after a piece of the assistant's answer. `streaming` is the message that the answer
/// goes to; without one, a new message is begun.
pub open spec fn streamed(
    messages: Seq<MessageView>,
    streaming: Option<usize>,
    content: Seq<char>,
    reasoning: Seq<char>,
) -> Seq<MessageView> {
    match streaming {
        Some(i) => if i < messages.len() {
            match messages[i as int] {
                MessageView::Assistant { content: c, reasoning: r } => messages.update(
                    i as int,
                    MessageView::Assistant { content: c + content, reasoning: r + reasoning },
                ),
                _ => messages,
            }
        } else {
            messages
        },
        None => messages.push(MessageView::Assistant { content, reasoning }),
    }
}

impl UiState {
    /// An empty conversation that began at `now`.
    pub fn new(tip: String, now: u64) -> (r: Self)
        ensures
            r.messages@.len() == 0,
            r.streaming is None,
            r.mode == Mode::Chat,
            r.input.blank(),
            r.cognitive.blank(),
            r.total_tokens == 0 && r.context_tokens == 0,
            r.selector is None && r.setup is None,
            r.scroll_offset == 0 && r.last_tool_index is None,
            r.tip == tip,
            r.kitty_supported,
            r.spinner_index == 0,
            r.turn_start == now,
            r.turn_files@.len() == 0,
            r.turn_added == 0 && r.turn_removed == 0 && r.turn_tool_calls == 0,
            r.pending_tool_calls@.len() == 0,
            r.last_recorded_assistant_index is None,
            r.hitokoto is None,
            !r.fold_expanded && r.panel_scroll == 0 && !r.cancelled,
    {
        UiState {
            messages: Vec::new(),
            streaming: None,
            mode: Mode::Chat,
            input: InputState::new(),
            cognitive: CognitiveSnapshot::default(),
            total_tokens: 0,
            context_tokens: 0,
            selector: None,
            setup: None,
            scroll_offset: 0,
            last_tool_index: None,
            tip,
            kitty_supported: true,
            spinner_index: 0,
            turn_start: now,
            turn_files: Vec::new(),
            turn_added: 0,
            turn_removed: 0,
            turn_tool_calls: 0,
            pending_tool_calls: Vec::new(),
            last_recorded_assistant_index: None,
            hitokoto: None,
            fold_expanded: false,
            panel_scroll: 0,
            cancelled: false,
        }
    }

    /// Begins a turn: its clock starts and its counters stand at nothing.
    pub fn reset_turn(&mut self, now: u64)
        ensures
            *final(self) == (UiState {
                turn_start: now,
                turn_files: final(self).turn_files,
                turn_added: 0,
                turn_removed: 0,
                turn_tool_calls: 0,
                ..*old(self)
            }),
            final(self).turn_files@.len() == 0,
    {
        self.turn_start = now;
        self.turn_files = Vec::new();
        self.turn_added = 0;
        self.turn_removed = 0;
        self.turn_tool_calls = 0;
    }

    /// Turns the spinner on by one frame.
    pub fn tick_spinner(&mut self)
        ensures
            *final(self) == (UiState {
                spinner_index: ((old(self).spinner_index + 1) % SPINNER_LEN as int) as usize,
                ..*old(self)
            }),
    {
        self.spinner_index = (self.spinner_index % SPINNER_LEN + 1) % SPINNER_LEN;
    }

    /// The frame that the spinner shows.
    pub fn spinner(&self) -> (r: char)
        ensures
            r == spinner_frames()[(self.spinner_index % SPINNER_LEN) as int],
    {
        theme::spinner_frame(self.spinner_index)
    }

    /// Counts a tool call and the file that its arguments name.
    pub fn note_tool_started(&mut self, arguments: &str)
        ensures
            *final(self) == (UiState {
                turn_tool_calls: capped(old(self).turn_tool_calls + 1),
                turn_files: final(self).turn_files,
                ..*old(self)
            }),
            views(final(self).turn_files@) == with_file(
                views(old(self).turn_files@),
                path_in(arguments@),
            ),
    {
        self.turn_tool_calls = self.turn_tool_calls.saturating_add(1);
        if let Some(path) = extract_filepath(arguments) {
            let ghost before = views(self.turn_files@);
            let mut i: usize = 0;
            while i < self.turn_files.len()
                invariant
                    i <= self.turn_files@.len(),
                    before == views(self.turn_files@),
                    before == views(old(self).turn_files@),
                    path_in(arguments@) == Some(path@),
                    forall|k: int| 0 <= k < i ==> #[trigger] before[k] != path@,
                    *self == (UiState {
                        turn_tool_calls: capped(old(self).turn_tool_calls + 1),
                        turn_files: self.turn_files,
                        ..*old(self)
                    }),
                decreases self.turn_files@.len() - i,
            {
                assert(before[i as int] == self.turn_files@[i as int]@);
                if text::same(self.turn_files[i].as_str(), path.as_str()) {
                    assert(before.contains(path@));
                    return ;
                }
                i += 1;
            }
            assert(!before.contains(path@));
            self.turn_files.push(path);
            assert(views(self.turn_files@) =~= before.push(path@));
        }
    }

    /// Counts the lines that a tool's output shows as added and removed.
    pub fn note_tool_finished(&mut self, output: &str)
        ensures
            *final(self) == (UiState {
                turn_added: capped(
                    old(self).turn_added + if is_diff(output@) {
                        marked_lines(lines(output@), '+') as int
                    } else {
                        0
                    },
                ),
                turn_removed: capped(
                    old(self).turn_removed + if is_diff(output@) {
                        marked_lines(lines(output@), '-') as int
                    } else {
                        0
                    },
                ),
                ..*old(self)
            }),
    {
        let (added, removed) = count_diff_lines(output);
        self.turn_added = self.turn_added.saturating_add(added);
        self.turn_removed = self.turn_removed.saturating_add(removed);
    }

    /// The time since the turn began.
    pub fn turn_elapsed(&self, now: u64) -> (r: u64)
        ensures
            r == elapsed_since(self.turn_start, now),
    {
        now.saturating_sub(self.turn_start)
    }

    /// Ends a turn. If it called tools, a summary of them joins the conversation, and the next turn
    /// begins. `elapsed` is the length of the turn as it is shown.
    pub fn finish_turn(&mut self, elapsed: &str, now: u64)
        ensures
            old(self).turn_tool_calls == 0 ==> *final(self) == *old(self),
            old(self).turn_tool_calls > 0 ==> {
                &&& *final(self) == (UiState {
                    messages: final(self).messages,
                    turn_start: now,
                    turn_files: final(self).turn_files,
                    turn_added: 0,
                    turn_removed: 0,
                    turn_tool_calls: 0,
                    ..*old(self)
                })
                &&& final(self).turn_files@.len() == 0
                &&& messages_view(final(self).messages@) == messages_view(old(self).messages@).push(
                    MessageView::Summary(
                        turn_summary(
                            old(self).turn_files@.len(),
                            old(self).turn_added as nat,
                            old(self).turn_removed as nat,
                            elapsed@,
                        ),
                    ),
                )
            },
    {
        if self.turn_tool_calls == 0 {
            return ;
        }
        let files: usize = self.turn_files.len();
        let mut summary = if files == 1 {
            "1 file".to_owned()
        } else {
            text::glue(text::number_text(files as u64).as_str(), " files")
        };
        summary.append(" changed · +");
        summary.append(text::number_text(self.turn_added as u64).as_str());
        summary.append(" −");
        summary.append(text::number_text(self.turn_removed as u64).as_str());
        summary.append(" · ");
        summary.append(elapsed);
        let ghost before = messages_view(self.messages@);
        self.messages.push(UiMessage::Summary(summary));
        assert(messages_view(self.messages@) =~= before.push(MessageView::Summary(summary@)));
        self.reset_turn(now);
    }

    /// Whether an answer is coming in.
    pub fn is_generating(&self) -> (r: bool)
        ensures
            r == (self.streaming is Some),
    {
        self.streaming.is_some()
    }

    /// Whether a tool is running.
    pub fn has_running_tool(&self) -> (r: bool)
        ensures
            r == exists|i: int|
                0 <= i < self.messages@.len() && #[trigger] is_running(self.messages@[i]),
    {
        let mut i: usize = 0;
        while i < self.messages.len()
            invariant
                i <= self.messages@.len(),
                forall|k: int| 0 <= k < i ==> !is_running(#[trigger] self.messages@[k]),
            decreases self.messages@.len() - i,
        {
            if let UiMessage::ToolCall(call) = &self.messages[i] {
                if call.status == ToolStatus::Running {
                    assert(is_running(self.messages@[i as int]));
                    return true;
                }
            }
            i += 1;
        }
        false
    }

    /// Adds what the user said, with the time of day.
    pub fn push_user(&mut self, content: &str, time: &str)
        ensures
            *final(self) == (UiState { messages: final(self).messages, ..*old(self) }),
            messages_view(final(self).messages@) == messages_view(old(self).messages@).push(
                MessageView::User { content: content@, time: time@ },
            ),
    {
        let ghost before = messages_view(self.messages@);
        let message = UiMessage::User { content: content.to_owned(), time: time.to_owned() };
        self.messages.push(message);
        assert(messages_view(self.messages@) =~= before.push(message@));
    }

    /// Adds a remark of the system.
    pub fn push_system(&mut self, content: &str)
        ensures
            *final(self) == (UiState { messages: final(self).messages, ..*old(self) }),
            messages_view(final(self).messages@) == messages_view(old(self).messages@).push(
                MessageView::System { content: content@ },
            ),
    {
        let ghost before = messages_view(self.messages@);
        let message = UiMessage::System { content: content.to_owned() };
        self.messages.push(message);
        assert(messages_view(self.messages@) =~= before.push(message@));
    }

    /// Adds a piece of the assistant's answer.
    pub fn append_stream(&mut self, content: &str, reasoning: &str)
        ensures
            *final(self) == (UiState {
                messages: final(self).messages,
                streaming: final(self).streaming,
                ..*old(self)
            }),
            final(self).streaming == match old(self).streaming {
                Some(index) => Some(index),
                None => Some(old(self).messages@.len() as usize),
            },
            messages_view(final(self).messages@) == streamed(
                messages_view(old(self).messages@),
                old(self).streaming,
                content@,
                reasoning@,
            ),
    {
        let ghost before = messages_view(self.messages@);
        match self.streaming {
            Some(index) => {
                if index < self.messages.len() {
                    assert(before[index as int] == self.messages@[index as int]@);
                    if let UiMessage::Assistant { content: c, reasoning: r } = &mut self.messages[index] {
                        c.append(content);
                        r.append(reasoning);
                    }
                }
                assert(messages_view(self.messages@) =~= streamed(
                    before,
                    old(self).streaming,
                    content@,
                    reasoning@,
                ));
            },
            None => {
                self.streaming = Some(self.messages.len());
                let message = UiMessage::Assistant {
                    content: content.to_owned(),
                    reasoning: reasoning.to_owned(),
                };
                self.messages.push(message);
                assert(messages_view(self.messages@) =~= before.push(message@));
            },
        }
    }

    /// Ends the assistant's answer.
    pub fn finish_stream(&mut self)
        ensures
            *final(self) == (UiState { streaming: None, ..*old(self) }),
    {
        self.streaming = None;
    }

    /// Adds a tool call that begins to run, counts it, and gives its position in the conversation.
    pub fn mark_tool_started(
        &mut self,
        tool_call_id: String,
        name: String,
        arguments: String,
        now: u64,
    ) -> (r: usize)
        ensures
            r == old(self).messages@.len(),
            *final(self) == (UiState {
                messages: final(self).messages,
                last_tool_index: Some(r),
                turn_tool_calls: capped(old(self).turn_tool_calls + 1),
                turn_files: final(self).turn_files,
                ..*old(self)
            }),
            views(final(self).turn_files@) == with_file(
                views(old(self).turn_files@),
                path_in(arguments@),
            ),
            messages_view(final(self).messages@) == messages_view(old(self).messages@).push(
                MessageView::ToolCall(
                    CallView {
                        tool_call_id: tool_call_id@,
                        name: name@,
                        arguments: arguments@,
                        status: ToolStatus::Running,
                        summary: Seq::empty(),
                        output: Seq::empty(),
                        diff: Seq::empty(),
                        elapsed: None,
                        started: now,
                        verdict: None,
                    },
                ),
            ),
    {
        self.note_tool_started(arguments.as_str());
        let ghost before = messages_view(self.messages@);
        let index: usize = self.messages.len();
        let message = UiMessage::ToolCall(
            ToolCallMsg {
                tool_call_id,
                name,
                arguments,
                status: ToolStatus::Running,
                summary: String::new(),
                output: String::new(),
                diff: Vec::new(),
                elapsed: None,
                started: now,
                verdict: None,
            },
        );
        self.messages.push(message);
        proof {
            assert(messages_view(self.messages@) =~= before.push(message@));
            assert(message@->ToolCall_0.diff =~= Seq::empty());
        }
        self.last_tool_index = Some(index);
        index
    }

    /// Records the end of a tool call and counts the lines that its output shows as changed.
    pub fn mark_tool_finished(
        &mut self,
        tool_call_id: &str,
        summary: &str,
        full_output: &str,
        status: ToolStatus,
        verdict: Option<String>,
        now: u64,
    )
        ensures
            *final(self) == (UiState {
                messages: final(self).messages,
                turn_added: capped(
                    old(self).turn_added + if is_diff(full_output@) {
                        marked_lines(lines(full_output@), '+') as int
                    } else {
                        0
                    },
                ),
                turn_removed: capped(
                    old(self).turn_removed + if is_diff(full_output@) {
                        marked_lines(lines(full_output@), '-') as int
                    } else {
                        0
                    },
                ),
                ..*old(self)
            }),
            messages_view(final(self).messages@) == finished_messages(
                messages_view(old(self).messages@),
                tool_call_id@,
                old(self).last_tool_index,
                summary@,
                full_output@,
                status,
                opt_text(verdict),
                now,
            ),
    {
        self.note_tool_finished(full_output);
        let ghost before = messages_view(self.messages@);
        let ghost found = finished_index(before, tool_call_id@, self.last_tool_index, 0);
        let index = self.find_finished(tool_call_id);
        if let Some(i) = index {
            assert(before[i as int] == self.messages@[i as int]@);
            if let UiMessage::ToolCall(call) = &mut self.messages[i] {
                call.status = status;
                call.summary = summary.to_owned();
                call.output = full_output.to_owned();
                call.diff = parse_diff(full_output);
                call.elapsed = Some(now.saturating_sub(call.started));
                call.verdict = verdict;
            }
            assert(messages_view(self.messages@) =~= finished_messages(
                before,
                tool_call_id@,
                old(self).last_tool_index,
                summary@,
                full_output@,
                status,
                opt_text(verdict),
                now,
            ));
        }
    }

    /// The message that the end of the tool call `id` is recorded in.
    fn find_finished(&self, id: &str) -> (r: Option<usize>)
        ensures
            match r {
                Some(i) => finished_index(
                    messages_view(self.messages@),
                    id@,
                    self.last_tool_index,
                    0,
                ) == Some(i as int) && i < self.messages@.len() && self.messages@[i as int] is ToolCall,
                None => finished_index(
                    messages_view(self.messages@),
                    id@,
                    self.last_tool_index,
                    0,
                ) is None,
            },
    {
        let ghost all = messages_view(self.messages@);
        let mut i: usize = 0;
        while i < self.messages.len()
            invariant
                i <= self.messages@.len(),
                all == messages_view(self.messages@),
                finished_index(all, id@, self.last_tool_index, 0) == finished_index(
                    all,
                    id@,
                    self.last_tool_index,
                    i as int,
                ),
            decreases self.messages@.len() - i,
        {
            assert(all[i as int] == self.messages@[i as int]@);
            if let UiMessage::ToolCall(call) = &self.messages[i] {
                if text::same(call.tool_call_id.as_str(), id) {
                    return Some(i);
                }
            }
            i += 1;
        }
        match self.last_tool_index {
            Some(index) => if index < self.messages.len() {
                assert(all[index as int] == self.messages@[index as int]@);
                match &self.messages[index] {
                    UiMessage::ToolCall(_) => Some(index),
                    _ => None,
                }
            } else {
                None
            },
            None => None,
        }
    }

    /// Starts the conversation anew with a remark.
    pub fn clear_conversation(&mut self, summary: &str)
        ensures
            *final(self) == (UiState {
                messages: final(self).messages,
                streaming: None,
                total_tokens: 0,
                ..*old(self)
            }),
            messages_view(final(self).messages@) == seq![MessageView::System { content: summary@ }],
    {
        self.messages = Vec::new();
        self.streaming = None;
        self.total_tokens = 0;
        self.push_system(summary);
        assert(messages_view(self.messages@) =~= seq![MessageView::System { content: summary@ }]);
    }
}

/// Whether a message is a tool call that is running.
pub open spec fn is_running(message: UiMessage) -> bool {
    message matches UiMessage::ToolCall(call) && call.status == ToolStatus::Running
}

} // verus!
