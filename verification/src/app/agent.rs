//! The agent: its state, and the check that every tool call passes.

use crate::app::models;
use crate::app::models::ModelsStore;
use crate::app::remember;
use crate::app::remember::Remember;
use crate::app::scheduler::Scheduler;
use crate::app::supervisor::{records_view, RecordView, Supervisor, ToolCallRecord, Verdict, VerdictView};
use crate::app::tool_specs;
use crate::app::tool_specs::{missing_parameter, DEFAULT_TOOLS};
use crate::json;
use crate::json::{fields_view, json_parsed, json_printed, Json, JsonView};
use crate::number::{Duration, Single};
use crate::runtime::{dialogue_view, DialogueTurn, DialogueView, PerceptionSource};
use crate::text;
use crate::text::{ascending, has_prefix, join, opt_text, views};
use vstd::prelude::*;

verus! {

/// The characters of arguments that are kept in the trace.
pub const TRACE_ARG_LIMIT: usize = 200;

/// The characters of an output that are kept in the trace.
pub const TRACE_OUTPUT_LIMIT: usize = 400;

/// The calls that are sent back in one task at most.
pub const MAX_SUPERVISE_BLOCKS: u32 = 5;

/// The calls that are run in one task at most.
pub const MAX_TOOL_ROUNDS: u32 = 200;

// ---------------------------------------------------------------------------------------------
// What the agent tells the runtime
// ---------------------------------------------------------------------------------------------
/// Something that the agent tells the runtime, with the number of the cycle.
#[derive(Debug)]
pub enum Notice {
    /// A cycle begins.
    CycleStart { cycle: u64 },
    /// A tool call ended.
    ToolResult {
        cycle: u64,
        name: String,
        output: String,
        tool_call_id: Option<String>,
        verdict: Option<String>,
    },
    /// The agent perceives something.
    Perception { cycle: u64, source: PerceptionSource, content: String, salience: Single },
    /// The agent has a task.
    TaskSet { cycle: u64, goal: String },
    /// The rules and the skills are read again.
    ContextUpdate { cycle: u64 },
    /// The conversation goes on with an earlier one.
    RestoreDialogue { cycle: u64, turns: Vec<DialogueTurn> },
    /// The conversation is compressed.
    CompactContext { cycle: u64, summary: String },
    /// The conversation is cleared.
    ConversationCleared { cycle: u64 },
    /// The answer that is coming in is broken off.
    CancelGeneration { cycle: u64 },
}

/// A `Notice` with its texts as characters.
pub ghost enum NoticeView {
    CycleStart { cycle: u64 },
    ToolResult {
        cycle: u64,
        name: Seq<char>,
        output: Seq<char>,
        tool_call_id: Option<Seq<char>>,
        verdict: Option<Seq<char>>,
    },
    Perception { cycle: u64, source: PerceptionSource, content: Seq<char>, salience: Single },
    TaskSet { cycle: u64, goal: Seq<char> },
    ContextUpdate { cycle: u64 },
    RestoreDialogue { cycle: u64, turns: Seq<DialogueView> },
    CompactContext { cycle: u64, summary: Seq<char> },
    ConversationCleared { cycle: u64 },
    CancelGeneration { cycle: u64 },
}

impl View for Notice {
    type V = NoticeView;

    open spec fn view(&self) -> NoticeView {
        match self {
            Notice::CycleStart { cycle } => NoticeView::CycleStart { cycle: *cycle },
            Notice::ToolResult { cycle, name, output, tool_call_id, verdict } =>
                NoticeView::ToolResult {
                cycle: *cycle,
                name: name@,
                output: output@,
                tool_call_id: opt_text(*tool_call_id),
                verdict: opt_text(*verdict),
            },
            Notice::Perception { cycle, source, content, salience } => NoticeView::Perception {
                cycle: *cycle,
                source: *source,
                content: content@,
                salience: *salience,
            },
            Notice::TaskSet { cycle, goal } => NoticeView::TaskSet { cycle: *cycle, goal: goal@ },
            Notice::ContextUpdate { cycle } => NoticeView::ContextUpdate { cycle: *cycle },
            Notice::RestoreDialogue { cycle, turns } => NoticeView::RestoreDialogue {
                cycle: *cycle,
                turns: dialogue_view(turns@),
            },
            Notice::CompactContext { cycle, summary } => NoticeView::CompactContext {
                cycle: *cycle,
                summary: summary@,
            },
            Notice::ConversationCleared { cycle } => NoticeView::ConversationCleared {
                cycle: *cycle,
            },
            Notice::CancelGeneration { cycle } => NoticeView::CancelGeneration { cycle: *cycle },
        }
    }
}

/// The views of notices.
pub open spec fn notices_view(notices: Seq<Notice>) -> Seq<NoticeView> {
    Seq::new(notices.len(), |i: int| notices[i]@)
}

/// How much background matters, by the bits of a single: 0.3.
pub const BACKGROUND: u32 = 0x3E99_999A;

/// How much what the user says matters: 0.5.
pub const REQUEST: u32 = 0x3F00_0000;

/// How much a monitor that gave up matters: 0.6.
pub const GIVEN_UP: u32 = 0x3F19_999A;

/// How much the result of a tool matters: 0.8.
pub const RESULT: u32 = 0x3F4C_CCCD;

/// How much a call that was sent back matters: 0.9.
pub const SENT_BACK: u32 = 0x3F66_6666;

/// The number of the cycle after `cycle`.
pub open spec fn next_cycle(cycle: u64) -> u64 {
    if cycle == u64::MAX {
        0
    } else {
        (cycle + 1) as u64
    }
}

/// Appends a notice.
pub(crate) fn push_notice(out: &mut Vec<Notice>, notice: Notice)
    ensures
        notices_view(final(out)@) == notices_view(old(out)@).push(notice@),
{
    let ghost before = notices_view(out@);
    out.push(notice);
    assert(notices_view(out@) =~= before.push(notice@));
}

// ---------------------------------------------------------------------------------------------
// Calls
// ---------------------------------------------------------------------------------------------
/// A tool call.
#[derive(Debug)]
pub struct ToolCall {
    pub name: String,
    pub arguments: Json,
    pub tool_call_id: Option<String>,
}

/// A `ToolCall` with its texts as characters.
pub ghost struct ToolCallView {
    pub name: Seq<char>,
    pub arguments: JsonView,
    pub tool_call_id: Option<Seq<char>>,
}

impl View for ToolCall {
    type V = ToolCallView;

    open spec fn view(&self) -> ToolCallView {
        ToolCallView {
            name: self.name@,
            arguments: self.arguments@,
            tool_call_id: opt_text(self.tool_call_id),
        }
    }
}

/// The views of calls.
pub open spec fn calls_view(calls: Seq<ToolCall>) -> Seq<ToolCallView> {
    Seq::new(calls.len(), |i: int| calls[i]@)
}

/// A call that is about to run: whether its tool is known, and what the supervisor made of it.
#[derive(Debug)]
pub struct PlannedCall {
    pub call: ToolCall,
    pub known: bool,
    pub verdict: String,
}

/// A `PlannedCall` with its texts as characters.
pub ghost struct PlannedView {
    pub call: ToolCallView,
    pub known: bool,
    pub verdict: Seq<char>,
}

impl View for PlannedCall {
    type V = PlannedView;

    open spec fn view(&self) -> PlannedView {
        PlannedView { call: self.call@, known: self.known, verdict: self.verdict@ }
    }
}

/// The views of planned calls.
pub open spec fn planned_view(calls: Seq<PlannedCall>) -> Seq<PlannedView> {
    Seq::new(calls.len(), |i: int| calls[i]@)
}

/// What becomes of a call: it is sent back, it waits for approval, or calls run.
#[derive(Debug)]
pub enum ToolPlan {
    Blocked,
    NeedConfirm(ToolCall),
    Execute(Vec<PlannedCall>),
}

/// A `ToolPlan` with its texts as characters.
pub ghost enum PlanView {
    Blocked,
    NeedConfirm(ToolCallView),
    Execute(Seq<PlannedView>),
}

impl View for ToolPlan {
    type V = PlanView;

    open spec fn view(&self) -> PlanView {
        match self {
            ToolPlan::Blocked => PlanView::Blocked,
            ToolPlan::NeedConfirm(call) => PlanView::NeedConfirm(call@),
            ToolPlan::Execute(calls) => PlanView::Execute(planned_view(calls@)),
        }
    }
}

/// What the check makes of a call before the supervisor sees it.
#[derive(Debug)]
pub enum ToolCheck {
    Blocked,
    Ready,
    Judge {
        input: String,
        trace: Vec<ToolCallRecord>,
        pending: ToolCallRecord,
        tools: Vec<String>,
    },
}

/// A tool, and whether it asks before it runs.
#[derive(Debug)]
pub struct ToolEntry {
    pub name: String,
    pub confirm: bool,
}

/// A `ToolEntry` with its name as characters.
pub ghost struct ToolView {
    pub name: Seq<char>,
    pub confirm: bool,
}

impl View for ToolEntry {
    type V = ToolView;

    open spec fn view(&self) -> ToolView {
        ToolView { name: self.name@, confirm: self.confirm }
    }
}

/// The views of tools.
pub open spec fn tools_view(tools: Seq<ToolEntry>) -> Seq<ToolView> {
    Seq::new(tools.len(), |i: int| tools[i]@)
}

/// The names of tools.
pub open spec fn tool_names(tools: Seq<ToolView>) -> Seq<Seq<char>> {
    Seq::new(tools.len(), |i: int| tools[i].name)
}

/// The position of the first tool with a name, from `i` on.
pub open spec fn tool_from(tools: Seq<ToolView>, name: Seq<char>, i: int) -> Option<int>
    decreases tools.len() - i,
{
    if i < 0 || i >= tools.len() {
        None
    } else if tools[i].name == name {
        Some(i)
    } else {
        tool_from(tools, name, i + 1)
    }
}

/// Whether there is a tool with a name.
pub open spec fn is_known(tools: Seq<ToolView>, name: Seq<char>) -> bool {
    tool_from(tools, name, 0) is Some
}

/// Whether a tool asks before it runs; an unknown one does not.
pub open spec fn asks_first(tools: Seq<ToolView>, name: Seq<char>) -> bool {
    match tool_from(tools, name, 0) {
        Some(i) => tools[i].confirm,
        None => false,
    }
}

/// The tools with one more, in place of any with its name.
pub open spec fn with_tool(tools: Seq<ToolView>, tool: ToolView) -> Seq<ToolView> {
    match tool_from(tools, tool.name, 0) {
        Some(i) => tools.update(i, tool),
        None => tools.push(tool),
    }
}

/// The first `n` of the default tools, registered one after the other.
pub open spec fn default_tools(n: int) -> Seq<ToolView>
    decreases n,
{
    if n <= 0 {
        Seq::empty()
    } else {
        with_tool(
            default_tools(n - 1),
            ToolView { name: DEFAULT_TOOLS@[n - 1].0@, confirm: DEFAULT_TOOLS@[n - 1].1 },
        )
    }
}

/// A call that was run: its tool, and its arguments as text.
#[derive(Debug)]
pub struct ExecutedCall {
    pub name: String,
    pub arguments: String,
}

/// An `ExecutedCall` with its texts as characters.
pub ghost struct ExecutedView {
    pub name: Seq<char>,
    pub arguments: Seq<char>,
}

impl View for ExecutedCall {
    type V = ExecutedView;

    open spec fn view(&self) -> ExecutedView {
        ExecutedView { name: self.name@, arguments: self.arguments@ }
    }
}

/// The views of calls that were run.
pub open spec fn executed_view(calls: Seq<ExecutedCall>) -> Seq<ExecutedView> {
    Seq::new(calls.len(), |i: int| calls[i]@)
}

/// A text that is cut after `limit` characters, with an ellipsis.
pub open spec fn shortened(s: Seq<char>, limit: nat) -> Seq<char> {
    if s.len() <= limit {
        s
    } else {
        s.take(limit as int).push('…')
    }
}

/// A text that is cut after `limit` characters, with an ellipsis.
pub fn truncate(s: &str, limit: usize) -> (r: String)
    ensures
        r@ == shortened(s@, limit as nat),
{
    let chars = text::chars_of(s);
    if chars.len() <= limit {
        s.to_owned()
    } else {
        let mut cut = text::part(chars.as_slice(), 0, limit);
        assert(cut@ =~= s@.take(limit as int));
        cut.push('…');
        text::string_of(cut.as_slice())
    }
}

/// Whether the output of a corrected call shows that the call was malformed.
pub open spec fn broken_correction(output: Seq<char>) -> bool {
    has_prefix(output, "missing string argument"@) || has_prefix(
        output,
        "missing number argument"@,
    ) || has_prefix(output, "unknown tool"@)
}

/// Whether the output of a corrected call shows that the call was malformed.
pub fn is_correction_broken(output: &str) -> (r: bool)
    ensures
        r == broken_correction(output@),
{
    let chars = text::chars_of(output);
    text::starts_with(chars.as_slice(), "missing string argument") || text::starts_with(
        chars.as_slice(),
        "missing number argument",
    ) || text::starts_with(chars.as_slice(), "unknown tool")
}

// ---------------------------------------------------------------------------------------------
// The state
// ---------------------------------------------------------------------------------------------
/// The provider of the models.
#[derive(Debug, Clone, Copy, PartialEq, Eq, Structural)]
pub enum AdapterKind {
    OpenAi,
    DeepSeek,
}

/// How an agent is set up.
#[derive(Debug)]
pub struct AppConfig {
    pub adapter: AdapterKind,
    pub model: Option<String>,
    pub supervisor_enabled: bool,
    pub project_dir: String,
    pub tick_interval: Duration,
}

/// The state of the agent.
pub struct App {
    pub project_dir: String,
    pub supervisor: Supervisor,
    pub remember: Remember,
    pub scheduler: Scheduler,
    pub models_store: ModelsStore,
    pub current_model: String,
    pub approvals: Vec<String>,
    pub tools: Vec<ToolEntry>,
    pub pending_tool: Vec<ToolCall>,
    pub tool_trace: Vec<ToolCallRecord>,
    pub current_user_input: String,
    pub supervise_blocks: u32,
    pub tool_rounds_executed: u32,
    pub executed_calls: Vec<ExecutedCall>,
    pub cancelled_tool_ids: Vec<String>,
    pub cycle: u64,
}

/// The lines of the trace as they are shown to the model.
pub open spec fn trace_lines(trace: Seq<RecordView>) -> Seq<Seq<char>> {
    Seq::new(trace.len(), |i: int| "- "@ + trace[i].name + " "@ + trace[i].arguments)
}

/// The trace as it is shown to the model.
pub open spec fn trace_text(trace: Seq<RecordView>) -> Seq<char> {
    if trace.len() == 0 {
        Seq::empty()
    } else {
        "\n\n[Tools already executed or supervised in the current task]\n"@ + join(
            trace_lines(trace),
            "\n"@,
        )
    }
}

/// A call as it is recorded.
pub open spec fn record_of(name: Seq<char>, arguments: JsonView, output: Seq<char>) -> RecordView {
    RecordView {
        name,
        arguments: shortened(json_printed(arguments), TRACE_ARG_LIMIT as nat),
        output,
    }
}

/// What is told of a call that is sent back.
pub open spec fn sent_back(
    cycle: u64,
    name: Seq<char>,
    tool_call_id: Option<Seq<char>>,
    output: Seq<char>,
    content: Seq<char>,
) -> Seq<NoticeView> {
    seq![
        NoticeView::CycleStart { cycle },
        NoticeView::ToolResult { cycle, name, output, tool_call_id, verdict: Some("blocked"@) },
        NoticeView::Perception {
            cycle,
            source: PerceptionSource::Internal,
            content,
            salience: Single { bits: SENT_BACK },
        },
    ]
}

/// Why the check stops a call, or that it lets it through.
pub ghost enum Gate {
    Missing(Seq<char>),
    TooMany,
    Duplicate,
    Open,
}

/// Whether a call was run before in the same way.
pub open spec fn was_run(executed: Seq<ExecutedView>, name: Seq<char>, arguments: JsonView) -> bool {
    executed.contains(ExecutedView { name, arguments: json_printed(arguments) })
}

/// What the check makes of a call: one that lacks a parameter is sent back, unless that happened too
/// often; one too many is stopped, and so is one that was run before in the same way.
pub open spec fn gate(app: App, name: Seq<char>, arguments: JsonView) -> Gate {
    if missing_parameter(name, arguments) is Some && app.supervise_blocks < MAX_SUPERVISE_BLOCKS {
        Gate::Missing(missing_parameter(name, arguments)->0)
    } else if app.tool_rounds_executed >= MAX_TOOL_ROUNDS {
        Gate::TooMany
    } else if was_run(executed_view(app.executed_calls@), name, arguments) {
        Gate::Duplicate
    } else {
        Gate::Open
    }
}

/// A call that the check stops: what changes, and what is told.
pub open spec fn stopped(
    before: App,
    after: App,
    name: Seq<char>,
    arguments: JsonView,
    tool_call_id: Option<Seq<char>>,
    told: Seq<NoticeView>,
) -> bool {
    let cycle = next_cycle(before.cycle);
    match gate(before, name, arguments) {
        Gate::Missing(missing) => {
            &&& after == (App {
                supervise_blocks: (before.supervise_blocks + 1) as u32,
                tool_trace: after.tool_trace,
                cycle,
                ..before
            })
            &&& after.trace() == before.trace().push(
                record_of(name, arguments, missing_text(missing)),
            )
            &&& told == sent_back(
                cycle,
                name,
                tool_call_id,
                missing_text(missing),
                "(Tool call rejected: missing required argument \""@ + missing + "\" for "@ + name
                    + ") Reissue the call with complete arguments."@ + trace_text(after.trace()),
            )
        },
        Gate::TooMany => {
            &&& after == (App { cycle, ..before })
            &&& told == sent_back(
                cycle,
                name,
                tool_call_id,
                "(tool round limit reached; call not executed) Stop calling tools and provide your final answer now."@,
                "(Tool round limit reached (200). Stop calling tools and provide your final answer now.)"@
                    + trace_text(before.trace()),
            )
        },
        Gate::Duplicate => {
            &&& after == (App { cycle, ..before })
            &&& told == sent_back(
                cycle,
                name,
                tool_call_id,
                "(duplicate tool call with identical arguments; not executed) Use the result you already received or choose a different action."@,
                "(Duplicate tool call: "@ + name
                    + " with identical arguments was already executed. Do not repeat it; use its result or change your approach.)"@
                    + trace_text(before.trace()),
            )
        },
        Gate::Open => false,
    }
}

/// What the model is told of a call that lacks a parameter.
pub open spec fn missing_text(missing: Seq<char>) -> Seq<char> {
    "(rejected: missing required argument \""@ + missing + "\")"@
}

/// The calls in one line.
pub open spec fn calls_line(calls: Seq<RecordView>) -> Seq<char> {
    join(Seq::new(calls.len(), |i: int| calls[i].name + " "@ + calls[i].arguments), "; "@)
}

/// The first `n` of the calls that run in place of another, as far as their tools are known.
pub open spec fn corrected_calls(
    calls: Seq<RecordView>,
    tools: Seq<ToolView>,
    tool_call_id: Option<Seq<char>>,
    n: int,
) -> Seq<PlannedView>
    decreases n,
{
    if n <= 0 {
        Seq::empty()
    } else {
        let before = corrected_calls(calls, tools, tool_call_id, n - 1);
        if is_known(tools, calls[n - 1].name) {
            before.push(
                PlannedView {
                    call: ToolCallView {
                        name: calls[n - 1].name,
                        arguments: match json_parsed(calls[n - 1].arguments) {
                            Some(arguments) => arguments,
                            None => JsonView::Object(Seq::empty()),
                        },
                        tool_call_id,
                    },
                    known: true,
                    verdict: "corrected"@,
                },
            )
        } else {
            before
        }
    }
}

/// Whether a call must be approved by the user before it runs.
pub open spec fn must_wait(app: App, name: Seq<char>) -> bool {
    asks_first(tools_view(app.tools@), name) && !views(app.approvals@).contains(name)
}

/// What becomes of a call that the supervisor lets through: it waits, or it runs.
pub open spec fn let_through(app: App, call: ToolCallView) -> PlanView {
    if must_wait(app, call.name) {
        PlanView::NeedConfirm(call)
    } else {
        PlanView::Execute(
            seq![
                PlannedView {
                    call,
                    known: is_known(tools_view(app.tools@), call.name),
                    verdict: "allowed"@,
                },
            ],
        )
    }
}

/// The note on the result of a call.
pub open spec fn result_note(name: Seq<char>, output: Seq<char>, verdict: Seq<char>) -> Seq<char> {
    if verdict == "corrected"@ && broken_correction(output) {
        "(Tool call correction FAILED: the corrected call was malformed: "@ + output
            + ") Do not retry the same call; reconsider your tool plan and issue the call yourself with complete arguments."@
    } else if verdict == "corrected"@ {
        "(Tool call corrected by supervisor: "@ + name
            + " — the corrected call was executed instead; review its result)\n"@ + output
    } else {
        "(Tool "@ + name + " result)\n"@ + output
    }
}

/// A text that is in a list.
pub open spec fn listed_id(ids: Seq<Seq<char>>, id: Option<Seq<char>>) -> bool {
    match id {
        Some(id) => ids.contains(id),
        None => false,
    }
}

/// What the supervisor's verdict makes of a call: what changes, what becomes of the call, and what is
/// told. A call is sent back or replaced only as long as that did not happen too often.
pub open spec fn verdict_applied(
    before: App,
    after: App,
    verdict: VerdictView,
    call: ToolCallView,
    plan: PlanView,
    told: Seq<NoticeView>,
) -> bool {
    match (verdict, before.supervise_blocks < MAX_SUPERVISE_BLOCKS) {
        (VerdictView::Regenerate { reason }, true) => {
            let output = "(blocked by supervisor: "@ + reason + ")"@;
            &&& plan == PlanView::Blocked
            &&& after == (App {
                supervise_blocks: (before.supervise_blocks + 1) as u32,
                tool_trace: after.tool_trace,
                cycle: next_cycle(before.cycle),
                ..before
            })
            &&& after.trace() == before.trace().push(
                record_of(call.name, call.arguments, output),
            )
            &&& told == sent_back(
                next_cycle(before.cycle),
                call.name,
                call.tool_call_id,
                output,
                "(Tool call blocked by supervisor: "@ + reason
                    + ") Reconsider your tool plan."@ + trace_text(after.trace()),
            )
        },
        (VerdictView::Corrected { calls }, true) => if calls.len() == 0 {
            &&& plan == PlanView::Blocked
            &&& after == (App {
                supervise_blocks: (before.supervise_blocks + 1) as u32,
                tool_trace: after.tool_trace,
                cycle: next_cycle(before.cycle),
                ..before
            })
            &&& after.trace() == before.trace().push(
                record_of(
                    call.name,
                    call.arguments,
                    "(corrected by supervisor to: empty plan)"@,
                ),
            )
            &&& told == sent_back(
                next_cycle(before.cycle),
                call.name,
                call.tool_call_id,
                "(corrected by supervisor to: empty plan)"@,
                "(Tool call correction declined by supervisor: the corrected plan was empty) Reconsider your tool plan."@
                    + trace_text(after.trace()),
            )
        } else {
            &&& plan == PlanView::Execute(
                corrected_calls(
                    calls,
                    tools_view(before.tools@),
                    call.tool_call_id,
                    calls.len() as int,
                ),
            )
            &&& after == (App {
                supervise_blocks: (before.supervise_blocks + 1) as u32,
                tool_trace: after.tool_trace,
                ..before
            })
            &&& after.trace() == before.trace().push(
                record_of(
                    call.name,
                    call.arguments,
                    "(corrected by supervisor to: "@ + calls_line(calls) + ")"@,
                ),
            )
            &&& told.len() == 0
        },
        _ => {
            &&& plan == let_through(before, call)
            &&& after == (App {
                pending_tool: after.pending_tool,
                ..before
            })
            &&& calls_view(after.pending_tool@) == if must_wait(
                before,
                call.name,
            ) {
                calls_view(before.pending_tool@).push(call)
            } else {
                calls_view(before.pending_tool@)
            }
            &&& told.len() == 0
        },
    }
}

/// The view of a planned call, where there is one.
pub open spec fn planned_opt(call: Option<PlannedCall>) -> Option<PlannedView> {
    match call {
        Some(call) => Some(call@),
        None => None,
    }
}

/// What the user's answer makes of the call that waits longest: what changes, what runs, and what is
/// told.
pub open spec fn pending_answered(
    before: App,
    after: App,
    approved: bool,
    run: Option<PlannedView>,
    told: Seq<NoticeView>,
) -> bool {
    if before.pending_tool@.len() == 0 {
        run is None && told.len() == 0 && after == before
    } else {
        let call = before.pending_tool@[0]@;
        &&& calls_view(after.pending_tool@) == calls_view(before.pending_tool@).skip(1)
        &&& if approved {
            &&& after == (App { pending_tool: after.pending_tool, ..before })
            &&& told.len() == 0
            &&& run == Some(
                PlannedView {
                    call,
                    known: is_known(tools_view(before.tools@), call.name),
                    verdict: "allowed"@,
                },
            )
        } else {
            let cycle = next_cycle(before.cycle);
            let output = "user denied the tool call"@;
            &&& run is None
            &&& after == (App {
                pending_tool: after.pending_tool,
                tool_trace: after.tool_trace,
                cycle,
                ..before
            })
            &&& after.trace() == before.trace().push(
                record_of(call.name, call.arguments, output),
            )
            &&& told == seq![
                NoticeView::ToolResult {
                    cycle,
                    name: call.name,
                    output,
                    tool_call_id: call.tool_call_id,
                    verdict: None,
                },
                NoticeView::CycleStart { cycle },
                NoticeView::Perception {
                    cycle,
                    source: PerceptionSource::ToolResult,
                    content: "(Tool "@ + call.name + " result)\n"@ + output,
                    salience: Single { bits: RESULT },
                },
            ]
        }
    }
}

/// What the end of a call changes, and what is told of it. The end of a call that the user cancelled
/// is not told.
pub open spec fn call_finished(
    before: App,
    after: App,
    call: ToolCallView,
    output: Seq<char>,
    verdict: Seq<char>,
    told: Seq<NoticeView>,
) -> bool {
    if listed_id(views(before.cancelled_tool_ids@), call.tool_call_id) {
        &&& told.len() == 0
        &&& after == (App {
            cancelled_tool_ids: after.cancelled_tool_ids,
            ..before
        })
        &&& views(after.cancelled_tool_ids@) == without_text(
            views(before.cancelled_tool_ids@),
            call.tool_call_id->0,
        )
    } else {
        let context = next_cycle(before.cycle);
        let cycle = next_cycle(context);
        &&& after == (App {
            tool_rounds_executed: after.tool_rounds_executed,
            executed_calls: after.executed_calls,
            tool_trace: after.tool_trace,
            cycle,
            ..before
        })
        &&& after.tool_rounds_executed == counted(before.tool_rounds_executed)
        &&& executed_view(after.executed_calls@) == executed_view(
            before.executed_calls@,
        ).push(
            ExecutedView {
                name: call.name,
                arguments: json_printed(call.arguments),
            },
        )
        &&& after.trace() == before.trace().push(
            record_of(
                call.name,
                call.arguments,
                shortened(output, TRACE_OUTPUT_LIMIT as nat),
            ),
        )
        &&& told == seq![
            NoticeView::ContextUpdate { cycle: context },
            NoticeView::ToolResult {
                cycle,
                name: call.name,
                output: output,
                tool_call_id: call.tool_call_id,
                verdict: Some(verdict),
            },
            NoticeView::CycleStart { cycle },
            NoticeView::Perception {
                cycle,
                source: PerceptionSource::ToolResult,
                content: result_note(call.name, output, verdict),
                salience: Single { bits: RESULT },
            },
        ]
    }
}

impl App {
    /// The trace.
    pub open spec fn trace(self) -> Seq<RecordView> {
        records_view(self.tool_trace@)
    }

    /// No more calls were sent back than the limit, the approvals stand in order, and the parts are
    /// sound.
    pub open spec fn wf(self) -> bool {
        &&& self.supervise_blocks <= MAX_SUPERVISE_BLOCKS
        &&& ascending(views(self.approvals@))
        &&& self.supervisor.wf()
        &&& self.scheduler.wf()
        &&& self.remember.wf()
    }

    /// The next number of a cycle.
    pub(crate) fn next_meta(&mut self) -> (r: u64)
        ensures
            r == next_cycle(old(self).cycle),
            *final(self) == (App { cycle: r, ..*old(self) }),
    {
        self.cycle = self.cycle.wrapping_add(1);
        self.cycle
    }

    /// Adds a call to the trace.
    fn record(&mut self, name: &str, arguments: &Json, output: String)
        ensures
            *final(self) == (App { tool_trace: final(self).tool_trace, ..*old(self) }),
            final(self).trace() == old(self).trace().push(record_of(name@, arguments@, output@)),
    {
        let ghost before = self.trace();
        let printed = json::print_json(arguments);
        let record = ToolCallRecord {
            name: name.to_owned(),
            arguments: truncate(printed.as_str(), TRACE_ARG_LIMIT),
            output,
        };
        self.tool_trace.push(record);
        assert(self.trace() =~= before.push(record@));
    }

    /// The trace as it is shown to the model.
    pub fn trace_summary(&self) -> (r: String)
        ensures
            r@ == trace_text(self.trace()),
    {
        let ghost all = self.trace();
        assert(all.len() == self.tool_trace@.len());
        if self.tool_trace.len() == 0 {
            let none = String::new();
            assert(none@ =~= Seq::<char>::empty());
            return none;
        }
        let ghost goal = trace_lines(all);
        let mut lines: Vec<String> = Vec::new();
        let mut i: usize = 0;
        assert(views(lines@) =~= goal.take(0));
        while i < self.tool_trace.len()
            invariant
                i <= self.tool_trace@.len(),
                all == self.trace(),
                goal == trace_lines(all),
                views(lines@) == goal.take(i as int),
            decreases self.tool_trace@.len() - i,
        {
            assert(all[i as int] == self.tool_trace@[i as int]@);
            let ghost before = views(lines@);
            let mut line = text::glue3("- ", self.tool_trace[i].name.as_str(), " ");
            line.append(self.tool_trace[i].arguments.as_str());
            lines.push(line);
            proof {
                assert(views(lines@) =~= before.push(line@));
                assert(goal.take(i + 1) =~= goal.take(i as int).push(goal[i as int]));
            }
            i += 1;
        }
        assert(goal.take(i as int) =~= goal);
        text::glue(
            "\n\n[Tools already executed or supervised in the current task]\n",
            text::joined_strings(&lines, "\n").as_str(),
        )
    }

    /// Tells of a call that is sent back, in a cycle of its own. What the model is told ends with the
    /// trace.
    fn send_back(
        &mut self,
        name: &str,
        tool_call_id: &Option<String>,
        output: &str,
        said: &str,
    ) -> (r: Vec<Notice>)
        ensures
            *final(self) == (App { cycle: next_cycle(old(self).cycle), ..*old(self) }),
            notices_view(r@) == sent_back(
                next_cycle(old(self).cycle),
                name@,
                opt_text(*tool_call_id),
                output@,
                said@ + trace_text(old(self).trace()),
            ),
    {
        let cycle: u64 = self.next_meta();
        let mut out: Vec<Notice> = Vec::new();
        push_notice(&mut out, Notice::CycleStart { cycle });
        push_notice(
            &mut out,
            Notice::ToolResult {
                cycle,
                name: name.to_owned(),
                output: output.to_owned(),
                tool_call_id: text::copy_opt(tool_call_id),
                verdict: Some("blocked".to_owned()),
            },
        );
        let content = text::glue(said, self.trace_summary().as_str());
        push_notice(
            &mut out,
            Notice::Perception {
                cycle,
                source: PerceptionSource::Internal,
                content,
                salience: Single { bits: SENT_BACK },
            },
        );
        assert(notices_view(out@) =~= sent_back(
            cycle,
            name@,
            opt_text(*tool_call_id),
            output@,
            said@ + trace_text(old(self).trace()),
        ));
        out
    }

    /// Whether a call was run before in the same way.
    pub fn is_duplicate(&self, name: &str, arguments: &str) -> (r: bool)
        ensures
            r == executed_view(self.executed_calls@).contains(
                ExecutedView { name: name@, arguments: arguments@ },
            ),
    {
        let ghost all = executed_view(self.executed_calls@);
        let ghost wanted = ExecutedView { name: name@, arguments: arguments@ };
        let mut i: usize = 0;
        while i < self.executed_calls.len()
            invariant
                i <= self.executed_calls@.len(),
                all == executed_view(self.executed_calls@),
                wanted == (ExecutedView { name: name@, arguments: arguments@ }),
                forall|k: int| 0 <= k < i ==> #[trigger] all[k] != wanted,
            decreases self.executed_calls@.len() - i,
        {
            let call = &self.executed_calls[i];
            assert(all[i as int] == call@);
            if text::same(call.name.as_str(), name) && text::same(
                call.arguments.as_str(),
                arguments,
            ) {
                assert(all[i as int] == wanted);
                return true;
            }
            i += 1;
        }
        false
    }

    /// What the check makes of a call, and what is told of it.
    pub fn check_tool_call(
        &mut self,
        name: &str,
        arguments: &Json,
        tool_call_id: &Option<String>,
    ) -> (r: (ToolCheck, Vec<Notice>))
        ensures
            old(self).wf() ==> final(self).wf(),
            match gate(*old(self), name@, arguments@) {
                Gate::Open => {
                    &&& r.1@.len() == 0
                    &&& *final(self) == *old(self)
                    &&& match r.0 {
                        ToolCheck::Blocked => false,
                        ToolCheck::Ready => !old(self).supervisor.enabled,
                        ToolCheck::Judge { input, trace, pending, tools } => {
                            &&& old(self).supervisor.enabled
                            &&& input@ == old(self).current_user_input@
                            &&& records_view(trace@) == old(self).trace()
                            &&& pending@ == record_of(name@, arguments@, Seq::empty())
                            &&& views(tools@) == tool_names(tools_view(old(self).tools@))
                        },
                    }
                },
                _ => r.0 is Blocked && stopped(
                    *old(self),
                    *final(self),
                    name@,
                    arguments@,
                    opt_text(*tool_call_id),
                    notices_view(r.1@),
                ),
            },
    {
        if let Some(missing) = tool_specs::missing_required_argument(name, arguments) {
            if self.supervise_blocks < MAX_SUPERVISE_BLOCKS {
                self.supervise_blocks = self.supervise_blocks + 1;
                let output = text::glue3(
                    "(rejected: missing required argument \"",
                    missing.as_str(),
                    "\")",
                );
                self.record(name, arguments, output.clone());
                let mut said = text::glue3(
                    "(Tool call rejected: missing required argument \"",
                    missing.as_str(),
                    "\" for ",
                );
                said.append(name);
                said.append(") Reissue the call with complete arguments.");
                let notices = self.send_back(name, tool_call_id, output.as_str(), said.as_str());
                return (ToolCheck::Blocked, notices);
            }
        }
        if self.tool_rounds_executed >= MAX_TOOL_ROUNDS {
            let notices = self.send_back(
                name,
                tool_call_id,
                "(tool round limit reached; call not executed) Stop calling tools and provide your final answer now.",
                "(Tool round limit reached (200). Stop calling tools and provide your final answer now.)",
            );
            return (ToolCheck::Blocked, notices);
        }
        let printed = json::print_json(arguments);
        if self.is_duplicate(name, printed.as_str()) {
            let said = text::glue3(
                "(Duplicate tool call: ",
                name,
                " with identical arguments was already executed. Do not repeat it; use its result or change your approach.)",
            );
            let notices = self.send_back(
                name,
                tool_call_id,
                "(duplicate tool call with identical arguments; not executed) Use the result you already received or choose a different action.",
                said.as_str(),
            );
            return (ToolCheck::Blocked, notices);
        }
        if !self.supervisor.is_enabled() {
            return (ToolCheck::Ready, Vec::new());
        }
        let output = String::new();
        assert(output@ =~= Seq::<char>::empty());
        let pending = ToolCallRecord {
            name: name.to_owned(),
            arguments: truncate(printed.as_str(), TRACE_ARG_LIMIT),
            output,
        };
        let check = ToolCheck::Judge {
            input: self.current_user_input.clone(),
            trace: copy_records(&self.tool_trace),
            pending,
            tools: self.tool_list(),
        };
        (check, Vec::new())
    }

    /// The names of the tools.
    fn tool_list(&self) -> (r: Vec<String>)
        ensures
            views(r@) == tool_names(tools_view(self.tools@)),
    {
        let ghost goal = tool_names(tools_view(self.tools@));
        let mut out: Vec<String> = Vec::new();
        let mut i: usize = 0;
        assert(views(out@) =~= goal.take(0));
        while i < self.tools.len()
            invariant
                i <= self.tools@.len(),
                goal == tool_names(tools_view(self.tools@)),
                views(out@) == goal.take(i as int),
            decreases self.tools@.len() - i,
        {
            let ghost before = views(out@);
            let name = self.tools[i].name.clone();
            out.push(name);
            proof {
                assert(views(out@) =~= before.push(name@));
                assert(goal.take(i + 1) =~= goal.take(i as int).push(goal[i as int]));
            }
            i += 1;
        }
        assert(goal.take(i as int) =~= goal);
        out
    }

    /// The position of a tool.
    pub(crate) fn find_tool(&self, name: &str) -> (r: Option<usize>)
        ensures
            match r {
                Some(i) => tool_from(tools_view(self.tools@), name@, 0) == Some(i as int) && i
                    < self.tools@.len(),
                None => tool_from(tools_view(self.tools@), name@, 0) is None,
            },
    {
        let ghost all = tools_view(self.tools@);
        let mut i: usize = 0;
        while i < self.tools.len()
            invariant
                i <= self.tools@.len(),
                all == tools_view(self.tools@),
                tool_from(all, name@, 0) == tool_from(all, name@, i as int),
            decreases self.tools@.len() - i,
        {
            assert(all[i as int] == self.tools@[i as int]@);
            if text::same(self.tools[i].name.as_str(), name) {
                return Some(i);
            }
            i += 1;
        }
        None
    }

    /// Whether the user has approved a tool for good.
    pub fn is_approved(&self, name: &str) -> (r: bool)
        ensures
            r == views(self.approvals@).contains(name@),
    {
        holds_text(&self.approvals, name)
    }

    /// Applies the supervisor's verdict to a call: what becomes of it, and what is told.
    pub fn apply_verdict(&mut self, verdict: Verdict, call: ToolCall) -> (r: (ToolPlan, Vec<Notice>))
        ensures
            old(self).wf() ==> final(self).wf(),
            verdict_applied(
                *old(self),
                *final(self),
                verdict@,
                call@,
                r.0@,
                notices_view(r.1@),
            ),
    {
        match verdict {
            Verdict::Regenerate { reason } => {
                if self.supervise_blocks < MAX_SUPERVISE_BLOCKS {
                    self.supervise_blocks = self.supervise_blocks + 1;
                    let output = text::glue3("(blocked by supervisor: ", reason.as_str(), ")");
                    self.record(call.name.as_str(), &call.arguments, output.clone());
                    let said = text::glue3(
                        "(Tool call blocked by supervisor: ",
                        reason.as_str(),
                        ") Reconsider your tool plan.",
                    );
                    let notices = self.send_back(
                        call.name.as_str(),
                        &call.tool_call_id,
                        output.as_str(),
                        said.as_str(),
                    );
                    return (ToolPlan::Blocked, notices);
                }
            },
            Verdict::Corrected { calls } => {
                assert(records_view(calls@).len() == calls@.len());
                if self.supervise_blocks < MAX_SUPERVISE_BLOCKS {
                    self.supervise_blocks = self.supervise_blocks + 1;
                    if calls.len() == 0 {
                        self.record(
                            call.name.as_str(),
                            &call.arguments,
                            "(corrected by supervisor to: empty plan)".to_owned(),
                        );
                        let notices = self.send_back(
                            call.name.as_str(),
                            &call.tool_call_id,
                            "(corrected by supervisor to: empty plan)",
                            "(Tool call correction declined by supervisor: the corrected plan was empty) Reconsider your tool plan.",
                        );
                        return (ToolPlan::Blocked, notices);
                    }
                    let output = text::glue3(
                        "(corrected by supervisor to: ",
                        line_of_calls(&calls).as_str(),
                        ")",
                    );
                    self.record(call.name.as_str(), &call.arguments, output);
                    let planned = self.plan_corrected(&calls, &call.tool_call_id);
                    return (ToolPlan::Execute(planned), Vec::new());
                }
            },
            Verdict::Allow => {},
        }
        let at = self.find_tool(call.name.as_str());
        let confirm = match at {
            Some(i) => {
                assert(tools_view(self.tools@)[i as int] == self.tools@[i as int]@);
                self.tools[i].confirm
            },
            None => false,
        };
        if confirm && !self.is_approved(call.name.as_str()) {
            let ghost before = calls_view(self.pending_tool@);
            let waiting = ToolCall {
                name: call.name.clone(),
                arguments: call.arguments.duplicate(),
                tool_call_id: text::copy_opt(&call.tool_call_id),
            };
            self.pending_tool.push(waiting);
            assert(calls_view(self.pending_tool@) =~= before.push(call@));
            return (ToolPlan::NeedConfirm(call), Vec::new());
        }
        let ghost view = call@;
        let mut calls: Vec<PlannedCall> = Vec::new();
        calls.push(
            PlannedCall { call, known: at.is_some(), verdict: "allowed".to_owned() },
        );
        assert(planned_view(calls@) =~= let_through(*old(self), view)->Execute_0);
        (ToolPlan::Execute(calls), Vec::new())
    }

    /// The calls that run in place of another, as far as their tools are known.
    fn plan_corrected(&self, calls: &Vec<ToolCallRecord>, tool_call_id: &Option<String>) -> (r: Vec<
        PlannedCall,
    >)
        ensures
            planned_view(r@) == corrected_calls(
                records_view(calls@),
                tools_view(self.tools@),
                opt_text(*tool_call_id),
                calls@.len() as int,
            ),
    {
        let ghost all = records_view(calls@);
        let ghost tools = tools_view(self.tools@);
        let ghost id = opt_text(*tool_call_id);
        let mut out: Vec<PlannedCall> = Vec::new();
        let mut i: usize = 0;
        assert(planned_view(out@) =~= Seq::empty());
        while i < calls.len()
            invariant
                i <= calls@.len(),
                all == records_view(calls@),
                tools == tools_view(self.tools@),
                id == opt_text(*tool_call_id),
                planned_view(out@) == corrected_calls(all, tools, id, i as int),
            decreases calls@.len() - i,
        {
            let call = &calls[i];
            assert(all[i as int] == call@);
            if self.find_tool(call.name.as_str()).is_some() {
                let arguments = match json::parse_json(call.arguments.as_str()) {
                    Some(arguments) => arguments,
                    None => {
                        let none: Vec<(String, Json)> = Vec::new();
                        assert(fields_view(none@) =~= Seq::empty());
                        json::object(none)
                    },
                };
                let ghost before = planned_view(out@);
                let planned = PlannedCall {
                    call: ToolCall {
                        name: call.name.clone(),
                        arguments,
                        tool_call_id: text::copy_opt(tool_call_id),
                    },
                    known: true,
                    verdict: "corrected".to_owned(),
                };
                out.push(planned);
                assert(planned_view(out@) =~= before.push(planned@));
            }
            i += 1;
        }
        out
    }

    /// Takes in the user's answer to the call that waits longest: it runs, or it is told that the user
    /// denied it.
    pub fn take_pending_execution(&mut self, approved: bool) -> (r: (Option<PlannedCall>, Vec<Notice>))
        ensures
            old(self).wf() ==> final(self).wf(),
            pending_answered(
                *old(self),
                *final(self),
                approved,
                planned_opt(r.0),
                notices_view(r.1@),
            ),
    {
        if self.pending_tool.len() == 0 {
            return (None, Vec::new());
        }
        let ghost before = calls_view(self.pending_tool@);
        let call = self.pending_tool.remove(0);
        assert(calls_view(self.pending_tool@) =~= before.skip(1));
        if !approved {
            let output = "user denied the tool call";
            self.record(call.name.as_str(), &call.arguments, output.to_owned());
            let cycle: u64 = self.next_meta();
            let content = text::glue3(
                text::glue("(Tool ", call.name.as_str()).as_str(),
                " result)\n",
                output,
            );
            let mut out: Vec<Notice> = Vec::new();
            let ghost view = call@;
            push_notice(
                &mut out,
                Notice::ToolResult {
                    cycle,
                    name: call.name,
                    output: output.to_owned(),
                    tool_call_id: call.tool_call_id,
                    verdict: None,
                },
            );
            push_notice(&mut out, Notice::CycleStart { cycle });
            push_notice(
                &mut out,
                Notice::Perception {
                    cycle,
                    source: PerceptionSource::ToolResult,
                    content,
                    salience: Single { bits: RESULT },
                },
            );
            assert(notices_view(out@) =~= seq![
                NoticeView::ToolResult {
                    cycle,
                    name: view.name,
                    output: output@,
                    tool_call_id: view.tool_call_id,
                    verdict: None,
                },
                NoticeView::CycleStart { cycle },
                NoticeView::Perception {
                    cycle,
                    source: PerceptionSource::ToolResult,
                    content: "(Tool "@ + view.name + " result)\n"@ + output@,
                    salience: Single { bits: RESULT },
                },
            ]);
            return (None, out);
        }
        let known = self.find_tool(call.name.as_str()).is_some();
        (Some(PlannedCall { call, known, verdict: "allowed".to_owned() }), Vec::new())
    }

    /// Records the end of a call, and what is told of it. The end of a call that the user cancelled is
    /// not told.
    pub fn finish_tool_call(&mut self, call: &ToolCall, output: &str, verdict: &str) -> (r: Vec<Notice>)
        ensures
            old(self).wf() ==> final(self).wf(),
            call_finished(
                *old(self),
                *final(self),
                call@,
                output@,
                verdict@,
                notices_view(r@),
            ),
    {
        let mut out: Vec<Notice> = Vec::new();
        if let Some(id) = &call.tool_call_id {
            if holds_text(&self.cancelled_tool_ids, id.as_str()) {
                drop_text(&mut self.cancelled_tool_ids, id.as_str());
                return out;
            }
        }
        let context: u64 = self.next_meta();
        push_notice(&mut out, Notice::ContextUpdate { cycle: context });
        self.tool_rounds_executed = self.tool_rounds_executed.saturating_add(1);
        let ghost before = executed_view(self.executed_calls@);
        let done = ExecutedCall {
            name: call.name.clone(),
            arguments: json::print_json(&call.arguments),
        };
        self.executed_calls.push(done);
        assert(executed_view(self.executed_calls@) =~= before.push(done@));
        self.record(
            call.name.as_str(),
            &call.arguments,
            truncate(output, TRACE_OUTPUT_LIMIT),
        );
        let cycle: u64 = self.next_meta();
        push_notice(
            &mut out,
            Notice::ToolResult {
                cycle,
                name: call.name.clone(),
                output: output.to_owned(),
                tool_call_id: text::copy_opt(&call.tool_call_id),
                verdict: Some(verdict.to_owned()),
            },
        );
        push_notice(&mut out, Notice::CycleStart { cycle });
        let content = note_of_result(call.name.as_str(), output, verdict);
        push_notice(
            &mut out,
            Notice::Perception {
                cycle,
                source: PerceptionSource::ToolResult,
                content,
                salience: Single { bits: RESULT },
            },
        );
        assert(notices_view(out@) =~= seq![
            NoticeView::ContextUpdate { cycle: context },
            NoticeView::ToolResult {
                cycle,
                name: call@.name,
                output: output@,
                tool_call_id: call@.tool_call_id,
                verdict: Some(verdict@),
            },
            NoticeView::CycleStart { cycle },
            NoticeView::Perception {
                cycle,
                source: PerceptionSource::ToolResult,
                content: result_note(call@.name, output@, verdict@),
                salience: Single { bits: RESULT },
            },
        ]);
        out
    }
}

/// A counter that stops at the largest value of its type.
pub open spec fn counted(n: u32) -> u32 {
    if n == u32::MAX {
        n
    } else {
        (n + 1) as u32
    }
}

/// The note on the result of a call.
fn note_of_result(name: &str, output: &str, verdict: &str) -> (r: String)
    ensures
        r@ == result_note(name@, output@, verdict@),
{
    if text::same(verdict, "corrected") {
        if is_correction_broken(output) {
            text::glue3(
                "(Tool call correction FAILED: the corrected call was malformed: ",
                output,
                ") Do not retry the same call; reconsider your tool plan and issue the call yourself with complete arguments.",
            )
        } else {
            let mut note = text::glue3(
                "(Tool call corrected by supervisor: ",
                name,
                " — the corrected call was executed instead; review its result)\n",
            );
            note.append(output);
            note
        }
    } else {
        let mut note = text::glue3("(Tool ", name, " result)\n");
        note.append(output);
        note
    }
}

/// The calls in one line.
fn line_of_calls(calls: &Vec<ToolCallRecord>) -> (r: String)
    ensures
        r@ == calls_line(records_view(calls@)),
{
    let ghost all = records_view(calls@);
    let ghost goal = Seq::new(all.len(), |i: int| all[i].name + " "@ + all[i].arguments);
    let mut parts: Vec<String> = Vec::new();
    let mut i: usize = 0;
    assert(views(parts@) =~= goal.take(0));
    while i < calls.len()
        invariant
            i <= calls@.len(),
            all == records_view(calls@),
            goal == Seq::new(all.len(), |i: int| all[i].name + " "@ + all[i].arguments),
            views(parts@) == goal.take(i as int),
        decreases calls@.len() - i,
    {
        assert(all[i as int] == calls@[i as int]@);
        let ghost before = views(parts@);
        let part = text::glue3(calls[i].name.as_str(), " ", calls[i].arguments.as_str());
        parts.push(part);
        proof {
            assert(views(parts@) =~= before.push(part@));
            assert(goal.take(i + 1) =~= goal.take(i as int).push(goal[i as int]));
        }
        i += 1;
    }
    assert(goal.take(i as int) =~= goal);
    text::joined_strings(&parts, "; ")
}

/// A copy of recorded calls.
fn copy_records(records: &Vec<ToolCallRecord>) -> (r: Vec<ToolCallRecord>)
    ensures
        records_view(r@) == records_view(records@),
{
    let ghost all = records_view(records@);
    let mut out: Vec<ToolCallRecord> = Vec::new();
    let mut i: usize = 0;
    assert(records_view(out@) =~= all.take(0));
    while i < records.len()
        invariant
            i <= records@.len(),
            all == records_view(records@),
            records_view(out@) == all.take(i as int),
        decreases records@.len() - i,
    {
        let ghost before = records_view(out@);
        let copy = ToolCallRecord {
            name: records[i].name.clone(),
            arguments: records[i].arguments.clone(),
            output: records[i].output.clone(),
        };
        out.push(copy);
        proof {
            assert(records_view(out@) =~= before.push(copy@));
            assert(all.take(i + 1) =~= all.take(i as int).push(all[i as int]));
        }
        i += 1;
    }
    assert(all.take(i as int) =~= all);
    out
}

/// Whether a text is in a list.
pub(crate) fn holds_text(v: &Vec<String>, s: &str) -> (r: bool)
    ensures
        r == views(v@).contains(s@),
{
    let ghost all = views(v@);
    let mut i: usize = 0;
    while i < v.len()
        invariant
            i <= v@.len(),
            all == views(v@),
            forall|k: int| 0 <= k < i ==> #[trigger] all[k] != s@,
        decreases v@.len() - i,
    {
        assert(all[i as int] == v@[i as int]@);
        if text::same(v[i].as_str(), s) {
            assert(all[i as int] == s@);
            return true;
        }
        i += 1;
    }
    false
}

/// The texts without those that are `s`.
pub open spec fn without_text(v: Seq<Seq<char>>, s: Seq<char>) -> Seq<Seq<char>>
    decreases v.len(),
{
    if v.len() == 0 {
        Seq::empty()
    } else if v.last() == s {
        without_text(v.drop_last(), s)
    } else {
        without_text(v.drop_last(), s).push(v.last())
    }
}

/// Removes the texts that are `s`.
pub(crate) fn drop_text(v: &mut Vec<String>, s: &str)
    ensures
        views(final(v)@) == without_text(views(old(v)@), s@),
{
    let ghost all = views(v@);
    let total: usize = v.len();
    let mut i: usize = 0;
    let mut n: usize = 0;
    assert(views(v@) =~= without_text(all.take(0), s@) + all.skip(0));
    while n < total
        invariant
            i <= n <= total,
            total == all.len(),
            i == without_text(all.take(n as int), s@).len(),
            views(v@) == without_text(all.take(n as int), s@) + all.skip(n as int),
        decreases total - n,
    {
        let ghost done = without_text(all.take(n as int), s@);
        let ghost whole = views(v@);
        proof {
            assert(all.take(n + 1).drop_last() =~= all.take(n as int));
            assert(all.take(n + 1).last() == all[n as int]);
            assert(whole.len() == v@.len());
            assert(whole[i as int] == v@[i as int]@);
            assert(whole[i as int] == all[n as int]);
        }
        if text::same(v[i].as_str(), s) {
            let _ = v.remove(i);
            proof {
                assert(views(v@) =~= whole.remove(i as int));
                assert(views(v@) =~= done + all.skip(n + 1));
            }
        } else {
            assert(done + all.skip(n as int) =~= done.push(all[n as int]) + all.skip(n + 1));
            i += 1;
        }
        n += 1;
    }
    assert(all.take(n as int) =~= all);
    assert(views(v@) =~= without_text(all, s@));
}

} // verus!
