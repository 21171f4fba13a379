//! Slash commands.

use crate::adapter::types::ReasoningEffort;
use crate::app::agent;
use crate::app::agent::{App, Notice, NoticeView};
use crate::app::rules::{rules_view, skills_view, RuleContext, SkillContext};
use crate::app::supervisor::{records_view, RecordView, ToolCallRecord};
use crate::frontend::select;
use crate::frontend::select::Selector;
use crate::frontend::state::{messages_view, MessageView, Mode, SelectorKind, UiState};
use crate::runtime::{ActionCandidate, TraceRecord};
use crate::text;
use crate::text::{
    decimal, has_prefix, join, lowercase, opt_text, prefix_of, replaced, trim, views,
};
use vstd::prelude::*;

verus! {

/// The commands with their descriptions.
pub const COMMANDS: [(&'static str, &'static str); 15] = [
    ("models", "List, switch, add, or remove models"),
    ("compact", "Compress the conversation into a summary"),
    ("approvals", "Manage remembered tool approvals"),
    ("status", "Show live cognitive signals"),
    ("task", "List or cancel scheduled tasks"),
    ("rules", "List rules (project + ~/.prognosis)"),
    ("skills", "List skills (.agents/skills + global)"),
    ("history", "List past sessions and load one fully"),
    ("continue", "Resume the most recent session"),
    ("remember", "Inject an archived session summary"),
    ("resume", "Resume a session by id (/resume <id>)"),
    ("trace", "Show recent cognitive trace records"),
    ("supervisor", "Toggle supervisor on / off"),
    ("clear", "Clear the conversation"),
    ("help", "Show key bindings and commands"),
];

/// A command and its description.
pub ghost struct CommandView {
    pub name: Seq<char>,
    pub description: Seq<char>,
}

/// Command `i`.
pub open spec fn command(i: int) -> CommandView {
    CommandView { name: COMMANDS@[i].0@, description: COMMANDS@[i].1@ }
}

/// The first `n` commands whose names begin with `prefix`.
pub open spec fn matching(prefix: Seq<char>, n: int) -> Seq<CommandView>
    decreases n,
{
    if n <= 0 {
        Seq::empty()
    } else if has_prefix(command(n - 1).name, prefix) {
        matching(prefix, n - 1).push(command(n - 1))
    } else {
        matching(prefix, n - 1)
    }
}

/// The commands whose names begin with `prefix`.
pub open spec fn commands_for(prefix: Seq<char>) -> Seq<CommandView> {
    matching(prefix, COMMANDS@.len() as int)
}

/// Commands with their texts as characters.
pub open spec fn commands_view(v: Seq<(String, String)>) -> Seq<CommandView> {
    Seq::new(v.len(), |i: int| CommandView { name: v[i].0@, description: v[i].1@ })
}

/// All commands.
pub fn all_commands() -> (r: Vec<(String, String)>)
    ensures
        commands_view(r@) == Seq::new(COMMANDS@.len(), |i: int| command(i)),
{
    let mut out: Vec<(String, String)> = Vec::new();
    let mut i: usize = 0;
    while i < 15
        invariant
            i <= 15,
            commands_view(out@) =~= Seq::new(i as nat, |k: int| command(k)),
        decreases 15 - i,
    {
        let ghost before = commands_view(out@);
        let (name, description) = COMMANDS[i];
        out.push((name.to_owned(), description.to_owned()));
        assert(commands_view(out@) =~= before.push(command(i as int)));
        i += 1;
    }
    out
}

/// The commands whose names begin with `prefix`.
pub fn commands_with_prefix(prefix: &str) -> (r: Vec<(String, String)>)
    ensures
        commands_view(r@) == commands_for(prefix@),
{
    let mut out: Vec<(String, String)> = Vec::new();
    let mut i: usize = 0;
    assert(commands_view(out@) =~= Seq::empty());
    while i < 15
        invariant
            i <= 15,
            commands_view(out@) == matching(prefix@, i as int),
        decreases 15 - i,
    {
        let (name, description) = COMMANDS[i];
        if text::starts_with(text::chars_of(name).as_slice(), prefix) {
            let ghost before = commands_view(out@);
            out.push((name.to_owned(), description.to_owned()));
            assert(commands_view(out@) =~= before.push(command(i as int)));
        }
        i += 1;
    }
    out
}

/// The commands whose names begin with `filter`, whatever its case.
pub fn filtered(filter: &str) -> (r: Vec<(String, String)>)
    ensures
        commands_view(r@) == commands_for(lowercase(filter@)),
{
    commands_with_prefix(text::to_lowercase(filter).as_str())
}

/// What a command does.
#[derive(Debug)]
pub enum Action {
    Compact,
    OpenSelector(SelectorKind),
    ShowStatus,
    ShowHelp,
    ShowTrace,
    ClearConversation,
    ContinueSession,
    ResumeSession(String),
    ToggleSupervisor,
}

/// What a command does, without the session that `resume` names.
pub ghost enum ActionView {
    Compact,
    OpenSelector(SelectorKind),
    ShowStatus,
    ShowHelp,
    ShowTrace,
    ClearConversation,
    ContinueSession,
    ResumeSession(Seq<char>),
    ToggleSupervisor,
}

impl View for Action {
    type V = ActionView;

    open spec fn view(&self) -> ActionView {
        match self {
            Action::Compact => ActionView::Compact,
            Action::OpenSelector(kind) => ActionView::OpenSelector(*kind),
            Action::ShowStatus => ActionView::ShowStatus,
            Action::ShowHelp => ActionView::ShowHelp,
            Action::ShowTrace => ActionView::ShowTrace,
            Action::ClearConversation => ActionView::ClearConversation,
            Action::ContinueSession => ActionView::ContinueSession,
            Action::ResumeSession(id) => ActionView::ResumeSession(id@),
            Action::ToggleSupervisor => ActionView::ToggleSupervisor,
        }
    }
}

/// What the command `name` does.
pub open spec fn action_of(name: Seq<char>) -> Option<ActionView> {
    if name == "models"@ {
        Some(ActionView::OpenSelector(SelectorKind::Models))
    } else if name == "compact"@ {
        Some(ActionView::Compact)
    } else if name == "approvals"@ {
        Some(ActionView::OpenSelector(SelectorKind::Approvals))
    } else if name == "status"@ {
        Some(ActionView::ShowStatus)
    } else if name == "task"@ {
        Some(ActionView::OpenSelector(SelectorKind::Tasks))
    } else if name == "rules"@ {
        Some(ActionView::OpenSelector(SelectorKind::Rules))
    } else if name == "skills"@ {
        Some(ActionView::OpenSelector(SelectorKind::Skills))
    } else if name == "history"@ {
        Some(ActionView::OpenSelector(SelectorKind::History))
    } else if name == "continue"@ {
        Some(ActionView::ContinueSession)
    } else if name == "remember"@ {
        Some(ActionView::OpenSelector(SelectorKind::Remember))
    } else if name == "resume"@ {
        Some(ActionView::ResumeSession(Seq::empty()))
    } else if name == "trace"@ {
        Some(ActionView::ShowTrace)
    } else if name == "supervisor"@ {
        Some(ActionView::ToggleSupervisor)
    } else if name == "clear"@ {
        Some(ActionView::ClearConversation)
    } else if name == "help"@ {
        Some(ActionView::ShowHelp)
    } else {
        None
    }
}

/// What the command `name` does.
pub fn execute(name: &str) -> (r: Option<Action>)
    ensures
        action_of(name@) is Some <==> r is Some,
        r matches Some(action) ==> action_of(name@) == Some(action@),
{
    if text::same(name, "models") {
        Some(Action::OpenSelector(SelectorKind::Models))
    } else if text::same(name, "compact") {
        Some(Action::Compact)
    } else if text::same(name, "approvals") {
        Some(Action::OpenSelector(SelectorKind::Approvals))
    } else if text::same(name, "status") {
        Some(Action::ShowStatus)
    } else if text::same(name, "task") {
        Some(Action::OpenSelector(SelectorKind::Tasks))
    } else if text::same(name, "rules") {
        Some(Action::OpenSelector(SelectorKind::Rules))
    } else if text::same(name, "skills") {
        Some(Action::OpenSelector(SelectorKind::Skills))
    } else if text::same(name, "history") {
        Some(Action::OpenSelector(SelectorKind::History))
    } else if text::same(name, "continue") {
        Some(Action::ContinueSession)
    } else if text::same(name, "remember") {
        Some(Action::OpenSelector(SelectorKind::Remember))
    } else if text::same(name, "resume") {
        let none = String::new();
        assert(none@ =~= Seq::<char>::empty());
        Some(Action::ResumeSession(none))
    } else if text::same(name, "trace") {
        Some(Action::ShowTrace)
    } else if text::same(name, "supervisor") {
        Some(Action::ToggleSupervisor)
    } else if text::same(name, "clear") {
        Some(Action::ClearConversation)
    } else if text::same(name, "help") {
        Some(Action::ShowHelp)
    } else {
        None
    }
}

/// Every command that is listed does something.
pub proof fn every_command_acts(i: int)
    requires
        0 <= i < COMMANDS@.len(),
    ensures
        action_of(command(i).name) is Some,
{
}

/// The session that the text of a `resume` command names.
pub open spec fn resume_id(input: Seq<char>) -> Option<Seq<char>> {
    if has_prefix(input, "resume "@) && trim(input.skip("resume "@.len() as int)).len() > 0 {
        Some(trim(input.skip("resume "@.len() as int)))
    } else {
        None
    }
}

/// The session that the text of a `resume` command names.
pub fn resume_arg(input: &str) -> (r: Option<String>)
    ensures
        opt_text(r) == resume_id(input@),
{
    let chars = text::chars_of(input);
    if !text::starts_with(chars.as_slice(), "resume ") {
        return None;
    }
    proof {
        reveal_strlit("resume ");
    }
    let rest = text::part(chars.as_slice(), 7, chars.len());
    assert(rest@ =~= input@.skip("resume "@.len() as int));
    let id = text::trimmed(rest.as_slice());
    if id.len() == 0 {
        None
    } else {
        Some(text::string_of(id.as_slice()))
    }
}

// ---------------------------------------------------------------------------------------------
// Traces
// ---------------------------------------------------------------------------------------------
/// The last `n` items, or all of them if there are fewer.
pub open spec fn last_of<A>(items: Seq<A>, n: nat) -> Seq<A> {
    if items.len() <= n {
        items
    } else {
        items.skip(items.len() - n)
    }
}

/// A remembered tool call in one line.
pub open spec fn record_line(record: RecordView) -> Seq<char> {
    record.name + " "@ + prefix_of(record.arguments, 40) + " -> "@ + replaced(
        prefix_of(record.output, 40),
        seq!['\n'],
        seq![' '],
    )
}

/// The latest tool calls, one in a line.
pub open spec fn tool_trace_text(records: Seq<RecordView>) -> Seq<char> {
    if records.len() == 0 {
        "(no tool calls yet)"@
    } else {
        let recent = last_of(records, 10);
        join(Seq::new(recent.len(), |i: int| record_line(recent[i])), "\n"@)
    }
}

/// The latest tool calls, one in a line.
pub fn format_tool_trace(traces: &Vec<ToolCallRecord>) -> (r: String)
    ensures
        r@ == tool_trace_text(records_view(traces@)),
{
    let total: usize = traces.len();
    let ghost all = records_view(traces@);
    if total == 0 {
        return "(no tool calls yet)".to_owned();
    }
    let from: usize = total.saturating_sub(10);
    let ghost recent = last_of(all, 10);
    let ghost goal = Seq::new(recent.len(), |i: int| record_line(recent[i]));
    let mut lines: Vec<String> = Vec::new();
    let mut i: usize = from;
    assert(views(lines@) =~= goal.take(0));
    while i < total
        invariant
            from <= i <= total,
            total == traces@.len(),
            from == (if total > 10 { total - 10 } else { 0 }),
            all == records_view(traces@),
            recent == last_of(all, 10),
            goal == Seq::new(recent.len(), |i: int| record_line(recent[i])),
            views(lines@) == goal.take(i - from),
        decreases total - i,
    {
        let record = &traces[i];
        assert(recent[i - from] == all[i as int]);
        let args = text::first_chars(record.arguments.as_str(), 40);
        let cut = text::first_chars(record.output.as_str(), 40);
        let nl: [char; 1] = ['\n'];
        let space: [char; 1] = [' '];
        proof {
            assert(nl@ =~= seq!['\n']);
            assert(space@ =~= seq![' ']);
        }
        let output = text::replace(
            text::chars_of(cut.as_str()).as_slice(),
            nl.as_slice(),
            space.as_slice(),
        );
        let mut line = text::glue3(record.name.as_str(), " ", args.as_str());
        line.append(" -> ");
        line.append(text::string_of(output.as_slice()).as_str());
        assert(line@ == record_line(all[i as int]));
        let ghost before = views(lines@);
        lines.push(line);
        proof {
            assert(views(lines@) =~= before.push(line@));
            assert(goal.take(i + 1 - from) =~= goal.take(i - from).push(goal[i - from]));
        }
        i += 1;
    }
    assert(goal.take(i - from) =~= goal);
    text::joined_strings(&lines, "\n")
}

/// A text behind `before` and before `after`, or nothing.
pub open spec fn wrapped_opt(value: Option<Seq<char>>, before: Seq<char>, after: Seq<char>) -> Seq<
    char,
> {
    match value {
        Some(value) => before + value + after,
        None => Seq::empty(),
    }
}

/// The name of a reasoning effort.
pub open spec fn effort_name(effort: Option<ReasoningEffort>) -> Seq<char> {
    match effort {
        None => "default"@,
        Some(ReasoningEffort::NoReasoning) => "None"@,
        Some(ReasoningEffort::Minimal) => "Minimal"@,
        Some(ReasoningEffort::Low) => "Low"@,
        Some(ReasoningEffort::Medium) => "Medium"@,
        Some(ReasoningEffort::High) => "High"@,
        Some(ReasoningEffort::XHigh) => "XHigh"@,
        Some(ReasoningEffort::Max) => "Max"@,
    }
}

/// A record of a cycle in one line.
pub open spec fn trace_line(trace: TraceRecord) -> Seq<char> {
    let error = match (trace.error_before, trace.error_after) {
        (Some(before), Some(after)) => "rpe "@ + before@ + "→"@ + after@,
        _ => "rpe --"@,
    };
    let prediction = match trace.prediction_direction {
        Some(direction) => "pred "@ + direction@,
        None => "pred --"@,
    };
    let modulation = match trace.modulation {
        Some(m) => " mod "@ + effort_name(m.reasoning_effort),
        None => Seq::empty(),
    };
    let decision = match trace.decision {
        Some(ActionCandidate::CallTool { name, .. }) => "tool "@ + name@,
        Some(ActionCandidate::Respond) => "respond"@,
        Some(ActionCandidate::AskClarification) => "clarify"@,
        None => "no decision"@,
    };
    let writes = if trace.memory_writes@.len() == 0 {
        Seq::empty()
    } else {
        " · wrote: "@ + join(views(trace.memory_writes@), ","@)
    };
    "#"@ + decimal(trace.cycle_id as nat) + " "@ + error + " · "@ + prediction + wrapped_opt(
        opt_text(trace.prediction_sentiment),
        " sent "@,
        Seq::empty(),
    ) + wrapped_opt(opt_text(trace.prediction_reaction), " ("@, ")"@) + modulation + " · "@
        + decision + wrapped_opt(opt_text(trace.retrieval), " · mem: "@, Seq::empty()) + writes
}

/// The latest records, one in a line.
pub open spec fn traces_text(traces: Seq<TraceRecord>) -> Seq<char> {
    if traces.len() == 0 {
        "(no trace records yet)"@
    } else {
        let recent = last_of(traces, 15);
        join(Seq::new(recent.len(), |i: int| trace_line(recent[i])), "\n"@)
    }
}

/// The name of a reasoning effort.
fn name_of_effort(effort: Option<ReasoningEffort>) -> (r: &'static str)
    ensures
        r@ == effort_name(effort),
{
    match effort {
        None => "default",
        Some(ReasoningEffort::NoReasoning) => "None",
        Some(ReasoningEffort::Minimal) => "Minimal",
        Some(ReasoningEffort::Low) => "Low",
        Some(ReasoningEffort::Medium) => "Medium",
        Some(ReasoningEffort::High) => "High",
        Some(ReasoningEffort::XHigh) => "XHigh",
        Some(ReasoningEffort::Max) => "Max",
    }
}

/// Appends a text behind `before` and before `after`, or nothing.
fn append_opt(out: &mut String, value: &Option<String>, before: &str, after: &str)
    ensures
        final(out)@ == old(out)@ + wrapped_opt(opt_text(*value), before@, after@),
{
    let ghost start = out@;
    match value {
        Some(value) => {
            out.append(before);
            out.append(value.as_str());
            out.append(after);
            assert(out@ =~= start + (before@ + value@ + after@));
        },
        None => {
            assert(out@ =~= start + Seq::<char>::empty());
        },
    }
}

/// A record of a cycle in one line.
fn format_trace(trace: &TraceRecord) -> (r: String)
    ensures
        r@ == trace_line(*trace),
{
    proof {
        reveal_strlit("");
        assert(""@ =~= Seq::<char>::empty());
    }
    let mut out = text::glue3("#", text::number_text(trace.cycle_id).as_str(), " ");
    let ghost s1 = out@;
    let error = match (&trace.error_before, &trace.error_after) {
        (Some(before), Some(after)) => {
            let mut s = text::glue3("rpe ", before.as_str(), "→");
            s.append(after.as_str());
            s
        },
        _ => "rpe --".to_owned(),
    };
    let prediction = match &trace.prediction_direction {
        Some(direction) => text::glue("pred ", direction.as_str()),
        None => "pred --".to_owned(),
    };
    out.append(error.as_str());
    out.append(" · ");
    out.append(prediction.as_str());
    append_opt(&mut out, &trace.prediction_sentiment, " sent ", "");
    append_opt(&mut out, &trace.prediction_reaction, " (", ")");
    let modulation = match &trace.modulation {
        Some(m) => text::glue(" mod ", name_of_effort(m.reasoning_effort)),
        None => "".to_owned(),
    };
    out.append(modulation.as_str());
    out.append(" · ");
    let decision = match &trace.decision {
        Some(ActionCandidate::CallTool { name, .. }) => text::glue("tool ", name.as_str()),
        Some(ActionCandidate::Respond) => "respond".to_owned(),
        Some(ActionCandidate::AskClarification) => "clarify".to_owned(),
        None => "no decision".to_owned(),
    };
    out.append(decision.as_str());
    append_opt(&mut out, &trace.retrieval, " · mem: ", "");
    let writes = if trace.memory_writes.len() == 0 {
        "".to_owned()
    } else {
        text::glue(" · wrote: ", text::joined_strings(&trace.memory_writes, ",").as_str())
    };
    out.append(writes.as_str());
    out
}

/// The latest records, one in a line.
pub fn format_traces(traces: &Vec<TraceRecord>) -> (r: String)
    ensures
        r@ == traces_text(traces@),
{
    let total: usize = traces.len();
    if total == 0 {
        return "(no trace records yet)".to_owned();
    }
    let from: usize = total.saturating_sub(15);
    let ghost recent = last_of(traces@, 15);
    let ghost goal = Seq::new(recent.len(), |i: int| trace_line(recent[i]));
    let mut lines: Vec<String> = Vec::new();
    let mut i: usize = from;
    assert(views(lines@) =~= goal.take(0));
    while i < total
        invariant
            from <= i <= total,
            total == traces@.len(),
            from == (if total > 15 { total - 15 } else { 0 }),
            recent == last_of(traces@, 15),
            goal == Seq::new(recent.len(), |i: int| trace_line(recent[i])),
            views(lines@) == goal.take(i - from),
        decreases total - i,
    {
        assert(recent[i - from] == traces@[i as int]);
        let line = format_trace(&traces[i]);
        let ghost before = views(lines@);
        lines.push(line);
        proof {
            assert(views(lines@) =~= before.push(line@));
            assert(goal.take(i + 1 - from) =~= goal.take(i - from).push(goal[i - from]));
        }
        i += 1;
    }
    assert(goal.take(i - from) =~= goal);
    text::joined_strings(&lines, "\n")
}

// ---------------------------------------------------------------------------------------------
// Applying
// ---------------------------------------------------------------------------------------------
/// What commands show that is kept outside of the agent: the rules and the skills, which of them are
/// switched off, and the records of the traces.
pub struct Lists {
    pub rules: Vec<RuleContext>,
    pub rules_off: Vec<String>,
    pub skills: Vec<SkillContext>,
    pub skills_off: Vec<String>,
    pub traces: Vec<TraceRecord>,
}

/// What is left to do after a command: nothing, to compress the conversation, to tell that it was
/// cleared, to go on with the latest session, or with the one that is named.
#[derive(Debug)]
pub enum Applied {
    Done,
    Compact,
    Cleared(Notice),
    Continue,
    Resume(String),
}

/// Whether a list is the one that is asked for.
pub open spec fn list_for(r: Selector, kind: SelectorKind, app: App, lists: Lists) -> bool {
    match kind {
        SelectorKind::Models => select::models_list(r, app),
        SelectorKind::Tasks => select::tasks_list(r, app),
        SelectorKind::Rules => select::rules_list(
            r,
            rules_view(lists.rules@),
            views(lists.rules_off@),
        ),
        SelectorKind::Skills => select::skills_list(
            r,
            skills_view(lists.skills@),
            views(lists.skills_off@),
        ),
        SelectorKind::Approvals => select::approvals_list(r, app),
        SelectorKind::Remember => select::archive_list(r, app),
        SelectorKind::History => select::history_list(r, app),
        SelectorKind::RemoveModel => select::removal_list(r, app),
    }
}

/// Whether a remark was added, and the chat is in front.
pub open spec fn remarked(before: UiState, after: UiState, remark: Seq<char>) -> bool {
    &&& after == (UiState { messages: after.messages, mode: Mode::Chat, ..before })
    &&& messages_view(after.messages@) == messages_view(before.messages@).push(
        MessageView::System { content: remark },
    )
}

/// The list that is asked for.
pub fn open_selector(app: &App, kind: SelectorKind, lists: &Lists) -> (r: Selector)
    ensures
        list_for(r, kind, *app, *lists),
{
    match kind {
        SelectorKind::Models => select::models_selector(app),
        SelectorKind::Tasks => select::tasks_selector(app),
        SelectorKind::Rules => select::rules_selector(&lists.rules, &lists.rules_off),
        SelectorKind::Skills => select::skills_selector(&lists.skills, &lists.skills_off),
        SelectorKind::Approvals => select::approvals_selector(app),
        SelectorKind::Remember => select::remember_selector(app),
        SelectorKind::History => select::history_selector(app),
        SelectorKind::RemoveModel => select::remove_models_selector(app),
    }
}

/// Does what a command asks for, as far as the agent and the display can, and says what is left to do.
pub fn apply_action(app: &mut App, ui: &mut UiState, action: Action, lists: &Lists) -> (r: Applied)
    ensures
        old(app).wf() ==> final(app).wf(),
        match action@ {
            ActionView::OpenSelector(kind) => {
                &&& r is Done
                &&& *final(app) == *old(app)
                &&& *final(ui) == (UiState {
                    selector: final(ui).selector,
                    mode: Mode::Selector,
                    ..*old(ui)
                })
                &&& final(ui).selector matches Some(selector) && list_for(
                    selector,
                    kind,
                    *old(app),
                    *lists,
                )
            },
            ActionView::Compact => r is Compact && *final(app) == *old(app) && *final(ui)
                == *old(ui),
            ActionView::ShowStatus => r is Done && *final(app) == *old(app) && *final(ui) == (
            UiState { mode: Mode::Status, ..*old(ui) }),
            ActionView::ShowHelp => r is Done && *final(app) == *old(app) && *final(ui) == (
            UiState { mode: Mode::Help, ..*old(ui) }),
            ActionView::ShowTrace => r is Done && *final(app) == *old(app) && remarked(
                *old(ui),
                *final(ui),
                tool_trace_text(old(app).trace()) + "\n\n"@ + traces_text(lists.traces@),
            ),
            ActionView::ToggleSupervisor => {
                &&& r is Done
                &&& *final(app) == (App { supervisor: final(app).supervisor, ..*old(app) })
                &&& final(app).supervisor.enabled == !old(app).supervisor.enabled
                &&& final(app).supervisor.failure_patterns == old(app).supervisor.failure_patterns
                &&& remarked(
                    *old(ui),
                    *final(ui),
                    if old(app).supervisor.enabled {
                        "supervisor off"@
                    } else {
                        "supervisor on"@
                    },
                )
            },
            ActionView::ClearConversation => {
                let cycle = agent::next_cycle(old(app).cycle);
                &&& r matches Applied::Cleared(notice) && notice@ == (
                NoticeView::ConversationCleared { cycle })
                &&& *final(app) == (App {
                    tool_trace: final(app).tool_trace,
                    current_user_input: final(app).current_user_input,
                    supervise_blocks: 0,
                    cycle,
                    ..*old(app)
                })
                &&& final(app).tool_trace@.len() == 0
                &&& final(app).current_user_input@.len() == 0
                &&& *final(ui) == (UiState { mode: Mode::Chat, ..*old(ui) })
            },
            ActionView::ContinueSession => r is Continue && *final(app) == *old(app) && *final(ui)
                == *old(ui),
            ActionView::ResumeSession(id) => {
                &&& *final(app) == *old(app)
                &&& if id.len() == 0 {
                    &&& r is Done
                    &&& remarked(
                        *old(ui),
                        *final(ui),
                        "usage: /resume <session id> — e.g. /resume s0001"@,
                    )
                } else {
                    &&& r matches Applied::Resume(found) && found@ == id
                    &&& *final(ui) == *old(ui)
                }
            },
        },
{
    match action {
        Action::OpenSelector(kind) => {
            let selector = open_selector(app, kind, lists);
            ui.selector = Some(selector);
            ui.mode = Mode::Selector;
            Applied::Done
        },
        Action::Compact => Applied::Compact,
        Action::ShowStatus => {
            ui.mode = Mode::Status;
            Applied::Done
        },
        Action::ShowHelp => {
            ui.mode = Mode::Help;
            Applied::Done
        },
        Action::ShowTrace => {
            let tools = format_tool_trace(app.tool_trace());
            let cognitive = format_traces(&lists.traces);
            ui.push_system(text::glue3(tools.as_str(), "\n\n", cognitive.as_str()).as_str());
            ui.mode = Mode::Chat;
            Applied::Done
        },
        Action::ToggleSupervisor => {
            let enabled = app.supervisor.is_enabled();
            app.supervisor.set_enabled(!enabled);
            if enabled {
                ui.push_system("supervisor off");
            } else {
                ui.push_system("supervisor on");
            }
            ui.mode = Mode::Chat;
            Applied::Done
        },
        Action::ClearConversation => {
            let notice = app.clear();
            ui.mode = Mode::Chat;
            Applied::Cleared(notice)
        },
        Action::ContinueSession => Applied::Continue,
        Action::ResumeSession(id) => {
            if id.as_str().is_empty() {
                ui.push_system("usage: /resume <session id> — e.g. /resume s0001");
                ui.mode = Mode::Chat;
                return Applied::Done;
            }
            Applied::Resume(id)
        },
    }
}

/// Shows how something ended, with words before what is said; the chat is in front then.
pub fn report(ui: &mut UiState, outcome: Result<&str, &str>, done: &str, failed: &str)
    ensures
        match outcome {
            Ok(said) => remarked(*old(ui), *final(ui), done@ + said@),
            Err(error) => remarked(*old(ui), *final(ui), failed@ + error@),
        },
{
    match outcome {
        Ok(said) => ui.push_system(text::glue(done, said).as_str()),
        Err(error) => ui.push_system(text::glue(failed, error).as_str()),
    }
    ui.mode = Mode::Chat;
}

} // verus!
