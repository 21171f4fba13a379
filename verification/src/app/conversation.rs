//! What the agent does besides its calls: tasks, sessions, models, approvals and the clock.

use crate::adapter::types;
use crate::adapter::types::ToolDefinition;
use crate::app::agent;
use crate::app::agent::{
    calls_view, default_tools, is_known, notices_view, tool_from, tools_view, with_tool,
    without_text, AdapterKind, App, AppConfig, Gate, Notice, NoticeView, PlanView, ToolCall,
    ToolCallView, ToolCheck, ToolEntry, ToolPlan, ToolView, BACKGROUND, GIVEN_UP, REQUEST, RESULT,
};
use crate::app::models;
use crate::app::models::{
    entries_view, entry_of, in_use, without_entry, EntryView, ModelEntry, ModelsStore,
};
use crate::app::remember;
use crate::app::remember::{
    archive_view, archived_from, closed, made_current, memory_text, other_session, paired,
    turn_added, turns_view, ConversationTurn, Remember,
};
use crate::app::rules;
use crate::app::rules::{disabled_in, in_force, opt_str, state_in};
use crate::app::scheduler::{
    all_asked, all_kept, checked, fired_view, is_monitor, task_from, without_task, Condition,
    ConditionView, Fired, FiredView, Scheduler, TaskView,
};
use crate::app::supervisor::{records_view, Supervisor, ToolCallRecord, Verdict};
use crate::app::tool_specs;
use crate::app::tool_specs::{description_of, schema_of, Surroundings, DEFAULT_TOOLS};
use crate::json;
use crate::json::{json_printed, Json, JsonView};
use crate::number::Single;
use crate::runtime::PerceptionSource;
use crate::text;
use crate::text::{ascending, decimal, lowercase, opt_text, trim, views, with_text};
use vstd::prelude::*;

verus! {

/// The name of a provider.
pub open spec fn kind_name(kind: AdapterKind) -> Seq<char> {
    match kind {
        AdapterKind::OpenAi => "openai"@,
        AdapterKind::DeepSeek => "deepseek"@,
    }
}

/// The name of a provider.
pub fn provider_name(kind: AdapterKind) -> (r: &'static str)
    ensures
        r@ == kind_name(kind),
{
    match kind {
        AdapterKind::OpenAi => "openai",
        AdapterKind::DeepSeek => "deepseek",
    }
}

/// The model that an agent starts with: the one that was in use, or else the one that is asked for, or
/// else the provider's own.
pub open spec fn starting_model(
    used: Seq<char>,
    asked: Option<Seq<char>>,
    kind: AdapterKind,
) -> Seq<char> {
    if used.len() > 0 {
        used
    } else {
        match asked {
            Some(name) => name,
            None => models::default_name(kind_name(kind)),
        }
    }
}

/// What is told with a background.
pub open spec fn background_notices(cycle: u64, background: Seq<char>) -> Seq<NoticeView> {
    seq![
        NoticeView::CycleStart { cycle },
        NoticeView::Perception {
            cycle,
            source: PerceptionSource::System,
            content: "(Conversation background)\n"@ + background,
            salience: Single { bits: BACKGROUND },
        },
    ]
}

/// What is told of the outcome of something scheduled.
pub open spec fn scheduled_notices(cycle: u64, content: Seq<char>, salience: u32) -> Seq<NoticeView> {
    seq![
        NoticeView::CycleStart { cycle },
        NoticeView::Perception {
            cycle,
            source: PerceptionSource::Scheduled,
            content,
            salience: Single { bits: salience },
        },
    ]
}

/// What is told of calls that the user cancelled, the first `n` of them, each in a cycle of its own.
pub open spec fn cancelled_notices(calls: Seq<(String, String)>, cycle: u64, n: int) -> Seq<NoticeView>
    decreases n,
{
    if n <= 0 {
        Seq::empty()
    } else {
        let now = cycle_after(cycle, n as nat);
        cancelled_notices(calls, cycle, n - 1) + seq![
            NoticeView::ToolResult {
                cycle: now,
                name: calls[n - 1].1@,
                output: "(tool call cancelled by user)"@,
                tool_call_id: Some(calls[n - 1].0@),
                verdict: Some("blocked"@),
            },
            NoticeView::CycleStart { cycle: now },
        ]
    }
}

/// The number of the cycle `n` cycles on.
pub open spec fn cycle_after(cycle: u64, n: nat) -> u64
    decreases n,
{
    if n == 0 {
        cycle
    } else {
        agent::next_cycle(cycle_after(cycle, (n - 1) as nat))
    }
}

/// The texts with the identifiers of the first `n` calls, none of them twice.
pub open spec fn with_ids(ids: Seq<Seq<char>>, calls: Seq<(String, String)>, n: int) -> Seq<Seq<char>>
    decreases n,
{
    if n <= 0 {
        ids
    } else {
        let before = with_ids(ids, calls, n - 1);
        if before.contains(calls[n - 1].0@) {
            before
        } else {
            before.push(calls[n - 1].0@)
        }
    }
}

/// A tool that a task runs, with the number of the cycle in which the outcome is told.
#[derive(Debug)]
pub struct ScheduledRun {
    pub cycle: u64,
    pub id: u64,
    pub label: String,
    pub tool: String,
    pub arguments: Json,
    pub known: bool,
}

/// A `ScheduledRun` with its texts as characters.
pub ghost struct RunView {
    pub cycle: u64,
    pub id: u64,
    pub label: Seq<char>,
    pub tool: Seq<char>,
    pub arguments: JsonView,
    pub known: bool,
}

impl View for ScheduledRun {
    type V = RunView;

    open spec fn view(&self) -> RunView {
        RunView {
            cycle: self.cycle,
            id: self.id,
            label: self.label@,
            tool: self.tool@,
            arguments: self.arguments@,
            known: self.known,
        }
    }
}

/// A condition that is to be checked for a task.
#[derive(Debug)]
pub struct PendingCheck {
    pub id: u64,
    pub condition: Condition,
}

/// A `PendingCheck` with its texts as characters.
pub ghost struct CheckView {
    pub id: u64,
    pub condition: ConditionView,
}

impl View for PendingCheck {
    type V = CheckView;

    open spec fn view(&self) -> CheckView {
        CheckView { id: self.id, condition: self.condition@ }
    }
}

/// What the clock brings: what is told, the tools to run and the conditions to check.
#[derive(Debug)]
pub struct Ticked {
    pub notices: Vec<Notice>,
    pub runs: Vec<ScheduledRun>,
    pub checks: Vec<PendingCheck>,
}

/// What the clock brings, and the number of the cycle then.
pub ghost struct TickedView {
    pub notices: Seq<NoticeView>,
    pub runs: Seq<RunView>,
    pub checks: Seq<CheckView>,
    pub cycle: u64,
}

impl Ticked {
    /// What the clock brings, with the number of the cycle then.
    pub open spec fn with_cycle(self, cycle: u64) -> TickedView {
        TickedView {
            notices: notices_view(self.notices@),
            runs: Seq::new(self.runs@.len(), |i: int| self.runs@[i]@),
            checks: Seq::new(self.checks@.len(), |i: int| self.checks@[i]@),
            cycle,
        }
    }
}

/// What one demand of the scheduler adds. The run of a tool takes a cycle, and the rules and skills are
/// read again before it.
pub open spec fn tick_step(so_far: TickedView, fired: FiredView, tools: Seq<ToolView>) -> TickedView {
    let now = agent::next_cycle(so_far.cycle);
    match fired {
        FiredView::Execute { id, action, label } => {
            let context = agent::next_cycle(now);
            TickedView {
                notices: so_far.notices.push(NoticeView::ContextUpdate { cycle: context }),
                runs: so_far.runs.push(
                    RunView {
                        cycle: now,
                        id,
                        label,
                        tool: action.tool,
                        arguments: action.arguments,
                        known: is_known(tools, action.tool),
                    },
                ),
                cycle: context,
                ..so_far
            }
        },
        FiredView::MonitorTimeout { id } => TickedView {
            notices: so_far.notices + scheduled_notices(
                now,
                "(Monitor task #"@ + decimal(id as nat) + " timed out)"@,
                GIVEN_UP,
            ),
            cycle: now,
            ..so_far
        },
        FiredView::Check { id, condition } => TickedView {
            checks: so_far.checks.push(CheckView { id, condition }),
            ..so_far
        },
    }
}

/// What the first `n` demands of the scheduler bring.
pub open spec fn ticked(fired: Seq<FiredView>, tools: Seq<ToolView>, cycle: u64, n: int) -> TickedView
    decreases n,
{
    if n <= 0 {
        TickedView { notices: Seq::empty(), runs: Seq::empty(), checks: Seq::empty(), cycle }
    } else {
        tick_step(ticked(fired, tools, cycle, n - 1), fired[n - 1], tools)
    }
}

/// What is told of a tool that a task ran.
pub fn scheduled_report(cycle: u64, id: u64, label: &str, output: &str) -> (r: Vec<Notice>)
    ensures
        notices_view(r@) == scheduled_notices(
            cycle,
            "(Scheduled task #"@ + decimal(id as nat) + " — "@ + label@ + ")\n"@ + output@,
            RESULT,
        ),
{
    let number = text::number_text(id);
    let mut content = text::glue3("(Scheduled task #", number.as_str(), " — ");
    content.append(label);
    content.append(")\n");
    content.append(output);
    tell_scheduled(cycle, content, RESULT)
}

/// What is told of the outcome of something scheduled.
fn tell_scheduled(cycle: u64, content: String, salience: u32) -> (r: Vec<Notice>)
    ensures
        notices_view(r@) == scheduled_notices(cycle, content@, salience),
{
    let mut out: Vec<Notice> = Vec::new();
    agent::push_notice(&mut out, Notice::CycleStart { cycle });
    agent::push_notice(
        &mut out,
        Notice::Perception {
            cycle,
            source: PerceptionSource::Scheduled,
            content,
            salience: Single { bits: salience },
        },
    );
    assert(notices_view(out@) =~= scheduled_notices(cycle, content@, salience));
    out
}

/// Appends notices.
fn append_notices(out: &mut Vec<Notice>, more: Vec<Notice>)
    ensures
        notices_view(final(out)@) == notices_view(old(out)@) + notices_view(more@),
{
    let ghost before = notices_view(out@);
    let ghost added = notices_view(more@);
    let mut more = more;
    out.append(&mut more);
    assert(notices_view(out@) =~= before + added);
}

/// The definitions of tools.
pub open spec fn definitions(tools: Seq<ToolView>, around: Surroundings) -> Seq<types::ToolView> {
    Seq::new(
        tools.len(),
        |i: int|
            types::ToolView {
                name: tools[i].name,
                description: description_of(tools[i].name, around),
                schema: schema_of(tools[i].name),
                strict: None,
            },
    )
}

// ---------------------------------------------------------------------------------------------
// Approvals that are kept
// ---------------------------------------------------------------------------------------------
/// The tools that a text keeps as approved for good: those of a JSON list of texts, or none.
pub open spec fn approvals_in(text: Option<Seq<char>>) -> Seq<Seq<char>> {
    match state_in(text) {
        Some(value) => rules::texts_of(value),
        None => Seq::empty(),
    }
}

/// The tools that a text keeps as approved for good.
pub fn read_approvals(text: Option<&str>) -> (r: Vec<String>)
    ensures
        views(r@) == approvals_in(opt_str(text)),
{
    if let Some(text) = text {
        if let Some(value) = json::parse_json(text) {
            return rules::read_texts(&value);
        }
    }
    let none: Vec<String> = Vec::new();
    assert(views(none@) =~= Seq::empty());
    none
}

/// The text that keeps approved tools.
pub open spec fn approvals_kept(approvals: Seq<Seq<char>>) -> Seq<char> {
    json_printed(JsonView::List(rules::json_texts(approvals)))
}

/// The text that keeps approved tools. It is read as it was written.
pub fn approvals_text(approvals: &Vec<String>) -> (r: String)
    ensures
        r@ == approvals_kept(views(approvals@)),
        approvals_in(Some(r@)) == views(approvals@),
{
    let value = rules::texts_to_json(approvals);
    let text = json::print_json(&value);
    proof {
        let all = views(approvals@);
        assert(json::is_text_list(value@));
        rules::texts_are_kept(all, all.len() as int);
        assert(all.take(all.len() as int) =~= all);
    }
    text
}

/// Whether approvals in order are those that were read.
pub open spec fn same_approvals(read: Seq<Seq<char>>, approvals: Seq<Seq<char>>) -> bool {
    &&& ascending(approvals)
    &&& forall|x: Seq<char>| #[trigger] approvals.contains(x) <==> read.contains(x)
}

/// A tool that is approved for good is approved after a restart, and no other is: `text` is what the
/// first agent kept, and the second was made from it.
pub proof fn approvals_survive_restarts(before: App, after: App, text: Seq<char>, name: Seq<char>)
    requires
        approvals_in(Some(text)) == views(before.approvals@),
        same_approvals(approvals_in(Some(text)), views(after.approvals@)),
    ensures
        views(after.approvals@).contains(name) == views(before.approvals@).contains(name),
{
}

/// What becomes of a call before it runs: a plan, or a question to the supervisor.
#[derive(Debug)]
pub enum Prepared {
    Plan(ToolPlan),
    Ask {
        input: String,
        trace: Vec<ToolCallRecord>,
        pending: ToolCallRecord,
        tools: Vec<String>,
    },
}

impl App {
    /// An agent with the default tools that has done nothing yet. `approvals` is the text that keeps
    /// the tools that are approved for good.
    pub fn new(
        config: AppConfig,
        remember: Remember,
        models_store: ModelsStore,
        approvals: Option<&str>,
    ) -> (r: App)
        ensures
            remember.wf() ==> r.wf(),
            r.project_dir == config.project_dir,
            r.supervisor.enabled == config.supervisor_enabled,
            r.supervisor.failure_patterns@.len() == 0,
            r.remember == remember,
            r.scheduler.all().len() == 0,
            r.scheduler.next() == 1,
            r.models_store == models_store,
            r.current_model@ == starting_model(
                models_store.current@,
                opt_text(config.model),
                config.adapter,
            ),
            same_approvals(approvals_in(opt_str(approvals)), views(r.approvals@)),
            tools_view(r.tools@) == default_tools(DEFAULT_TOOLS@.len() as int),
            r.pending_tool@.len() == 0,
            r.tool_trace@.len() == 0,
            r.current_user_input@.len() == 0,
            r.supervise_blocks == 0,
            r.tool_rounds_executed == 0,
            r.executed_calls@.len() == 0,
            r.cancelled_tool_ids@.len() == 0,
            r.cycle == 0,
    {
        let mut supervisor = Supervisor::new();
        supervisor.set_enabled(config.supervisor_enabled);
        let current_model = if !models_store.current.as_str().is_empty() {
            models_store.current.clone()
        } else {
            match config.model {
                Some(name) => name,
                None => models::default_model_name(provider_name(config.adapter)),
            }
        };
        let mut app = App {
            project_dir: config.project_dir,
            supervisor,
            remember,
            scheduler: Scheduler::new(),
            models_store,
            current_model,
            approvals: sorted_texts(&read_approvals(approvals)),
            tools: Vec::new(),
            pending_tool: Vec::new(),
            tool_trace: Vec::new(),
            current_user_input: String::new(),
            supervise_blocks: 0,
            tool_rounds_executed: 0,
            executed_calls: Vec::new(),
            cancelled_tool_ids: Vec::new(),
            cycle: 0,
        };
        assert(app.current_user_input@ =~= Seq::<char>::empty());
        app.register_default_tools();
        app
    }

    /// Adds a tool, in place of any with its name.
    pub fn register_tool(&mut self, name: &str, confirm: bool)
        ensures
            *final(self) == (App { tools: final(self).tools, ..*old(self) }),
            tools_view(final(self).tools@) == with_tool(
                tools_view(old(self).tools@),
                ToolView { name: name@, confirm },
            ),
    {
        let ghost before = tools_view(self.tools@);
        match self.find_tool(name) {
            Some(i) => {
                assert(before[i as int] == self.tools@[i as int]@);
                proof {
                    tool_from_is_first(before, name@, 0);
                }
                self.tools[i].confirm = confirm;
                assert(tools_view(self.tools@) =~= before.update(
                    i as int,
                    ToolView { name: name@, confirm },
                ));
            },
            None => {
                let tool = ToolEntry { name: name.to_owned(), confirm };
                self.tools.push(tool);
                assert(tools_view(self.tools@) =~= before.push(tool@));
            },
        }
    }

    /// Adds the default tools to an agent that has none.
    fn register_default_tools(&mut self)
        requires
            old(self).tools@.len() == 0,
        ensures
            *final(self) == (App { tools: final(self).tools, ..*old(self) }),
            tools_view(final(self).tools@) == default_tools(DEFAULT_TOOLS@.len() as int),
    {
        let ghost start = *self;
        assert(tools_view(self.tools@) =~= Seq::empty());
        let mut i: usize = 0;
        while i < 16
            invariant
                i <= 16,
                *self == (App { tools: self.tools, ..start }),
                tools_view(self.tools@) == default_tools(i as int),
            decreases 16 - i,
        {
            let (name, confirm) = DEFAULT_TOOLS[i];
            self.register_tool(name, confirm);
            i += 1;
        }
    }

    /// What the model is told about the tools.
    pub fn tool_definitions(&self, around: &Surroundings) -> (r: Vec<ToolDefinition>)
        ensures
            types::tools_view(r@) == definitions(tools_view(self.tools@), *around),
    {
        let ghost goal = definitions(tools_view(self.tools@), *around);
        let mut out: Vec<ToolDefinition> = Vec::new();
        let mut i: usize = 0;
        assert(types::tools_view(out@) =~= goal.take(0));
        while i < self.tools.len()
            invariant
                i <= self.tools@.len(),
                goal == definitions(tools_view(self.tools@), *around),
                types::tools_view(out@) == goal.take(i as int),
            decreases self.tools@.len() - i,
        {
            let ghost before = types::tools_view(out@);
            let name = self.tools[i].name.as_str();
            let (description, schema) = tool_specs::tool_spec(name, around);
            let definition = ToolDefinition::function(name, description, schema);
            out.push(definition);
            proof {
                assert(types::tools_view(out@) =~= before.push(definition@));
                assert(goal.take(i + 1) =~= goal.take(i as int).push(goal[i as int]));
            }
            i += 1;
        }
        assert(goal.take(i as int) =~= goal);
        out
    }

    /// The name of the model in use.
    pub fn current_model_name(&self) -> (r: &str)
        ensures
            r@ == self.current_model@,
    {
        self.current_model.as_str()
    }

    /// The directory of the project.
    pub fn project_dir(&self) -> (r: &str)
        ensures
            r@ == self.project_dir@,
    {
        self.project_dir.as_str()
    }

    /// Whether the user has to name a model first: no key is in the environment, and no model is kept.
    pub fn needs_setup(&self, deepseek_key: bool, openai_key: bool) -> (r: bool)
        ensures
            r == (!deepseek_key && !openai_key && self.models_store.entries@.len() == 0),
    {
        !deepseek_key && !openai_key && self.models_store.entries.len() == 0
    }

    /// The calls of the current task.
    pub fn tool_trace(&self) -> (r: &Vec<ToolCallRecord>)
        ensures
            *r == self.tool_trace,
    {
        &self.tool_trace
    }

    /// The tokens that the model in use takes in.
    pub fn context_limit(&self) -> (r: usize)
        ensures
            r == models::window_of(lowercase(self.current_model@)),
    {
        models::context_window(self.current_model.as_str())
    }

    /// The names of the models, in order, none of them twice.
    pub fn list_models(&self) -> (r: Vec<String>)
        ensures
            ascending(views(r@)),
            forall|x: Seq<char>| #[trigger]
                views(r@).contains(x) <==> models::entry_names(
                    entries_view(self.models_store.entries@),
                ).contains(x),
    {
        self.models_store.names()
    }

    /// Puts a model to use, unless there is none with that name, or its client could not be built:
    /// `failure` says why.
    pub fn switch_model(&mut self, name: &str, failure: Option<&str>) -> (r: Result<String, String>)
        ensures
            *final(self) == (App {
                models_store: final(self).models_store,
                current_model: final(self).current_model,
                ..*old(self)
            }),
            match (entry_of(entries_view(old(self).models_store.entries@), name@), failure) {
                (None, _) => *final(self) == *old(self) && (r matches Err(e) && e@ == "model "@
                    + name@ + " not found"@),
                (Some(_), Some(reason)) => *final(self) == *old(self) && (r matches Err(e) && e@
                    == "model build failed: "@ + reason@),
                (Some(entry), None) => {
                    &&& r matches Ok(said) && said@ == "switched to "@ + name@
                    &&& in_use(old(self).models_store, final(self).models_store, entry)
                    &&& final(self).current_model@ == name@
                },
            },
    {
        let entry = match self.models_store.get(name) {
            Some(entry) => entry.duplicate(),
            None => return Err(text::glue3("model ", name, " not found")),
        };
        proof {
            models::entry_from_is_first(entries_view(self.models_store.entries@), name@, 0);
        }
        match models::switch_adapter(&mut self.models_store, &entry, failure) {
            Err(reason) => return Err(reason),
            Ok(()) => {},
        }
        self.current_model = entry.name;
        Ok(text::glue("switched to ", name))
    }

    /// Adds a model and puts it to use, unless its client could not be built: `failure` says why.
    pub fn add_model(
        &mut self,
        name: &str,
        kind: &str,
        base_url: &str,
        api_key: &str,
        failure: Option<&str>,
    ) -> (r: Result<String, String>)
        ensures
            *final(self) == (App {
                models_store: final(self).models_store,
                current_model: final(self).current_model,
                ..*old(self)
            }),
            match failure {
                Some(reason) => *final(self) == *old(self) && (r matches Err(e) && e@
                    == "model build failed: "@ + reason@),
                None => {
                    &&& r matches Ok(said) && said@ == "model "@ + name@ + " added and activated"@
                    &&& in_use(
                        old(self).models_store,
                        final(self).models_store,
                        EntryView {
                            name: name@,
                            kind: kind@,
                            base_url: base_url@,
                            api_key: api_key@,
                        },
                    )
                    &&& final(self).current_model@ == name@
                },
            },
    {
        let entry = ModelEntry {
            name: name.to_owned(),
            kind: kind.to_owned(),
            base_url: base_url.to_owned(),
            api_key: api_key.to_owned(),
        };
        match models::switch_adapter(&mut self.models_store, &entry, failure) {
            Err(reason) => return Err(reason),
            Ok(()) => {},
        }
        self.current_model = name.to_owned();
        Ok(text::glue3("model ", name, " added and activated"))
    }

    /// The model that takes over when another is removed; none if the other is not in use, or is the
    /// last.
    pub fn successor(&self, name: &str) -> (r: Option<ModelEntry>)
        ensures
            match r {
                Some(entry) => successor_of(*self, name@) == Some(entry@),
                None => successor_of(*self, name@) is None,
            },
    {
        if !text::same(self.current_model.as_str(), name) {
            return None;
        }
        let ghost all = entries_view(self.models_store.entries@);
        let mut i: usize = 0;
        while i < self.models_store.entries.len()
            invariant
                i <= self.models_store.entries@.len(),
                all == entries_view(self.models_store.entries@),
                self.current_model@ == name@,
                without_entry(all.take(i as int), name@).len() == 0,
            decreases self.models_store.entries@.len() - i,
        {
            proof {
                assert(all[i as int] == self.models_store.entries@[i as int]@);
                assert(all.take(i + 1).drop_last() =~= all.take(i as int));
                assert(all.take(i + 1).last() == all[i as int]);
            }
            if !text::same(self.models_store.entries[i].name.as_str(), name) {
                proof {
                    assert(all.take(i + 1) + all.skip(i + 1) =~= all);
                    removing_from_both(all.take(i + 1), all.skip(i + 1), name@);
                    assert(without_entry(all.take(i + 1), name@)[0] == all[i as int]);
                    assert(without_entry(all, name@)[0] == all[i as int]);
                }
                return Some(self.models_store.entries[i].duplicate());
            }
            i += 1;
        }
        assert(all.take(i as int) =~= all);
        None
    }

    /// Removes a model. Where it was in use its successor takes over, unless the client of that one
    /// could not be built: `failure` says why.
    pub fn remove_model(&mut self, name: &str, failure: Option<&str>) -> (r: Result<String, String>)
        ensures
            *final(self) == (App {
                models_store: final(self).models_store,
                current_model: final(self).current_model,
                ..*old(self)
            }),
            entry_of(entries_view(old(self).models_store.entries@), name@) is None ==> {
                &&& entries_view(final(self).models_store.entries@) == entries_view(
                    old(self).models_store.entries@,
                )
                &&& final(self).models_store.current@ == if old(self).models_store.current@
                    == name@ {
                    models::first_name(entries_view(old(self).models_store.entries@))
                } else {
                    old(self).models_store.current@
                }
                &&& final(self).current_model == old(self).current_model
                &&& r matches Err(e) && e@ == "model "@ + name@ + " not found"@
            },
            entry_of(entries_view(old(self).models_store.entries@), name@) is Some ==> {
                let left = without_entry(entries_view(old(self).models_store.entries@), name@);
                let used = if old(self).models_store.current@ == name@ {
                    models::first_name(left)
                } else {
                    old(self).models_store.current@
                };
                match (successor_of(*old(self), name@), failure) {
                    (Some(entry), None) => {
                        &&& entries_view(final(self).models_store.entries@) == without_entry(
                            left,
                            entry.name,
                        ).push(entry)
                        &&& final(self).models_store.current@ == entry.name
                        &&& final(self).current_model@ == entry.name
                        &&& r matches Ok(said) && said@ == "model "@ + name@ + " removed"@
                    },
                    (Some(_), Some(reason)) => {
                        &&& entries_view(final(self).models_store.entries@) == left
                        &&& final(self).models_store.current@ == used
                        &&& final(self).current_model == old(self).current_model
                        &&& r matches Err(e) && e@ == "model build failed: "@ + reason@
                    },
                    (None, _) => {
                        &&& entries_view(final(self).models_store.entries@) == left
                        &&& final(self).models_store.current@ == used
                        &&& final(self).current_model@ == if old(self).current_model@ == name@ {
                            Seq::empty()
                        } else {
                            old(self).current_model@
                        }
                        &&& r matches Ok(said) && said@ == "model "@ + name@ + " removed"@
                    },
                }
            },
    {
        let ghost all = entries_view(self.models_store.entries@);
        let next = self.successor(name);
        if !self.models_store.remove(name) {
            proof {
                models::removing_nothing(all, name@);
            }
            return Err(text::glue3("model ", name, " not found"));
        }
        if text::same(self.current_model.as_str(), name) {
            match next {
                Some(entry) => {
                    match models::switch_adapter(&mut self.models_store, &entry, failure) {
                        Err(reason) => return Err(reason),
                        Ok(()) => {},
                    }
                    self.current_model = entry.name;
                },
                None => {
                    self.current_model = String::new();
                    assert(self.current_model@ =~= Seq::<char>::empty());
                },
            }
        }
        Ok(text::glue3("model ", name, " removed"))
    }
}

/// The model that takes over when another is removed.
pub open spec fn successor_of(app: App, name: Seq<char>) -> Option<EntryView> {
    let left = without_entry(entries_view(app.models_store.entries@), name);
    if app.current_model@ == name && left.len() > 0 {
        Some(left[0])
    } else {
        None
    }
}

/// Removing an entry from two lists is removing it from each.
proof fn removing_from_both(a: Seq<EntryView>, b: Seq<EntryView>, name: Seq<char>)
    ensures
        without_entry(a + b, name) == without_entry(a, name) + without_entry(b, name),
    decreases b.len(),
{
    if b.len() == 0 {
        assert(a + b =~= a);
        assert(without_entry(a, name) + without_entry(b, name) =~= without_entry(a, name));
    } else {
        assert((a + b).drop_last() =~= a + b.drop_last());
        assert((a + b).last() == b.last());
        removing_from_both(a, b.drop_last(), name);
        assert(without_entry(a + b, name) =~= without_entry(a, name) + without_entry(b, name));
    }
}

/// Texts in order, none of them twice.
fn sorted_texts(v: &Vec<String>) -> (r: Vec<String>)
    ensures
        ascending(views(r@)),
        forall|x: Seq<char>| #[trigger] views(r@).contains(x) <==> views(v@).contains(x),
{
    let ghost all = views(v@);
    let mut out: Vec<String> = Vec::new();
    let mut i: usize = 0;
    assert(views(out@).len() == 0);
    while i < v.len()
        invariant
            i <= v@.len(),
            all == views(v@),
            ascending(views(out@)),
            forall|x: Seq<char>| #[trigger]
                views(out@).contains(x) <==> all.take(i as int).contains(x),
        decreases v@.len() - i,
    {
        let ghost before = views(out@);
        text::insert_text(&mut out, v[i].clone());
        proof {
            let ghost next = all.take(i + 1);
            assert(all[i as int] == v@[i as int]@);
            assert(next =~= all.take(i as int).push(all[i as int]));
            assert forall|x: Seq<char>| #[trigger]
                views(out@).contains(x) <==> next.contains(x) by {
                if next.contains(x) {
                    let k = choose|k: int| 0 <= k < next.len() && next[k] == x;
                    if k < i {
                        assert(all.take(i as int)[k] == x);
                        assert(all.take(i as int).contains(x));
                        assert(before.contains(x));
                    }
                }
                if all.take(i as int).contains(x) {
                    let k = choose|k: int| 0 <= k < i && all.take(i as int)[k] == x;
                    assert(next[k] == x);
                }
                if x == all[i as int] {
                    assert(next[i as int] == x);
                }
                assert(before.contains(x) <==> all.take(i as int).contains(x));
            }
        }
        i += 1;
    }
    assert(all.take(i as int) =~= all);
    out
}

impl App {
    /// Prepares a call: the check, and then the supervisor, if it is on.
    pub fn prepare_tool_call(&mut self, call: ToolCall) -> (r: (Prepared, Vec<Notice>))
        ensures
            old(self).wf() ==> final(self).wf(),
            match agent::gate(*old(self), call@.name, call@.arguments) {
                Gate::Open => if old(self).supervisor.enabled {
                    &&& *final(self) == *old(self)
                    &&& r.1@.len() == 0
                    &&& match r.0 {
                        Prepared::Plan(_) => false,
                        Prepared::Ask { input, trace, pending, tools } => {
                            &&& input@ == old(self).current_user_input@
                            &&& records_view(trace@) == old(self).trace()
                            &&& pending@ == agent::record_of(
                                call@.name,
                                call@.arguments,
                                Seq::empty(),
                            )
                            &&& views(tools@) == agent::tool_names(tools_view(old(self).tools@))
                        },
                    }
                } else {
                    &&& r.1@.len() == 0
                    &&& *final(self) == (App {
                        pending_tool: final(self).pending_tool,
                        ..*old(self)
                    })
                    &&& r.0 matches Prepared::Plan(plan) && plan@ == agent::let_through(
                        *old(self),
                        call@,
                    )
                    &&& calls_view(final(self).pending_tool@) == if agent::must_wait(
                        *old(self),
                        call@.name,
                    ) {
                        calls_view(old(self).pending_tool@).push(call@)
                    } else {
                        calls_view(old(self).pending_tool@)
                    }
                },
                _ => {
                    &&& r.0 matches Prepared::Plan(plan) && plan@ == PlanView::Blocked
                    &&& agent::stopped(
                        *old(self),
                        *final(self),
                        call@.name,
                        call@.arguments,
                        call@.tool_call_id,
                        notices_view(r.1@),
                    )
                },
            },
    {
        let (check, notices) = self.check_tool_call(
            call.name.as_str(),
            &call.arguments,
            &call.tool_call_id,
        );
        match check {
            ToolCheck::Blocked => {
                (Prepared::Plan(ToolPlan::Blocked), notices)
            },
            ToolCheck::Ready => {
                let (plan, told) = self.apply_verdict(Verdict::Allow, call);
                (Prepared::Plan(plan), told)
            },
            ToolCheck::Judge { input, trace, pending, tools } => (
                Prepared::Ask { input, trace, pending, tools },
                notices,
            ),
        }
    }

    /// The name of the call that waits longest.
    pub fn pending_tool_name(&self) -> (r: Option<String>)
        ensures
            opt_text(r) == if self.pending_tool@.len() == 0 {
                None
            } else {
                Some(self.pending_tool@[0].name@)
            },
    {
        if self.pending_tool.len() == 0 {
            None
        } else {
            Some(self.pending_tool[0].name.clone())
        }
    }

    /// Tells that the user cancelled calls, each given by its identifier and its tool, so that what
    /// they still bring is not told.
    pub fn cancel_tools(&mut self, calls: &Vec<(String, String)>) -> (r: Vec<Notice>)
        ensures
            *final(self) == (App {
                cancelled_tool_ids: final(self).cancelled_tool_ids,
                cycle: cycle_after(old(self).cycle, calls@.len()),
                ..*old(self)
            }),
            views(final(self).cancelled_tool_ids@) == with_ids(
                views(old(self).cancelled_tool_ids@),
                calls@,
                calls@.len() as int,
            ),
            notices_view(r@) == cancelled_notices(calls@, old(self).cycle, calls@.len() as int),
    {
        let ghost start = *self;
        let mut out: Vec<Notice> = Vec::new();
        let mut i: usize = 0;
        assert(notices_view(out@) =~= Seq::empty());
        while i < calls.len()
            invariant
                i <= calls@.len(),
                *self == (App {
                    cancelled_tool_ids: self.cancelled_tool_ids,
                    cycle: cycle_after(start.cycle, i as nat),
                    ..start
                }),
                views(self.cancelled_tool_ids@) == with_ids(
                    views(start.cancelled_tool_ids@),
                    calls@,
                    i as int,
                ),
                notices_view(out@) == cancelled_notices(calls@, start.cycle, i as int),
            decreases calls@.len() - i,
        {
            let (id, name) = (&calls[i].0, &calls[i].1);
            if !agent::holds_text(&self.cancelled_tool_ids, id.as_str()) {
                let ghost before = views(self.cancelled_tool_ids@);
                self.cancelled_tool_ids.push(id.clone());
                assert(views(self.cancelled_tool_ids@) =~= before.push(id@));
            }
            let cycle: u64 = self.next_meta();
            let ghost before = notices_view(out@);
            agent::push_notice(
                &mut out,
                Notice::ToolResult {
                    cycle,
                    name: name.clone(),
                    output: "(tool call cancelled by user)".to_owned(),
                    tool_call_id: Some(id.clone()),
                    verdict: Some("blocked".to_owned()),
                },
            );
            agent::push_notice(&mut out, Notice::CycleStart { cycle });
            i += 1;
            assert(notices_view(out@) =~= cancelled_notices(calls@, start.cycle, i as int));
        }
        out
    }

    /// Begins a task with what the user says. `turns` are those of the session that is going on; what
    /// it has then is given back.
    pub fn submit(&mut self, said: &str, turns: Vec<ConversationTurn>) -> (r: (
        Option<Vec<ConversationTurn>>,
        Vec<Notice>,
    ))
        requires
            turns@.len() < usize::MAX,
        ensures
            old(self).wf() ==> final(self).wf(),
            *final(self) == (App {
                remember: final(self).remember,
                tool_trace: final(self).tool_trace,
                current_user_input: final(self).current_user_input,
                supervise_blocks: 0,
                tool_rounds_executed: 0,
                executed_calls: final(self).executed_calls,
                cycle: cycle_after(old(self).cycle, 2),
                ..*old(self)
            }),
            final(self).tool_trace@.len() == 0,
            final(self).executed_calls@.len() == 0,
            final(self).current_user_input@ == said@,
            turn_added(
                old(self).remember,
                final(self).remember,
                "user"@,
                said@,
                turns_view(turns@),
                r.0,
            ),
            notices_view(r.1@) == ({
                let context = agent::next_cycle(old(self).cycle);
                let cycle = agent::next_cycle(context);
                seq![
                    NoticeView::ContextUpdate { cycle: context },
                    NoticeView::TaskSet { cycle, goal: said@ },
                    NoticeView::CycleStart { cycle },
                    NoticeView::Perception {
                        cycle,
                        source: PerceptionSource::User,
                        content: said@,
                        salience: Single { bits: REQUEST },
                    },
                ]
            }),
    {
        self.tool_trace.clear();
        self.supervise_blocks = 0;
        self.tool_rounds_executed = 0;
        self.executed_calls.clear();
        self.current_user_input = said.to_owned();
        let now = self.remember.append_turn("user", said, turns);
        let mut out: Vec<Notice> = Vec::new();
        let context: u64 = self.next_meta();
        agent::push_notice(&mut out, Notice::ContextUpdate { cycle: context });
        let cycle: u64 = self.next_meta();
        agent::push_notice(&mut out, Notice::TaskSet { cycle, goal: said.to_owned() });
        agent::push_notice(&mut out, Notice::CycleStart { cycle });
        agent::push_notice(
            &mut out,
            Notice::Perception {
                cycle,
                source: PerceptionSource::User,
                content: said.to_owned(),
                salience: Single { bits: REQUEST },
            },
        );
        proof {
            reveal_with_fuel(cycle_after, 3);
            assert(notices_view(out@) =~= seq![
                NoticeView::ContextUpdate { cycle: context },
                NoticeView::TaskSet { cycle, goal: said@ },
                NoticeView::CycleStart { cycle },
                NoticeView::Perception {
                    cycle,
                    source: PerceptionSource::User,
                    content: said@,
                    salience: Single { bits: REQUEST },
                },
            ]);
        }
        (now, out)
    }

    /// Gives the agent a background.
    pub fn inject_context(&mut self, background: &str) -> (r: Vec<Notice>)
        ensures
            *final(self) == (App { cycle: agent::next_cycle(old(self).cycle), ..*old(self) }),
            notices_view(r@) == background_notices(
                agent::next_cycle(old(self).cycle),
                background@,
            ),
    {
        let cycle: u64 = self.next_meta();
        let mut out: Vec<Notice> = Vec::new();
        agent::push_notice(&mut out, Notice::CycleStart { cycle });
        agent::push_notice(
            &mut out,
            Notice::Perception {
                cycle,
                source: PerceptionSource::System,
                content: text::glue("(Conversation background)\n", background),
                salience: Single { bits: BACKGROUND },
            },
        );
        assert(notices_view(out@) =~= background_notices(cycle, background@));
        out
    }

    /// Goes on with a session, which has `turns`. One without turns is not there.
    pub fn resume_session(&mut self, id: &str, turns: &Vec<ConversationTurn>) -> (r: Result<
        (String, Vec<Notice>),
        String,
    >)
        ensures
            old(self).wf() ==> final(self).wf(),
            turns@.len() == 0 ==> *final(self) == *old(self) && (r matches Err(e) && e@
                == "session #"@ + id@ + " not found"@),
            turns@.len() > 0 ==> {
                let first = agent::next_cycle(old(self).cycle);
                let second = agent::next_cycle(first);
                &&& *final(self) == (App {
                    remember: final(self).remember,
                    cycle: second,
                    ..*old(self)
                })
                &&& made_current(old(self).remember, final(self).remember, id@)
                &&& r matches Ok(done) && done.0@ == "resumed session #"@ + id@ + " ("@ + decimal(
                    turns@.len(),
                ) + " turns)"@ && notices_view(done.1@) == seq![
                    NoticeView::RestoreDialogue {
                        cycle: first,
                        turns: closed(paired(turns_view(turns@), turns@.len() as int)),
                    },
                ] + background_notices(
                    second,
                    "(Session #"@ + id@
                        + " resumed — the full conversation history is loaded; continue the earlier work.)"@,
                )
            },
    {
        if turns.len() == 0 {
            return Err(text::glue3("session #", id, " not found"));
        }
        let dialogue = remember::pair_dialogue(turns);
        let cycle: u64 = self.next_meta();
        let mut out: Vec<Notice> = Vec::new();
        agent::push_notice(&mut out, Notice::RestoreDialogue { cycle, turns: dialogue });
        let told = self.inject_context(
            text::glue3(
                "(Session #",
                id,
                " resumed — the full conversation history is loaded; continue the earlier work.)",
            ).as_str(),
        );
        append_notices(&mut out, told);
        let _ = self.remember.set_current(id);
        let number = text::number_text(turns.len() as u64);
        let mut said = text::glue3("resumed session #", id, " (");
        said.append(number.as_str());
        said.append(" turns)");
        proof {
            assert(notices_view(out@) =~= seq![
                NoticeView::RestoreDialogue {
                    cycle,
                    turns: closed(paired(turns_view(turns@), turns@.len() as int)),
                },
            ] + background_notices(
                agent::next_cycle(cycle),
                "(Session #"@ + id@
                    + " resumed — the full conversation history is loaded; continue the earlier work.)"@,
            ));
        }
        Ok((said, out))
    }

    /// The session to go on with: the latest but the one that is going on.
    pub fn continue_session(&self) -> (r: Result<String, String>)
        ensures
            ({
                let id = other_session(
                    self.remember.full(),
                    match self.remember.now() {
                        Some(meta) => Some(meta.id),
                        None => None,
                    },
                    self.remember.sessions@.len() as int,
                );
                match id {
                    Some(id) => r matches Ok(found) && found@ == id,
                    None => r matches Err(e) && e@ == "no previous session"@,
                }
            }),
    {
        match self.remember.previous_session() {
            Some(id) => Ok(id),
            None => Err("no previous session".to_owned()),
        }
    }

    /// Gives the agent the memory of an archived session.
    pub fn inject_archive_summary(&mut self, id: &str) -> (r: Result<(String, Vec<Notice>), String>)
        ensures
            match archived_from(archive_view(old(self).remember.archive@), id@, 0) {
                Some(entry) => {
                    let cycle = agent::next_cycle(old(self).cycle);
                    &&& *final(self) == (App { cycle, ..*old(self) })
                    &&& r matches Ok(done) && done.0@ == "remembered session #"@ + id@
                        && notices_view(done.1@) == background_notices(cycle, memory_text(entry))
                },
                None => *final(self) == *old(self) && (r matches Err(e) && e@
                    == "no archived session #"@ + id@),
            },
    {
        match self.remember.recall(id) {
            Some(memory) => {
                let told = self.inject_context(memory.as_str());
                Ok((text::glue("remembered session #", id), told))
            },
            None => Err(text::glue("no archived session #", id)),
        }
    }

    /// Adds what the agent said to the session that is going on, unless it is blank.
    pub fn note_assistant_turn(&mut self, content: &str, turns: Vec<ConversationTurn>) -> (r: Option<
        Vec<ConversationTurn>,
    >)
        requires
            turns@.len() < usize::MAX,
        ensures
            *final(self) == (App { remember: final(self).remember, ..*old(self) }),
            old(self).wf() ==> final(self).wf(),
            trim(content@).len() == 0 ==> r is None && final(self).remember == old(self).remember,
            trim(content@).len() > 0 ==> turn_added(
                old(self).remember,
                final(self).remember,
                "assistant"@,
                content@,
                turns_view(turns@),
                r,
            ),
    {
        let chars = text::chars_of(content);
        if text::trimmed(chars.as_slice()).len() == 0 {
            return None;
        }
        self.remember.append_turn("assistant", content, turns)
    }

    /// Forgets the task.
    pub fn clear(&mut self) -> (r: Notice)
        ensures
            old(self).wf() ==> final(self).wf(),
            *final(self) == (App {
                tool_trace: final(self).tool_trace,
                current_user_input: final(self).current_user_input,
                supervise_blocks: 0,
                cycle: agent::next_cycle(old(self).cycle),
                ..*old(self)
            }),
            final(self).tool_trace@.len() == 0,
            final(self).current_user_input@.len() == 0,
            r@ == (NoticeView::ConversationCleared { cycle: agent::next_cycle(old(self).cycle) }),
    {
        self.tool_trace.clear();
        self.supervise_blocks = 0;
        self.current_user_input = String::new();
        assert(self.current_user_input@ =~= Seq::<char>::empty());
        let cycle: u64 = self.next_meta();
        Notice::ConversationCleared { cycle }
    }

    /// Breaks off the answer that is coming in.
    pub fn cancel_generation(&mut self) -> (r: Notice)
        ensures
            *final(self) == (App { cycle: agent::next_cycle(old(self).cycle), ..*old(self) }),
            r@ == (NoticeView::CancelGeneration { cycle: agent::next_cycle(old(self).cycle) }),
    {
        let cycle: u64 = self.next_meta();
        Notice::CancelGeneration { cycle }
    }

    /// Reads the rules and the skills again.
    pub fn refresh_context(&mut self) -> (r: Notice)
        ensures
            *final(self) == (App { cycle: agent::next_cycle(old(self).cycle), ..*old(self) }),
            r@ == (NoticeView::ContextUpdate { cycle: agent::next_cycle(old(self).cycle) }),
    {
        let cycle: u64 = self.next_meta();
        Notice::ContextUpdate { cycle }
    }

    /// Compresses the conversation, with what the archivist said of its transcript.
    pub fn compact(&mut self, transcript: &str, reply: Option<&str>) -> (r: (String, Notice))
        ensures
            *final(self) == (App { cycle: agent::next_cycle(old(self).cycle), ..*old(self) }),
            r.0@ == remember::compressed(
                transcript@,
                match reply {
                    Some(output) => Some(output@),
                    None => None,
                },
            ),
            r.1@ == (NoticeView::CompactContext {
                cycle: agent::next_cycle(old(self).cycle),
                summary: r.0@,
            }),
    {
        let summary = remember::compact(transcript, reply);
        let cycle: u64 = self.next_meta();
        let notice = Notice::CompactContext { cycle, summary: summary.clone() };
        (summary, notice)
    }

    /// Approves a tool for good.
    pub fn remember_approval(&mut self, name: &str)
        requires
            ascending(views(old(self).approvals@)),
        ensures
            old(self).wf() ==> final(self).wf(),
            ascending(views(final(self).approvals@)),
            *final(self) == (App { approvals: final(self).approvals, ..*old(self) }),
            with_text(views(old(self).approvals@), name@, views(final(self).approvals@)),
    {
        text::insert_text(&mut self.approvals, name.to_owned());
    }

    /// Takes back the approval of a tool.
    pub fn clear_approval(&mut self, name: &str)
        ensures
            old(self).wf() ==> final(self).wf(),
            *final(self) == (App { approvals: final(self).approvals, ..*old(self) }),
            views(final(self).approvals@) == without_text(views(old(self).approvals@), name@),
    {
        let ghost before = views(self.approvals@);
        agent::drop_text(&mut self.approvals, name);
        proof {
            if ascending(before) {
                leaving_out_keeps_order(before, name@);
            }
        }
    }

    /// The text that keeps the tools that are approved for good.
    pub fn save_approvals(&self) -> (r: String)
        ensures
            r@ == approvals_kept(views(self.approvals@)),
            approvals_in(Some(r@)) == views(self.approvals@),
    {
        approvals_text(&self.approvals)
    }

    /// The tools that are approved for good, in order.
    pub fn approvals(&self) -> (r: &Vec<String>)
        ensures
            *r == self.approvals,
    {
        &self.approvals
    }

    /// Takes in the demands of the scheduler.
    fn take_in(&mut self, fired: &Vec<Fired>) -> (r: Ticked)
        ensures
            *final(self) == (App { cycle: final(self).cycle, ..*old(self) }),
            r.with_cycle(final(self).cycle) == ticked(
                fired_view(fired@),
                tools_view(old(self).tools@),
                old(self).cycle,
                fired@.len() as int,
            ),
    {
        let ghost start = *self;
        let ghost all = fired_view(fired@);
        let ghost tools = tools_view(self.tools@);
        let mut out = Ticked { notices: Vec::new(), runs: Vec::new(), checks: Vec::new() };
        let mut i: usize = 0;
        proof {
            let goal = ticked(all, tools, start.cycle, 0);
            assert(out.with_cycle(self.cycle).notices =~= goal.notices);
            assert(out.with_cycle(self.cycle).runs =~= goal.runs);
            assert(out.with_cycle(self.cycle).checks =~= goal.checks);
        }
        while i < fired.len()
            invariant
                i <= fired@.len(),
                all == fired_view(fired@),
                tools == tools_view(start.tools@),
                *self == (App { cycle: self.cycle, ..start }),
                out.with_cycle(self.cycle) == ticked(all, tools, start.cycle, i as int),
            decreases fired@.len() - i,
        {
            let ghost before = out.with_cycle(self.cycle);
            let ghost goal = tick_step(before, all[i as int], tools);
            assert(all[i as int] == fired@[i as int]@);
            match &fired[i] {
                Fired::Execute { id, action, label } => {
                    let cycle: u64 = self.next_meta();
                    let context: u64 = self.next_meta();
                    agent::push_notice(
                        &mut out.notices,
                        Notice::ContextUpdate { cycle: context },
                    );
                    let copy = action.duplicate();
                    let known = self.find_tool(copy.tool.as_str()).is_some();
                    out.runs.push(
                        ScheduledRun {
                            cycle,
                            id: *id,
                            label: label.clone(),
                            tool: copy.tool,
                            arguments: copy.arguments,
                            known,
                        },
                    );
                },
                Fired::MonitorTimeout { id } => {
                    let cycle: u64 = self.next_meta();
                    let number = text::number_text(*id);
                    let told = tell_scheduled(
                        cycle,
                        text::glue3("(Monitor task #", number.as_str(), " timed out)"),
                        GIVEN_UP,
                    );
                    append_notices(&mut out.notices, told);
                },
                Fired::Check { id, condition } => {
                    out.checks.push(PendingCheck { id: *id, condition: condition.duplicate() });
                },
            }
            proof {
                let now = out.with_cycle(self.cycle);
                assert(now.notices =~= goal.notices);
                assert(now.runs =~= goal.runs);
                assert(now.checks =~= goal.checks);
            }
            i += 1;
        }
        out
    }

    /// What the tasks ask for at a moment.
    pub fn scheduler_tick(&mut self, now: u128) -> (r: Ticked)
        ensures
            old(self).wf() ==> final(self).wf(),
            *final(self) == (App {
                scheduler: final(self).scheduler,
                cycle: final(self).cycle,
                ..*old(self)
            }),
            final(self).scheduler.all() == all_kept(
                old(self).scheduler.all(),
                now,
                old(self).scheduler.all().len() as int,
            ),
            final(self).scheduler.next() == old(self).scheduler.next(),
            ({
                let fired = all_asked(
                    old(self).scheduler.all(),
                    now,
                    old(self).scheduler.all().len() as int,
                );
                r.with_cycle(final(self).cycle) == ticked(
                    fired,
                    tools_view(old(self).tools@),
                    old(self).cycle,
                    fired.len() as int,
                )
            }),
    {
        let fired = self.scheduler.poll(now);
        assert(fired_view(fired@).len() == fired@.len());
        self.take_in(&fired)
    }

    /// Takes in whether the condition of a monitor holds.
    pub fn take_check(&mut self, id: u64, holds: bool, now: u128) -> (r: Ticked)
        ensures
            old(self).wf() ==> final(self).wf(),
            *final(self) == (App {
                scheduler: final(self).scheduler,
                cycle: final(self).cycle,
                ..*old(self)
            }),
            ({
                let fired = check_asks(old(self).scheduler, id, holds);
                r.with_cycle(final(self).cycle) == ticked(
                    fired,
                    tools_view(old(self).tools@),
                    old(self).cycle,
                    fired.len() as int,
                )
            }),
            final(self).scheduler.next() == old(self).scheduler.next(),
            final(self).scheduler.all() == check_leaves(old(self).scheduler, id, holds, now),
    {
        let ghost goal = check_asks(self.scheduler, id, holds);
        let fired = self.scheduler.check_result(id, holds, now);
        assert(fired_view(fired@) =~= goal);
        assert(fired_view(fired@).len() == fired@.len());
        self.take_in(&fired)
    }
}

/// What a monitor asks for after its check: its tool, if the condition holds.
pub open spec fn check_asks(scheduler: Scheduler, id: u64, holds: bool) -> Seq<FiredView> {
    match task_from(scheduler.all(), id, 0) {
        Some(i) => if is_monitor(scheduler.all()[i]) && holds {
            seq![
                FiredView::Execute {
                    id,
                    action: scheduler.all()[i].action,
                    label: "monitor matched"@,
                },
            ]
        } else {
            Seq::empty()
        },
        None => Seq::empty(),
    }
}

/// The tasks after the check of a monitor: without it, if the condition holds.
pub open spec fn check_leaves(scheduler: Scheduler, id: u64, holds: bool, now: u128) -> Seq<TaskView> {
    match task_from(scheduler.all(), id, 0) {
        Some(i) => if !is_monitor(scheduler.all()[i]) {
            scheduler.all()
        } else if holds {
            without_task(scheduler.all(), id)
        } else {
            scheduler.all().update(i, checked(scheduler.all()[i], now))
        },
        None => scheduler.all(),
    }
}

/// Texts in order stay in order without one of them.
proof fn leaving_out_keeps_order(v: Seq<Seq<char>>, s: Seq<char>)
    requires
        ascending(v),
    ensures
        ascending(without_text(v, s)),
        forall|i: int|
            0 <= i < without_text(v, s).len() ==> v.contains(#[trigger] without_text(v, s)[i]),
    decreases v.len(),
{
    if v.len() > 0 {
        let head = v.drop_last();
        assert forall|i: int, j: int| 0 <= i < j < head.len() implies text::precedes(
            #[trigger] head[i],
            #[trigger] head[j],
        ) by {
            assert(head[i] == v[i] && head[j] == v[j]);
        }
        leaving_out_keeps_order(head, s);
        let left = without_text(head, s);
        let all = without_text(v, s);
        assert forall|i: int| 0 <= i < all.len() implies v.contains(#[trigger] all[i]) by {
            if i < left.len() {
                assert(head.contains(left[i]));
                let k = choose|k: int| 0 <= k < head.len() && head[k] == left[i];
                assert(v[k] == all[i]);
            } else {
                assert(v[v.len() - 1] == all[i]);
            }
        }
        assert forall|i: int, j: int| 0 <= i < j < all.len() implies text::precedes(
            #[trigger] all[i],
            #[trigger] all[j],
        ) by {
            if j < left.len() {
                assert(all[i] == left[i] && all[j] == left[j]);
            } else {
                assert(head.contains(left[i]));
                let k = choose|k: int| 0 <= k < head.len() && head[k] == left[i];
                assert(v[k] == all[i]);
                assert(v[v.len() - 1] == all[j]);
            }
        }
    }
}

// ---------------------------------------------------------------------------------------------
// Laws
// ---------------------------------------------------------------------------------------------
/// A call that was run and told is not run again in the same way: the check stops it.
pub proof fn finished_calls_are_not_repeated(
    before: App,
    after: App,
    name: Seq<char>,
    arguments: JsonView,
)
    requires
        agent::executed_view(after.executed_calls@) == agent::executed_view(
            before.executed_calls@,
        ).push(agent::ExecutedView { name, arguments: json_printed(arguments) }),
    ensures
        !(agent::gate(after, name, arguments) is Open),
{
    let all = agent::executed_view(after.executed_calls@);
    assert(all[all.len() - 1] == (agent::ExecutedView { name, arguments: json_printed(arguments) }));
}

/// The check lets nothing through once the limit of calls is reached.
pub proof fn rounds_are_limited(app: App, name: Seq<char>, arguments: JsonView)
    requires
        app.tool_rounds_executed >= agent::MAX_TOOL_ROUNDS,
    ensures
        !(agent::gate(app, name, arguments) is Open),
{
}

/// A call that lacks a parameter is stopped, unless calls were sent back too often already.
pub proof fn incomplete_calls_are_stopped(app: App, name: Seq<char>, arguments: JsonView)
    requires
        tool_specs::missing_parameter(name, arguments) is Some,
        app.supervise_blocks < agent::MAX_SUPERVISE_BLOCKS,
    ensures
        agent::gate(app, name, arguments) == Gate::Missing(
            tool_specs::missing_parameter(name, arguments)->0,
        ),
{
}

/// A tool that asks before it runs is not run without approval when the supervisor lets it through.
pub proof fn unapproved_calls_wait(app: App, call: ToolCallView)
    requires
        agent::asks_first(tools_view(app.tools@), call.name),
        !views(app.approvals@).contains(call.name),
    ensures
        agent::let_through(app, call) == PlanView::NeedConfirm(call),
{
}

/// A tool that was approved for good runs without asking when the supervisor lets it through, and so
/// does every tool that was approved before.
pub proof fn approved_calls_run(before: App, after: App, name: Seq<char>, call: ToolCallView)
    requires
        with_text(views(before.approvals@), name, views(after.approvals@)),
        call.name == name || views(before.approvals@).contains(call.name),
    ensures
        agent::let_through(after, call) is Execute,
{
    assert(views(after.approvals@).contains(call.name));
}

/// A tool that was registered is known and asks as it was said, and the others are as they were.
pub proof fn registered_tools_are_known(tools: Seq<ToolView>, tool: ToolView, other: Seq<char>)
    ensures
        is_known(with_tool(tools, tool), tool.name),
        agent::asks_first(with_tool(tools, tool), tool.name) == tool.confirm,
        other != tool.name ==> is_known(with_tool(tools, tool), other) == is_known(tools, other),
        other != tool.name ==> agent::asks_first(with_tool(tools, tool), other)
            == agent::asks_first(tools, other),
{
    let now = with_tool(tools, tool);
    tool_from_is_first(tools, tool.name, 0);
    tool_from_is_first(tools, other, 0);
    tool_from_is_first(now, tool.name, 0);
    tool_from_is_first(now, other, 0);
    match tool_from(tools, tool.name, 0) {
        Some(i) => {
            assert(now[i] == tool);
            assert forall|k: int| 0 <= k < tools.len() && k != i implies now[k] == tools[k] by {}
            let k = tool_from(now, tool.name, 0)->0;
            if k < i {
                assert(now[k] == tools[k]);
            }
            if other != tool.name {
                same_position(tools, now, other);
            }
        },
        None => {
            assert(now[tools.len() as int] == tool);
            assert forall|k: int| 0 <= k < tools.len() implies now[k] == tools[k] by {}
            let k = tool_from(now, tool.name, 0)->0;
            if k < tools.len() {
                assert(now[k] == tools[k]);
            }
            if other != tool.name {
                same_position(tools, now, other);
            }
        },
    }
}

/// The tool that is found is the first with its name, from `i` on.
proof fn tool_from_is_first(tools: Seq<ToolView>, name: Seq<char>, i: int)
    requires
        0 <= i <= tools.len(),
    ensures
        match tool_from(tools, name, i) {
            Some(k) => i <= k < tools.len() && tools[k].name == name && forall|j: int|
                i <= j < k ==> (#[trigger] tools[j]).name != name,
            None => forall|j: int| i <= j < tools.len() ==> (#[trigger] tools[j]).name != name,
        },
    decreases tools.len() - i,
{
    if i < tools.len() && tools[i].name != name {
        tool_from_is_first(tools, name, i + 1);
    }
}

/// A tool stays where it is when the others around it change, but not their names.
proof fn same_position(a: Seq<ToolView>, b: Seq<ToolView>, name: Seq<char>)
    requires
        a.len() <= b.len(),
        forall|k: int|
            0 <= k < a.len() ==> (#[trigger] b[k] == a[k] || b[k].name != name && a[k].name != name),
        forall|k: int| a.len() <= k < b.len() ==> (#[trigger] b[k]).name != name,
    ensures
        tool_from(a, name, 0) == tool_from(b, name, 0),
        tool_from(a, name, 0) matches Some(k) ==> a[k] == b[k],
{
    tool_from_is_first(a, name, 0);
    tool_from_is_first(b, name, 0);
    match tool_from(a, name, 0) {
        Some(k) => {
            assert(b[k] == a[k] || b[k].name != name && a[k].name != name);
            let j = tool_from(b, name, 0)->0;
            if j < k {
                assert(b[j] == a[j] || b[j].name != name && a[j].name != name);
            }
        },
        None => {
            if let Some(j) = tool_from(b, name, 0) {
                if j < a.len() {
                    assert(b[j] == a[j] || b[j].name != name && a[j].name != name);
                }
            }
        },
    }
}

/// An approval that was taken back is gone, and the others stay.
pub proof fn cleared_approvals_are_gone(approvals: Seq<Seq<char>>, name: Seq<char>, other: Seq<char>)
    ensures
        !without_text(approvals, name).contains(name),
        other != name ==> without_text(approvals, name).contains(other) == approvals.contains(other),
    decreases approvals.len(),
{
    let left = without_text(approvals, name);
    if approvals.len() > 0 {
        let head = approvals.drop_last();
        let before = without_text(head, name);
        cleared_approvals_are_gone(head, name, other);
        if left.contains(name) {
            let k = choose|k: int| 0 <= k < left.len() && left[k] == name;
            assert(before[k] == name);
        }
        if left.contains(other) && other != name {
            let k = choose|k: int| 0 <= k < left.len() && left[k] == other;
            if k < before.len() {
                assert(before[k] == other);
                let j = choose|j: int| 0 <= j < head.len() && head[j] == other;
                assert(approvals[j] == other);
            } else {
                assert(approvals[approvals.len() - 1] == other);
            }
        }
        if approvals.contains(other) && other != name {
            let k = choose|k: int| 0 <= k < approvals.len() && approvals[k] == other;
            if k < head.len() {
                assert(head[k] == other);
                let j = choose|j: int| 0 <= j < before.len() && before[j] == other;
                assert(left[j] == other);
            } else {
                assert(left[before.len() as int] == other);
            }
        }
    }
}

/// What switching a rule or a skill brings: whether it is in force now, the text of the state that is
/// kept (nothing if the old one is no object), and what is told.
pub struct Toggled {
    pub enabled: bool,
    pub state: Option<String>,
    pub notice: Notice,
}

/// Whether a rule or a skill was switched.
pub open spec fn was_toggled(
    before: App,
    after: App,
    state: Option<Seq<char>>,
    kind: Seq<char>,
    name: Seq<char>,
    r: Toggled,
) -> bool {
    let cycle = agent::next_cycle(before.cycle);
    let disabled = disabled_in(state, kind);
    &&& after == (App { cycle, ..before })
    &&& r.enabled == !in_force(disabled, name)
    &&& opt_text(r.state) == rules::switched_text(state, kind, name, r.enabled)
    &&& r.notice@ == (NoticeView::ContextUpdate { cycle })
    &&& r.state matches Some(text) ==> rules::kept(state, kind, name, r.enabled, text@)
}

impl App {
    /// Switches a rule on or off. `state` is what is kept of such switches.
    pub fn toggle_rule(&mut self, state: Option<&str>, name: &str) -> (r: Toggled)
        ensures
            was_toggled(*old(self), *final(self), opt_str(state), "rules"@, name@, r),
    {
        let enabled = !rules::is_rule_enabled(state, name);
        let state = rules::set_rule_enabled(state, name, enabled);
        let notice = self.refresh_context();
        Toggled { enabled, state, notice }
    }

    /// Switches a skill on or off. `state` is what is kept of such switches.
    pub fn toggle_skill(&mut self, state: Option<&str>, name: &str) -> (r: Toggled)
        ensures
            was_toggled(*old(self), *final(self), opt_str(state), "skills"@, name@, r),
    {
        let enabled = !rules::is_skill_enabled(state, name);
        let state = rules::set_skill_enabled(state, name, enabled);
        let notice = self.refresh_context();
        Toggled { enabled, state, notice }
    }
}

/// The provider to use: the one that is named, or else the one that the environment has a key for, or
/// else DeepSeek.
pub fn pick_adapter(explicit: Option<&str>, deepseek_key: bool, openai_key: bool) -> (r: AdapterKind)
    ensures
        r == match opt_str(explicit) {
            Some(name) => if name == "openai"@ {
                AdapterKind::OpenAi
            } else if name == "deepseek"@ {
                AdapterKind::DeepSeek
            } else {
                keyed_adapter(deepseek_key, openai_key)
            },
            None => keyed_adapter(deepseek_key, openai_key),
        },
{
    if let Some(name) = explicit {
        if text::same(name, "openai") {
            return AdapterKind::OpenAi;
        }
        if text::same(name, "deepseek") {
            return AdapterKind::DeepSeek;
        }
    }
    if !deepseek_key && openai_key {
        AdapterKind::OpenAi
    } else {
        AdapterKind::DeepSeek
    }
}

/// The provider that the environment has a key for.
pub open spec fn keyed_adapter(deepseek_key: bool, openai_key: bool) -> AdapterKind {
    if deepseek_key {
        AdapterKind::DeepSeek
    } else if openai_key {
        AdapterKind::OpenAi
    } else {
        AdapterKind::DeepSeek
    }
}

} // verus!
