//! Lists to choose from.

use crate::app::agent;
use crate::app::agent::App;
use crate::app::models;
use crate::app::models::{entries_view, entry_names};
use crate::app::remember::{archive_view, sessions_view, ArchivedView, MetaView};
use crate::app::rules::{
    in_force, rules_view, skills_view, RuleContext, RuleView, SkillContext, SkillView,
};
use crate::app::scheduler::{task_text, tasks_view, TaskView};
use crate::frontend::panels;
use crate::frontend::panels::{gauge, RenderCtx};
use crate::frontend::render;
use crate::frontend::render::left_aligned;
use crate::frontend::state::{SelectorKind, UiState};
use crate::frontend::theme::Color;
use crate::text;
use crate::text::{ascending, decimal, prefix_of, views};
use vstd::arithmetic::div_mod::lemma_fundamental_div_mod_converse;
use vstd::arithmetic::div_mod::lemma_fundamental_div_mod;
use vstd::prelude::*;

verus! {

/// A list to choose from.
pub struct Selector {
    pub kind: SelectorKind,
    pub title: String,
    pub items: Vec<String>,
    pub selected: usize,
    pub hint: String,
}

impl Selector {
    /// A list whose first item is selected.
    pub fn new(kind: SelectorKind, title: String, items: Vec<String>, hint: String) -> (r: Self)
        ensures
            r == (Selector { kind, title, items, selected: 0, hint }),
    {
        Selector { kind, title, items, selected: 0, hint }
    }

    /// Selects the item above, or the last one from the first.
    pub fn move_up(&mut self)
        ensures
            old(self).items@.len() == 0 ==> *final(self) == *old(self),
            old(self).items@.len() > 0 ==> *final(self) == (Selector {
                selected: ((old(self).selected + old(self).items@.len() - 1)
                    % old(self).items@.len() as int) as usize,
                ..*old(self)
            }),
    {
        let n: usize = self.items.len();
        if n > 0 {
            let at: usize = self.selected % n;
            proof {
                let s = self.selected as int;
                let m = n as int;
                lemma_fundamental_div_mod(s, m);
                assert(m * (s / m) == (s / m) * m) by (nonlinear_arith);
                if at == 0 {
                    assert(s + m - 1 == (s / m) * m + (m - 1));
                    lemma_fundamental_div_mod_converse(s + m - 1, m, s / m, m - 1);
                } else {
                    assert((s / m + 1) * m == (s / m) * m + m) by (nonlinear_arith);
                    assert(s + m - 1 == (s / m + 1) * m + (at - 1));
                    lemma_fundamental_div_mod_converse(s + m - 1, m, s / m + 1, at - 1);
                }
            }
            self.selected = if at == 0 {
                n - 1
            } else {
                at - 1
            };
        }
    }

    /// Selects the item below, or the first one from the last.
    pub fn move_down(&mut self)
        ensures
            old(self).items@.len() == 0 ==> *final(self) == *old(self),
            old(self).items@.len() > 0 ==> *final(self) == (Selector {
                selected: ((old(self).selected + 1) % old(self).items@.len() as int) as usize,
                ..*old(self)
            }),
    {
        let n: usize = self.items.len();
        if n > 0 {
            let at: usize = self.selected % n;
            proof {
                let s = self.selected as int;
                let m = n as int;
                lemma_fundamental_div_mod(s, m);
                assert(m * (s / m) == (s / m) * m) by (nonlinear_arith);
                if at == n - 1 {
                    assert((s / m + 1) * m == (s / m) * m + m) by (nonlinear_arith);
                    lemma_fundamental_div_mod_converse(s + 1, m, s / m + 1, 0);
                } else {
                    lemma_fundamental_div_mod_converse(s + 1, m, s / m, at + 1);
                }
            }
            self.selected = if at == n - 1 {
                0
            } else {
                at + 1
            };
        }
    }

    /// The selected item.
    pub fn current(&self) -> (r: Option<&str>)
        ensures
            match r {
                Some(item) => self.selected < self.items@.len() && item@
                    == self.items@[self.selected as int]@,
                None => self.selected >= self.items@.len(),
            },
    {
        if self.selected < self.items.len() {
            Some(self.items[self.selected].as_str())
        } else {
            None
        }
    }
}

/// Moving down and then up comes back to the item that was selected.
pub proof fn up_undoes_down(selected: int, len: int)
    requires
        0 <= selected < len,
    ensures
        ((selected + 1) % len + len - 1) % len == selected,
{
    if selected + 1 == len {
        lemma_fundamental_div_mod_converse(len, len, 1, 0);
        lemma_fundamental_div_mod_converse(len - 1, len, 0, len - 1);
    } else {
        lemma_fundamental_div_mod_converse(selected + 1, len, 0, selected + 1);
        lemma_fundamental_div_mod_converse(selected + len, len, 1, selected);
    }
}

/// A row of the status panel.
#[derive(Debug)]
pub struct StatusRow {
    pub title: bool,
    pub color: Color,
    pub text: String,
}

// ---------------------------------------------------------------------------------------------
// What there is to choose from
// ---------------------------------------------------------------------------------------------
/// Whether a list is fresh, with the given title, items and hint.
pub open spec fn is_list(
    r: Selector,
    kind: SelectorKind,
    title: Seq<char>,
    items: Seq<Seq<char>>,
    hint: Seq<char>,
) -> bool {
    &&& r.kind == kind
    &&& r.title@ == title
    &&& views(r.items@) == items
    &&& r.selected == 0
    &&& r.hint@ == hint
}

/// Adds a text.
fn push_item(items: &mut Vec<String>, item: String)
    ensures
        views(final(items)@) == views(old(items)@).push(item@),
{
    let ghost before = views(items@);
    items.push(item);
    assert(views(items@) =~= before.push(item@));
}

/// Whether texts are the names of the models, in order, none of them twice.
pub open spec fn are_models(items: Seq<Seq<char>>, app: App) -> bool {
    &&& ascending(items)
    &&& forall|x: Seq<char>| #[trigger]
        items.contains(x) <==> entry_names(entries_view(app.models_store.entries@)).contains(x)
}

/// Whether a list is that of the models, and what else can be done with them.
pub open spec fn models_list(r: Selector, app: App) -> bool {
    &&& views(r.items@).len() >= 2
    &&& are_models(views(r.items@).take(views(r.items@).len() - 2), app)
    &&& is_list(
        r,
        SelectorKind::Models,
        "Models"@,
        views(r.items@).take(views(r.items@).len() - 2).push("+ Add model"@).push(
            "− Remove model"@,
        ),
        "Enter: switch / add / remove · ↑↓ : move · Esc: close"@,
    )
}

/// The models, and what else can be done with them.
pub fn models_selector(app: &App) -> (r: Selector)
    ensures
        models_list(r, *app),
{
    let mut items = app.list_models();
    let ghost names = views(items@);
    push_item(&mut items, "+ Add model".to_owned());
    push_item(&mut items, "− Remove model".to_owned());
    assert(views(items@).take(views(items@).len() - 2) =~= names);
    Selector::new(
        SelectorKind::Models,
        "Models".to_owned(),
        items,
        "Enter: switch / add / remove · ↑↓ : move · Esc: close".to_owned(),
    )
}

/// Whether a list is that of the models that can be removed.
pub open spec fn removal_list(r: Selector, app: App) -> bool {
    &&& are_models(views(r.items@), app)
    &&& is_list(
        r,
        SelectorKind::RemoveModel,
        "Remove Model"@,
        views(r.items@),
        "Enter: remove · ↑↓ : move · Esc: cancel"@,
    )
}

/// The models that can be removed.
pub fn remove_models_selector(app: &App) -> (r: Selector)
    ensures
        removal_list(r, *app),
{
    Selector::new(
        SelectorKind::RemoveModel,
        "Remove Model".to_owned(),
        app.list_models(),
        "Enter: remove · ↑↓ : move · Esc: cancel".to_owned(),
    )
}

/// An archived session in one line.
pub open spec fn archived_line(entry: ArchivedView) -> Seq<char> {
    "#"@ + entry.id + " · "@ + prefix_of(entry.summary, 60)
}

/// Whether a list is that of the archived sessions.
pub open spec fn archive_list(r: Selector, app: App) -> bool {
    let all = archive_view(app.remember.archive@);
    is_list(
        r,
        SelectorKind::Remember,
        "Archived Memories"@,
        Seq::new(all.len(), |i: int| archived_line(all[i])),
        "Enter: inject summary · ↑↓ : move · Esc: close"@,
    )
}

/// The archived sessions.
pub fn remember_selector(app: &App) -> (r: Selector)
    ensures
        archive_list(r, *app),
{
    let entries = app.remember.archive();
    let ghost all = archive_view(entries@);
    let ghost goal = Seq::new(all.len(), |i: int| archived_line(all[i]));
    let mut items: Vec<String> = Vec::new();
    let mut i: usize = 0;
    assert(views(items@) =~= goal.take(0));
    while i < entries.len()
        invariant
            i <= entries@.len(),
            all == archive_view(entries@),
            goal == Seq::new(all.len(), |i: int| archived_line(all[i])),
            views(items@) == goal.take(i as int),
        decreases entries@.len() - i,
    {
        assert(all[i as int] == entries@[i as int]@);
        let preview = text::first_chars(entries[i].summary.as_str(), 60);
        let mut line = text::glue3("#", entries[i].id.as_str(), " · ");
        line.append(preview.as_str());
        push_item(&mut items, line);
        assert(goal.take(i + 1) =~= goal.take(i as int).push(goal[i as int]));
        i += 1;
    }
    assert(goal.take(i as int) =~= goal);
    Selector::new(
        SelectorKind::Remember,
        "Archived Memories".to_owned(),
        items,
        "Enter: inject summary · ↑↓ : move · Esc: close".to_owned(),
    )
}

/// A session in one line.
pub open spec fn session_line(meta: MetaView) -> Seq<char> {
    "#"@ + meta.id + " · "@ + meta.created + " · "@ + decimal(meta.turns as nat) + " turns · "@
        + prefix_of(meta.summary, 40)
}

/// Whether a list is that of the sessions that are kept in full.
pub open spec fn history_list(r: Selector, app: App) -> bool {
    let all = sessions_view(app.remember.sessions@);
    is_list(
        r,
        SelectorKind::History,
        "Session History"@,
        Seq::new(all.len(), |i: int| session_line(all[i])),
        "Enter: load full session · ↑↓ : move · Esc: close"@,
    )
}

/// The sessions that are kept in full.
pub fn history_selector(app: &App) -> (r: Selector)
    ensures
        history_list(r, *app),
{
    let sessions = app.remember.list_sessions();
    let ghost all = sessions_view(sessions@);
    let ghost goal = Seq::new(all.len(), |i: int| session_line(all[i]));
    let mut items: Vec<String> = Vec::new();
    let mut i: usize = 0;
    assert(views(items@) =~= goal.take(0));
    while i < sessions.len()
        invariant
            i <= sessions@.len(),
            all == sessions_view(sessions@),
            goal == Seq::new(all.len(), |i: int| session_line(all[i])),
            views(items@) == goal.take(i as int),
        decreases sessions@.len() - i,
    {
        assert(all[i as int] == sessions@[i as int]@);
        let meta = &sessions[i];
        let mut line = text::glue3("#", meta.id.as_str(), " · ");
        line.append(meta.created.as_str());
        line.append(" · ");
        line.append(text::number_text(meta.turns as u64).as_str());
        line.append(" turns · ");
        line.append(text::first_chars(meta.summary.as_str(), 40).as_str());
        push_item(&mut items, line);
        assert(goal.take(i + 1) =~= goal.take(i as int).push(goal[i as int]));
        i += 1;
    }
    assert(goal.take(i as int) =~= goal);
    Selector::new(
        SelectorKind::History,
        "Session History".to_owned(),
        items,
        "Enter: load full session · ↑↓ : move · Esc: close".to_owned(),
    )
}

/// A task in one line.
pub open spec fn task_line(task: TaskView) -> Seq<char> {
    "#"@ + decimal(task.id as nat) + " "@ + task_text(task)
}

/// Whether a list is that of the scheduled tasks.
pub open spec fn tasks_list(r: Selector, app: App) -> bool {
    let all = app.scheduler.all();
    is_list(
        r,
        SelectorKind::Tasks,
        "Scheduled Tasks"@,
        Seq::new(all.len(), |i: int| task_line(all[i])),
        "Enter: cancel · ↑↓ : move · Esc: close"@,
    )
}

/// The scheduled tasks.
pub fn tasks_selector(app: &App) -> (r: Selector)
    ensures
        tasks_list(r, *app),
{
    let tasks = app.scheduler.tasks();
    let ghost all = tasks_view(tasks@);
    let ghost goal = Seq::new(all.len(), |i: int| task_line(all[i]));
    let mut items: Vec<String> = Vec::new();
    let mut i: usize = 0;
    assert(views(items@) =~= goal.take(0));
    while i < tasks.len()
        invariant
            i <= tasks@.len(),
            all == tasks_view(tasks@),
            goal == Seq::new(all.len(), |i: int| task_line(all[i])),
            views(items@) == goal.take(i as int),
        decreases tasks@.len() - i,
    {
        assert(all[i as int] == tasks@[i as int]@);
        let number = text::number_text(tasks[i].id);
        let mut line = text::glue3("#", number.as_str(), " ");
        line.append(tasks[i].describe().as_str());
        push_item(&mut items, line);
        assert(goal.take(i + 1) =~= goal.take(i as int).push(goal[i as int]));
        i += 1;
    }
    assert(goal.take(i as int) =~= goal);
    Selector::new(
        SelectorKind::Tasks,
        "Scheduled Tasks".to_owned(),
        items,
        "Enter: cancel · ↑↓ : move · Esc: close".to_owned(),
    )
}

/// A rule or a skill in one line, with whether it is in force.
pub open spec fn switch_line(
    name: Seq<char>,
    description: Seq<char>,
    disabled: Seq<Seq<char>>,
) -> Seq<char> {
    (if in_force(disabled, name) {
        "[on] "@
    } else {
        "[off] "@
    }) + if description.len() == 0 {
        name
    } else {
        name + " — "@ + description
    }
}

/// A rule or a skill in one line, with whether it is in force.
fn line_of_switch(name: &str, description: &str, disabled: &Vec<String>) -> (r: String)
    ensures
        r@ == switch_line(name@, description@, views(disabled@)),
{
    let mut line = if agent::holds_text(disabled, name) {
        "[off] ".to_owned()
    } else {
        "[on] ".to_owned()
    };
    let ghost flag = line@;
    if description.is_empty() {
        line.append(name);
    } else {
        line.append(name);
        line.append(" — ");
        line.append(description);
    }
    assert(line@ =~= switch_line(name@, description@, views(disabled@)));
    line
}

/// Whether a list is that of the rules, with which of them are in force.
pub open spec fn rules_list(r: Selector, rules: Seq<RuleView>, disabled: Seq<Seq<char>>) -> bool {
    let all = rules;
    is_list(
        r,
        SelectorKind::Rules,
        "Rules"@,
        Seq::new(
            all.len(),
            |i: int| switch_line(all[i].name, all[i].description, disabled),
        ),
        "Enter: view · Tab: toggle · ↑↓ : move · Esc: close"@,
    )
}

/// The rules, with which of them are in force.
pub fn rules_selector(rules: &Vec<RuleContext>, disabled: &Vec<String>) -> (r: Selector)
    ensures
        rules_list(r, rules_view(rules@), views(disabled@)),
{
    let ghost all = rules_view(rules@);
    let ghost off = views(disabled@);
    let ghost goal = Seq::new(
        all.len(),
        |i: int| switch_line(all[i].name, all[i].description, off),
    );
    let mut items: Vec<String> = Vec::new();
    let mut i: usize = 0;
    assert(views(items@) =~= goal.take(0));
    while i < rules.len()
        invariant
            i <= rules@.len(),
            all == rules_view(rules@),
            off == views(disabled@),
            goal == Seq::new(
                all.len(),
                |i: int| switch_line(all[i].name, all[i].description, off),
            ),
            views(items@) == goal.take(i as int),
        decreases rules@.len() - i,
    {
        assert(all[i as int] == rules@[i as int]@);
        push_item(
            &mut items,
            line_of_switch(rules[i].name.as_str(), rules[i].description.as_str(), disabled),
        );
        assert(goal.take(i + 1) =~= goal.take(i as int).push(goal[i as int]));
        i += 1;
    }
    assert(goal.take(i as int) =~= goal);
    Selector::new(
        SelectorKind::Rules,
        "Rules".to_owned(),
        items,
        "Enter: view · Tab: toggle · ↑↓ : move · Esc: close".to_owned(),
    )
}

/// Whether a list is that of the skills, with which of them are in force.
pub open spec fn skills_list(r: Selector, skills: Seq<SkillView>, disabled: Seq<Seq<char>>) -> bool {
    let all = skills;
    is_list(
        r,
        SelectorKind::Skills,
        "Skills"@,
        Seq::new(
            all.len(),
            |i: int| switch_line(all[i].name, all[i].description, disabled),
        ),
        "Enter: view · Tab: toggle · ↑↓ : move · Esc: close"@,
    )
}

/// The skills, with which of them are in force.
pub fn skills_selector(skills: &Vec<SkillContext>, disabled: &Vec<String>) -> (r: Selector)
    ensures
        skills_list(r, skills_view(skills@), views(disabled@)),
{
    let ghost all = skills_view(skills@);
    let ghost off = views(disabled@);
    let ghost goal = Seq::new(
        all.len(),
        |i: int| switch_line(all[i].name, all[i].description, off),
    );
    let mut items: Vec<String> = Vec::new();
    let mut i: usize = 0;
    assert(views(items@) =~= goal.take(0));
    while i < skills.len()
        invariant
            i <= skills@.len(),
            all == skills_view(skills@),
            off == views(disabled@),
            goal == Seq::new(
                all.len(),
                |i: int| switch_line(all[i].name, all[i].description, off),
            ),
            views(items@) == goal.take(i as int),
        decreases skills@.len() - i,
    {
        assert(all[i as int] == skills@[i as int]@);
        push_item(
            &mut items,
            line_of_switch(skills[i].name.as_str(), skills[i].description.as_str(), disabled),
        );
        assert(goal.take(i + 1) =~= goal.take(i as int).push(goal[i as int]));
        i += 1;
    }
    assert(goal.take(i as int) =~= goal);
    Selector::new(
        SelectorKind::Skills,
        "Skills".to_owned(),
        items,
        "Enter: view · Tab: toggle · ↑↓ : move · Esc: close".to_owned(),
    )
}

/// Whether a list is that of the tools that are approved for good.
pub open spec fn approvals_list(r: Selector, app: App) -> bool {
    is_list(
        r,
        SelectorKind::Approvals,
        "Remembered Approvals"@,
        views(app.approvals@),
        "Enter: forget · ↑↓ : move · Esc: close"@,
    )
}

/// The tools that are approved for good.
pub fn approvals_selector(app: &App) -> (r: Selector)
    ensures
        approvals_list(r, *app),
{
    let approvals = app.approvals();
    let ghost goal = views(approvals@);
    let mut items: Vec<String> = Vec::new();
    let mut i: usize = 0;
    assert(views(items@) =~= goal.take(0));
    while i < approvals.len()
        invariant
            i <= approvals@.len(),
            goal == views(approvals@),
            views(items@) == goal.take(i as int),
        decreases approvals@.len() - i,
    {
        assert(goal[i as int] == approvals@[i as int]@);
        push_item(&mut items, approvals[i].clone());
        assert(goal.take(i + 1) =~= goal.take(i as int).push(goal[i as int]));
        i += 1;
    }
    assert(goal.take(i as int) =~= goal);
    Selector::new(
        SelectorKind::Approvals,
        "Remembered Approvals".to_owned(),
        items,
        "Enter: forget · ↑↓ : move · Esc: close".to_owned(),
    )
}

// ---------------------------------------------------------------------------------------------
// The status panel
// ---------------------------------------------------------------------------------------------
/// A level between none and full: the tenths that are full, and the level as it is written.
#[derive(Debug)]
pub struct Level {
    pub filled: usize,
    pub shown: String,
}

/// The levels that the status panel shows.
#[derive(Debug)]
pub struct Levels {
    pub dopamine: Level,
    pub norepinephrine: Level,
    pub acetylcholine: Level,
    pub serotonin: Level,
    pub valence: Level,
    pub arousal: Level,
    pub uncertainty: Level,
    pub conflict: Level,
    pub confidence: Level,
    pub homeostatic: Level,
    pub curiosity: Level,
    pub salience: Level,
    pub rpe: Level,
    pub last_error: Level,
    pub direction: Level,
    pub context: Level,
}

/// A `StatusRow` with its text as characters.
pub ghost struct RowView {
    pub title: bool,
    pub color: Color,
    pub text: Seq<char>,
}

impl View for StatusRow {
    type V = RowView;

    open spec fn view(&self) -> RowView {
        RowView { title: self.title, color: self.color, text: self.text@ }
    }
}

/// The views of rows.
pub open spec fn status_view(rows: Seq<StatusRow>) -> Seq<RowView> {
    Seq::new(rows.len(), |i: int| rows[i]@)
}

/// The row of a title.
pub open spec fn title_row(text: Seq<char>) -> RowView {
    RowView { title: true, color: Color::Pink, text }
}

/// The row of a signal: its name, a gauge and the level in percent.
pub open spec fn level_row(label: Seq<char>, level: Level, color: Color) -> RowView {
    RowView {
        title: false,
        color,
        text: left_aligned(label, 12) + " "@ + gauge(level.filled as nat, 10) + "  "@ + level.shown@
            + "%"@,
    }
}

/// The row of the direction of the prediction.
pub open spec fn direction_row(level: Level) -> RowView {
    RowView {
        title: false,
        color: Color::Purple,
        text: "direction   "@ + gauge(level.filled as nat, 10) + "  "@ + level.shown@,
    }
}

/// The rows of what the agent has in mind, the first `n`.
pub open spec fn slot_rows(slots: Seq<Seq<char>>, n: int) -> Seq<RowView>
    decreases n,
{
    if n <= 0 {
        Seq::empty()
    } else {
        slot_rows(slots, n - 1).push(
            RowView { title: false, color: Color::Text, text: "  - "@ + prefix_of(slots[n - 1], 60) },
        )
    }
}

/// The row of the context.
pub open spec fn context_usage(level: Level, tokens: usize, limit: usize) -> RowView {
    RowView {
        title: false,
        color: Color::Meta,
        text: "context     "@ + gauge(level.filled as nat, 10) + "  "@ + level.shown@ + "% · "@
            + decimal((tokens / 1000) as nat) + "k/"@ + decimal((limit / 1000) as nat) + "k"@,
    }
}

/// The row of the traces.
pub open spec fn traces_row(count: usize) -> RowView {
    RowView {
        title: false,
        color: Color::Meta,
        text: "trace records: "@ + decimal(count as nat) + " · /trace shows the latest 15"@,
    }
}

/// The rows of the signals.
pub open spec fn signal_rows(levels: Levels) -> Seq<RowView> {
    seq![
        title_row("◆ Modulators"@),
        level_row("DA"@, levels.dopamine, Color::Pink),
        level_row("NE"@, levels.norepinephrine, Color::Purple),
        level_row("ACh"@, levels.acetylcholine, Color::Gold),
        level_row("5-HT"@, levels.serotonin, Color::Green),
        title_row("◆ Emotion & Meta"@),
        level_row("valence"@, levels.valence, Color::Text),
        level_row("arousal"@, levels.arousal, Color::Text),
        level_row("uncertainty"@, levels.uncertainty, Color::Text),
        level_row("conflict"@, levels.conflict, Color::Text),
        level_row("confidence"@, levels.confidence, Color::Text),
        title_row("◆ Drives"@),
        level_row("homeostatic"@, levels.homeostatic, Color::Green),
        level_row("curiosity"@, levels.curiosity, Color::Purple),
        level_row("salience"@, levels.salience, Color::Gold),
        title_row("◆ Prediction & Error"@),
        level_row("RPE"@, levels.rpe, Color::Pink),
        level_row("last error"@, levels.last_error, Color::Red),
        direction_row(levels.direction),
    ]
}

/// The rows of the status panel.
pub open spec fn status_rows(
    levels: Levels,
    slots: Seq<Seq<char>>,
    tokens: usize,
    limit: usize,
    traces: usize,
) -> Seq<RowView> {
    signal_rows(levels) + seq![title_row("◆ Working Memory ("@ + decimal(slots.len()) + ")"@)]
        + slot_rows(slots, slots.len() as int) + seq![
        context_usage(levels.context, tokens, limit),
        traces_row(traces),
    ]
}

/// Adds a row.
fn push_row(rows: &mut Vec<StatusRow>, title: bool, color: Color, text: String)
    ensures
        status_view(final(rows)@) == status_view(old(rows)@).push(
            RowView { title, color, text: text@ },
        ),
{
    let ghost before = status_view(rows@);
    let row = StatusRow { title, color, text };
    rows.push(row);
    assert(status_view(rows@) =~= before.push(row@));
}

/// Adds the row of a title.
fn push_title(rows: &mut Vec<StatusRow>, text: &str)
    ensures
        status_view(final(rows)@) == status_view(old(rows)@).push(title_row(text@)),
{
    push_row(rows, true, Color::Pink, text.to_owned());
}

/// Adds the row of a signal.
fn push_level(rows: &mut Vec<StatusRow>, label: &str, level: &Level, color: Color)
    ensures
        status_view(final(rows)@) == status_view(old(rows)@).push(level_row(label@, *level, color)),
{
    let mut line = text::glue3(
        render::pad_right(label, 12).as_str(),
        " ",
        panels::draw_gauge(level.filled, 10).as_str(),
    );
    line.append("  ");
    line.append(level.shown.as_str());
    line.append("%");
    push_row(rows, false, color, line);
}

/// The rows of the signals.
fn draw_signals(levels: &Levels) -> (r: Vec<StatusRow>)
    ensures
        status_view(r@) == signal_rows(*levels),
{
    let mut rows: Vec<StatusRow> = Vec::new();
    push_title(&mut rows, "◆ Modulators");
    push_level(&mut rows, "DA", &levels.dopamine, Color::Pink);
    push_level(&mut rows, "NE", &levels.norepinephrine, Color::Purple);
    push_level(&mut rows, "ACh", &levels.acetylcholine, Color::Gold);
    push_level(&mut rows, "5-HT", &levels.serotonin, Color::Green);
    push_title(&mut rows, "◆ Emotion & Meta");
    push_level(&mut rows, "valence", &levels.valence, Color::Text);
    push_level(&mut rows, "arousal", &levels.arousal, Color::Text);
    push_level(&mut rows, "uncertainty", &levels.uncertainty, Color::Text);
    push_level(&mut rows, "conflict", &levels.conflict, Color::Text);
    push_level(&mut rows, "confidence", &levels.confidence, Color::Text);
    push_title(&mut rows, "◆ Drives");
    push_level(&mut rows, "homeostatic", &levels.homeostatic, Color::Green);
    push_level(&mut rows, "curiosity", &levels.curiosity, Color::Purple);
    push_level(&mut rows, "salience", &levels.salience, Color::Gold);
    push_title(&mut rows, "◆ Prediction & Error");
    push_level(&mut rows, "RPE", &levels.rpe, Color::Pink);
    push_level(&mut rows, "last error", &levels.last_error, Color::Red);
    let direction = panels::draw_gauge(levels.direction.filled, 10);
    let mut line = text::glue3("direction   ", direction.as_str(), "  ");
    line.append(levels.direction.shown.as_str());
    push_row(&mut rows, false, Color::Purple, line);
    assert(status_view(rows@) =~= signal_rows(*levels));
    rows
}

/// The rows of the status panel.
pub fn status_lines(ctx: &RenderCtx, ui: &UiState, levels: &Levels) -> (r: Vec<StatusRow>)
    ensures
        status_view(r@) == status_rows(
            *levels,
            views(ui.cognitive.wm_slots@),
            ui.total_tokens,
            ctx.context_limit,
            ctx.traces_len,
        ),
{
    let mut rows = draw_signals(levels);
    let slots = &ui.cognitive.wm_slots;
    let ghost all = views(slots@);
    let number = text::number_text(slots.len() as u64);
    push_title(&mut rows, text::glue3("◆ Working Memory (", number.as_str(), ")").as_str());
    let ghost head = status_view(rows@);
    let mut i: usize = 0;
    assert(head + slot_rows(all, 0) =~= head);
    while i < slots.len()
        invariant
            i <= slots@.len(),
            all == views(slots@),
            status_view(rows@) == head + slot_rows(all, i as int),
        decreases slots@.len() - i,
    {
        assert(all[i as int] == slots@[i as int]@);
        let preview = text::first_chars(slots[i].as_str(), 60);
        push_row(&mut rows, false, Color::Text, text::glue("  - ", preview.as_str()));
        assert(status_view(rows@) =~= head + slot_rows(all, i + 1));
        i += 1;
    }
    let gauge = panels::draw_gauge(levels.context.filled, 10);
    let mut line = text::glue3("context     ", gauge.as_str(), "  ");
    line.append(levels.context.shown.as_str());
    line.append("% · ");
    line.append(text::number_text((ui.total_tokens / 1000) as u64).as_str());
    line.append("k/");
    line.append(text::number_text((ctx.context_limit / 1000) as u64).as_str());
    line.append("k");
    push_row(&mut rows, false, Color::Meta, line);
    let count = text::number_text(ctx.traces_len as u64);
    push_row(
        &mut rows,
        false,
        Color::Meta,
        text::glue3("trace records: ", count.as_str(), " · /trace shows the latest 15"),
    );
    assert(all.len() == slots@.len());
    assert(status_view(rows@) =~= status_rows(
        *levels,
        all,
        ui.total_tokens,
        ctx.context_limit,
        ctx.traces_len,
    ));
    rows
}

} // verus!
