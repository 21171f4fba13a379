//! Tasks that run a tool later: once, again and again, or when a condition comes true.
//!
//! Moments are nanoseconds on the caller's clock.

use crate::encoding;
use crate::encoding::lossy;
use crate::json;
use crate::json::{json_printed, Json, JsonView};
use crate::number::Duration;
use crate::text;
use crate::text::{contains, decimal};
use vstd::prelude::*;

verus! {

// ---------------------------------------------------------------------------------------------
// Tasks
// ---------------------------------------------------------------------------------------------
/// What a monitor waits for.
#[derive(Debug, Clone, PartialEq)]
pub enum Condition {
    OutputContains { cmd: String, contains: String },
    ExitZero { cmd: String },
    FileExists { path: String },
}

/// A `Condition` with its texts as characters.
pub ghost enum ConditionView {
    OutputContains { cmd: Seq<char>, contains: Seq<char> },
    ExitZero { cmd: Seq<char> },
    FileExists { path: Seq<char> },
}

impl View for Condition {
    type V = ConditionView;

    open spec fn view(&self) -> ConditionView {
        match self {
            Condition::OutputContains { cmd, contains } => ConditionView::OutputContains {
                cmd: cmd@,
                contains: contains@,
            },
            Condition::ExitZero { cmd } => ConditionView::ExitZero { cmd: cmd@ },
            Condition::FileExists { path } => ConditionView::FileExists { path: path@ },
        }
    }
}

/// Whether a condition holds. `output` is what its command printed, if it ended well; `exists` says
/// whether its file is there.
pub open spec fn condition_holds(
    condition: ConditionView,
    output: Option<Seq<char>>,
    exists: bool,
) -> bool {
    match condition {
        ConditionView::OutputContains { contains: wanted, .. } => match output {
            Some(output) => contains(output, wanted),
            None => false,
        },
        ConditionView::ExitZero { .. } => output is Some,
        ConditionView::FileExists { .. } => exists,
    }
}

impl Condition {
    /// Whether the condition holds. `output` is what its command printed, if it ended well; `exists`
    /// says whether its file is there.
    pub fn is_met(&self, output: Option<&str>, exists: bool) -> (r: bool)
        ensures
            r == condition_holds(
                self@,
                match output {
                    Some(output) => Some(output@),
                    None => None,
                },
                exists,
            ),
    {
        match self {
            Condition::OutputContains { contains, .. } => match output {
                Some(output) => text::has(text::chars_of(output).as_slice(), contains.as_str()),
                None => false,
            },
            Condition::ExitZero { .. } => output.is_some(),
            Condition::FileExists { .. } => exists,
        }
    }

    /// Whether the condition holds. `output` are the bytes that its command printed, if it ended well;
    /// `exists` says whether its file is there.
    pub fn holds(&self, output: Option<&Vec<u8>>, exists: bool) -> (r: bool)
        ensures
            r == condition_holds(
                self@,
                match output {
                    Some(output) => Some(lossy(output@)),
                    None => None,
                },
                exists,
            ),
    {
        match output {
            Some(output) => {
                let printed = encoding::from_utf8_lossy(output.as_slice());
                self.is_met(Some(printed.as_str()), exists)
            },
            None => self.is_met(None, exists),
        }
    }

    /// A copy of the condition.
    pub fn duplicate(&self) -> (r: Condition)
        ensures
            r@ == self@,
    {
        match self {
            Condition::OutputContains { cmd, contains } => Condition::OutputContains {
                cmd: cmd.clone(),
                contains: contains.clone(),
            },
            Condition::ExitZero { cmd } => Condition::ExitZero { cmd: cmd.clone() },
            Condition::FileExists { path } => Condition::FileExists { path: path.clone() },
        }
    }
}

/// When a task runs.
#[derive(Debug)]
pub enum TaskKind {
    /// Once, at a moment.
    Delay { due: u128 },
    /// Again and again, the next time at a moment.
    Schedule { interval: Duration, next: u128 },
    /// Once a condition holds. It is checked now and then, until a moment; no check begins while one
    /// is under way.
    Monitor {
        condition: Condition,
        check_every: Duration,
        deadline: Option<u128>,
        last_check: Option<u128>,
        checking: bool,
    },
}

/// A `TaskKind` with its texts as characters.
pub ghost enum KindView {
    Delay { due: u128 },
    Schedule { interval: Duration, next: u128 },
    Monitor {
        condition: ConditionView,
        check_every: Duration,
        deadline: Option<u128>,
        last_check: Option<u128>,
        checking: bool,
    },
}

impl View for TaskKind {
    type V = KindView;

    open spec fn view(&self) -> KindView {
        match self {
            TaskKind::Delay { due } => KindView::Delay { due: *due },
            TaskKind::Schedule { interval, next } => KindView::Schedule {
                interval: *interval,
                next: *next,
            },
            TaskKind::Monitor { condition, check_every, deadline, last_check, checking } =>
                KindView::Monitor {
                condition: condition@,
                check_every: *check_every,
                deadline: *deadline,
                last_check: *last_check,
                checking: *checking,
            },
        }
    }
}

/// A tool and what it is called with.
#[derive(Debug)]
pub struct TaskAction {
    pub tool: String,
    pub arguments: Json,
}

/// A `TaskAction` with its texts as characters.
pub ghost struct TaskActionView {
    pub tool: Seq<char>,
    pub arguments: JsonView,
}

impl View for TaskAction {
    type V = TaskActionView;

    open spec fn view(&self) -> TaskActionView {
        TaskActionView { tool: self.tool@, arguments: self.arguments@ }
    }
}

impl TaskAction {
    /// A copy of the action.
    pub fn duplicate(&self) -> (r: TaskAction)
        ensures
            r@ == self@,
    {
        TaskAction { tool: self.tool.clone(), arguments: self.arguments.duplicate() }
    }
}

/// A task with its number.
#[derive(Debug)]
pub struct ScheduledTask {
    pub id: u64,
    pub kind: TaskKind,
    pub action: TaskAction,
}

/// A `ScheduledTask` with its texts as characters.
pub ghost struct TaskView {
    pub id: u64,
    pub kind: KindView,
    pub action: TaskActionView,
}

impl View for ScheduledTask {
    type V = TaskView;

    open spec fn view(&self) -> TaskView {
        TaskView { id: self.id, kind: self.kind@, action: self.action@ }
    }
}

/// The views of tasks.
pub open spec fn tasks_view(tasks: Seq<ScheduledTask>) -> Seq<TaskView> {
    Seq::new(tasks.len(), |i: int| tasks[i]@)
}

/// A condition in words.
pub open spec fn condition_text(condition: ConditionView) -> Seq<char> {
    match condition {
        ConditionView::OutputContains { cmd, contains } => "output of \""@ + cmd
            + "\" contains \""@ + contains + "\""@,
        ConditionView::ExitZero { cmd } => "\""@ + cmd + "\" exits 0"@,
        ConditionView::FileExists { path } => "\""@ + path + "\" exists"@,
    }
}

/// When a task runs, in words.
pub open spec fn kind_text(kind: KindView) -> Seq<char> {
    match kind {
        KindView::Delay { .. } => "delay"@,
        KindView::Schedule { interval, .. } => "every "@ + decimal(
            whole_secs(interval) as nat,
        ) + "s"@,
        KindView::Monitor { condition, .. } => "monitor: "@ + condition_text(condition),
    }
}

/// A task in one line.
pub open spec fn task_text(task: TaskView) -> Seq<char> {
    "#"@ + decimal(task.id as nat) + " "@ + kind_text(task.kind) + " -> "@ + task.action.tool
        + "("@ + json_printed(task.action.arguments) + ")"@
}

/// The whole seconds of a length of time, as far as 64 bits count them.
pub open spec fn whole_secs(interval: Duration) -> u64 {
    if interval.nanos / 1_000_000_000 > u64::MAX {
        u64::MAX
    } else {
        (interval.nanos / 1_000_000_000) as u64
    }
}

impl ScheduledTask {
    /// The task in one line.
    pub fn describe(&self) -> (r: String)
        ensures
            r@ == task_text(self@),
    {
        let kind = match &self.kind {
            TaskKind::Delay { .. } => "delay".to_owned(),
            TaskKind::Schedule { interval, .. } => {
                let nanos: u128 = interval.nanos / 1_000_000_000;
                let secs: u64 = if nanos > u64::MAX as u128 {
                    u64::MAX
                } else {
                    nanos as u64
                };
                text::glue3("every ", text::number_text(secs).as_str(), "s")
            },
            TaskKind::Monitor { condition, .. } => {
                let shown = match condition {
                    Condition::OutputContains { cmd, contains } => {
                        let mut s = text::glue3("output of \"", cmd.as_str(), "\" contains \"");
                        s.append(contains.as_str());
                        s.append("\"");
                        s
                    },
                    Condition::ExitZero { cmd } => text::glue3("\"", cmd.as_str(), "\" exits 0"),
                    Condition::FileExists { path } => text::glue3("\"", path.as_str(), "\" exists"),
                };
                text::glue("monitor: ", shown.as_str())
            },
        };
        let mut out = text::glue3("#", text::number_text(self.id).as_str(), " ");
        out.append(kind.as_str());
        out.append(" -> ");
        out.append(self.action.tool.as_str());
        out.append("(");
        out.append(json::print_json(&self.action.arguments).as_str());
        out.append(")");
        out
    }
}

// ---------------------------------------------------------------------------------------------
// The scheduler
// ---------------------------------------------------------------------------------------------
/// What a scheduler asks for: to run a tool, to report that a monitor gave up, or to check a
/// condition.
#[derive(Debug)]
pub enum Fired {
    Execute { id: u64, action: TaskAction, label: String },
    MonitorTimeout { id: u64 },
    Check { id: u64, condition: Condition },
}

/// A `Fired` with its texts as characters.
pub ghost enum FiredView {
    Execute { id: u64, action: TaskActionView, label: Seq<char> },
    MonitorTimeout { id: u64 },
    Check { id: u64, condition: ConditionView },
}

impl View for Fired {
    type V = FiredView;

    open spec fn view(&self) -> FiredView {
        match self {
            Fired::Execute { id, action, label } => FiredView::Execute {
                id: *id,
                action: action@,
                label: label@,
            },
            Fired::MonitorTimeout { id } => FiredView::MonitorTimeout { id: *id },
            Fired::Check { id, condition } => FiredView::Check {
                id: *id,
                condition: condition@,
            },
        }
    }
}

impl FiredView {
    /// The task that asks.
    pub open spec fn task(self) -> u64 {
        match self {
            FiredView::Execute { id, .. } => id,
            FiredView::MonitorTimeout { id } => id,
            FiredView::Check { id, .. } => id,
        }
    }
}

/// The views of what a scheduler asks for.
pub open spec fn fired_view(fired: Seq<Fired>) -> Seq<FiredView> {
    Seq::new(fired.len(), |i: int| fired[i]@)
}

/// A moment some time after another.
pub open spec fn later(at: u128, by: Duration) -> u128 {
    if at + by.nanos > u128::MAX {
        u128::MAX
    } else {
        (at + by.nanos) as u128
    }
}

/// What a task asks for at a moment, if anything.
pub open spec fn asks(task: TaskView, now: u128) -> Option<FiredView> {
    match task.kind {
        KindView::Delay { due } => if now >= due {
            Some(FiredView::Execute { id: task.id, action: task.action, label: "delay"@ })
        } else {
            None
        },
        KindView::Schedule { next, .. } => if now >= next {
            Some(FiredView::Execute { id: task.id, action: task.action, label: "schedule tick"@ })
        } else {
            None
        },
        KindView::Monitor { condition, check_every, deadline, last_check, checking } => if (deadline
            matches Some(d) && now >= d) {
            Some(FiredView::MonitorTimeout { id: task.id })
        } else if !checking && (last_check matches Some(last) ==> now >= later(
            last,
            check_every,
        )) {
            Some(FiredView::Check { id: task.id, condition })
        } else {
            None
        },
    }
}

/// The task after it asked for something at a moment: one that has run or given up is gone.
pub open spec fn after_asking(task: TaskView, now: u128) -> Option<TaskView> {
    match task.kind {
        KindView::Delay { .. } => None,
        KindView::Schedule { interval, .. } => Some(
            TaskView {
                kind: KindView::Schedule { interval, next: later(now, interval) },
                ..task
            },
        ),
        KindView::Monitor { condition, check_every, deadline, last_check, .. } => if (deadline
            matches Some(d) && now >= d) {
            None
        } else {
            Some(
                TaskView {
                    kind: KindView::Monitor {
                        condition,
                        check_every,
                        deadline,
                        last_check,
                        checking: true,
                    },
                    ..task
                },
            )
        },
    }
}

/// The task after a moment.
pub open spec fn kept(task: TaskView, now: u128) -> Option<TaskView> {
    if asks(task, now) is Some {
        after_asking(task, now)
    } else {
        Some(task)
    }
}

/// A sequence with one more item, if there is one.
pub open spec fn and_maybe<A>(items: Seq<A>, item: Option<A>) -> Seq<A> {
    match item {
        Some(item) => items.push(item),
        None => items,
    }
}

/// What the first `n` tasks ask for at a moment.
pub open spec fn all_asked(tasks: Seq<TaskView>, now: u128, n: int) -> Seq<FiredView>
    decreases n,
{
    if n <= 0 {
        Seq::empty()
    } else {
        and_maybe(all_asked(tasks, now, n - 1), asks(tasks[n - 1], now))
    }
}

/// The first `n` tasks after a moment.
pub open spec fn all_kept(tasks: Seq<TaskView>, now: u128, n: int) -> Seq<TaskView>
    decreases n,
{
    if n <= 0 {
        Seq::empty()
    } else {
        and_maybe(all_kept(tasks, now, n - 1), kept(tasks[n - 1], now))
    }
}

/// The tasks without those with the number `id`.
pub open spec fn without_task(tasks: Seq<TaskView>, id: u64) -> Seq<TaskView>
    decreases tasks.len(),
{
    if tasks.len() == 0 {
        Seq::empty()
    } else if tasks.last().id == id {
        without_task(tasks.drop_last(), id)
    } else {
        without_task(tasks.drop_last(), id).push(tasks.last())
    }
}

/// The position of the first task with the number `id`, from `i` on.
pub open spec fn task_from(tasks: Seq<TaskView>, id: u64, i: int) -> Option<int>
    decreases tasks.len() - i,
{
    if i < 0 || i >= tasks.len() {
        None
    } else if tasks[i].id == id {
        Some(i)
    } else {
        task_from(tasks, id, i + 1)
    }
}

/// Whether a task is a monitor.
pub open spec fn is_monitor(task: TaskView) -> bool {
    task.kind is Monitor
}

/// A monitor after a check that failed at a moment.
pub open spec fn checked(task: TaskView, now: u128) -> TaskView {
    match task.kind {
        KindView::Monitor { condition, check_every, deadline, .. } => TaskView {
            kind: KindView::Monitor {
                condition,
                check_every,
                deadline,
                last_check: Some(now),
                checking: false,
            },
            ..task
        },
        _ => task,
    }
}

/// Whether it was taken in that the condition of the monitor `id` holds, or that it does not. If it
/// does, the task runs and is gone; if not, it waits until the next check.
pub open spec fn check_taken(
    before: Seq<TaskView>,
    after: Seq<TaskView>,
    id: u64,
    holds: bool,
    now: u128,
    fired: Seq<FiredView>,
) -> bool {
    match task_from(before, id, 0) {
        Some(i) => {
            let task = before[i];
            if !is_monitor(task) {
                fired.len() == 0 && after == before
            } else if holds {
                &&& fired == seq![
                    FiredView::Execute { id, action: task.action, label: "monitor matched"@ },
                ]
                &&& after == without_task(before, id)
            } else {
                &&& fired.len() == 0
                &&& after == before.update(i, checked(task, now))
            }
        },
        None => fired.len() == 0 && after == before,
    }
}

/// Tasks in the order in which they were registered.
#[derive(Debug)]
pub struct Scheduler {
    tasks: Vec<ScheduledTask>,
    next_id: u64,
}

impl Scheduler {
    /// The tasks.
    pub closed spec fn all(self) -> Seq<TaskView> {
        tasks_view(self.tasks@)
    }

    /// The number of the next task.
    pub closed spec fn next(self) -> u64 {
        self.next_id
    }

    /// Every task has a number of its own, below that of the next one.
    pub open spec fn wf(self) -> bool {
        &&& forall|i: int| 0 <= i < self.all().len() ==> (#[trigger] self.all()[i]).id < self.next()
        &&& forall|i: int, j: int|
            0 <= i < j < self.all().len() ==> (#[trigger] self.all()[i]).id < (
            #[trigger] self.all()[j]).id
    }

    /// A scheduler without tasks.
    pub fn new() -> (r: Self)
        ensures
            r.all() == Seq::<TaskView>::empty(),
            r.next() == 1,
            r.wf(),
    {
        let r = Scheduler { tasks: Vec::new(), next_id: 1 };
        assert(r.all() =~= Seq::empty());
        r
    }

    /// Adds a task and gives its number.
    pub fn register(&mut self, kind: TaskKind, action: TaskAction) -> (r: u64)
        requires
            old(self).next() < u64::MAX,
        ensures
            r == old(self).next(),
            final(self).next() == r + 1,
            final(self).all() == old(self).all().push(
                TaskView { id: r, kind: kind@, action: action@ },
            ),
            old(self).wf() ==> final(self).wf(),
    {
        let id: u64 = self.next_id;
        let ghost before = self.all();
        self.next_id = self.next_id + 1;
        self.tasks.push(ScheduledTask { id, kind, action });
        assert(self.all() =~= before.push(TaskView { id, kind: kind@, action: action@ }));
        id
    }

    /// Removes the task with the number `id`, and says whether there was one.
    pub fn cancel(&mut self, id: u64) -> (r: bool)
        ensures
            final(self).all() == without_task(old(self).all(), id),
            final(self).next() == old(self).next(),
            r == (final(self).all().len() != old(self).all().len()),
            r == (task_from(old(self).all(), id, 0) is Some),
            old(self).wf() ==> final(self).wf(),
    {
        let ghost all = self.all();
        let before: usize = self.tasks.len();
        self.drop_task(id);
        proof {
            without_keeps_order(all, id);
            without_finds(all, id, all.len() as int);
            found_is_first(all, id, 0);
        }
        self.tasks.len() != before
    }

    /// Removes the tasks with the number `id`.
    fn drop_task(&mut self, id: u64)
        ensures
            final(self).all() == without_task(old(self).all(), id),
            final(self).next() == old(self).next(),
    {
        let ghost all = self.all();
        let total: usize = self.tasks.len();
        let mut i: usize = 0;
        let mut n: usize = 0;
        assert(self.all() =~= without_task(all.take(0), id) + all.skip(0));
        while n < total
            invariant
                i <= n <= total,
                total == all.len(),
                i == without_task(all.take(n as int), id).len(),
                self.all() == without_task(all.take(n as int), id) + all.skip(n as int),
                self.next() == old(self).next(),
            decreases total - n,
        {
            let ghost done = without_task(all.take(n as int), id);
            let ghost before = self.tasks@;
            let ghost whole = self.all();
            proof {
                assert(all.take(n + 1).drop_last() =~= all.take(n as int));
                assert(all.take(n + 1).last() == all[n as int]);
                assert(whole.len() == self.tasks@.len());
                assert(whole[i as int] == self.tasks@[i as int]@);
                assert(whole[i as int] == all[n as int]);
            }
            if self.tasks[i].id == id {
                let _ = self.tasks.remove(i);
                proof {
                    assert(self.all() =~= whole.remove(i as int));
                    assert(self.all() =~= done + all.skip(n + 1));
                }
            } else {
                assert(done + all.skip(n as int) =~= done.push(all[n as int]) + all.skip(n + 1));
                i += 1;
            }
            n += 1;
        }
        assert(all.take(n as int) =~= all);
        assert(self.all() =~= without_task(all, id));
    }

    /// The tasks.
    pub fn tasks(&self) -> (r: &[ScheduledTask])
        ensures
            tasks_view(r@) == self.all(),
    {
        self.tasks.as_slice()
    }

    /// What the tasks ask for at a moment.
    pub fn poll(&mut self, now: u128) -> (r: Vec<Fired>)
        ensures
            fired_view(r@) == all_asked(old(self).all(), now, old(self).all().len() as int),
            final(self).all() == all_kept(old(self).all(), now, old(self).all().len() as int),
            final(self).next() == old(self).next(),
            old(self).wf() ==> final(self).wf(),
    {
        let ghost all = self.all();
        let total: usize = self.tasks.len();
        let mut fired: Vec<Fired> = Vec::new();
        let mut i: usize = 0;
        let mut n: usize = 0;
        proof {
            assert(fired_view(fired@) =~= Seq::empty());
            assert(self.all() =~= all_kept(all, now, 0) + all.skip(0));
        }
        while n < total
            invariant
                i <= n <= total,
                total == all.len(),
                i == all_kept(all, now, n as int).len(),
                self.all() == all_kept(all, now, n as int) + all.skip(n as int),
                fired_view(fired@) == all_asked(all, now, n as int),
                self.next() == old(self).next(),
            decreases total - n,
        {
            let ghost done = all_kept(all, now, n as int);
            let ghost whole = self.all();
            proof {
                assert(whole.len() == self.tasks@.len());
                assert(whole[i as int] == self.tasks@[i as int]@);
                assert(whole[i as int] == all[n as int]);
            }
            let (asked, gone) = poll_task(&mut self.tasks[i], now);
            let ghost task = self.tasks@[i as int]@;
            assert(self.all() =~= whole.update(i as int, task));
            if let Some(asked) = asked {
                let ghost before = fired_view(fired@);
                fired.push(asked);
                assert(fired_view(fired@) =~= before.push(asked@));
            }
            if gone {
                let ghost changed = self.all();
                let _ = self.tasks.remove(i);
                proof {
                    assert(self.all() =~= changed.remove(i as int));
                    assert(self.all() =~= done + all.skip(n + 1));
                }
            } else {
                assert(self.all() =~= done.push(task) + all.skip(n + 1));
                i += 1;
            }
            n += 1;
        }
        proof {
            assert(self.all() =~= all_kept(all, now, total as int));
            polling_keeps_order(all, now, total as int, self.next());
        }
        fired
    }

    /// Takes in whether the condition of the monitor `id` holds. If it does, the task runs and is
    /// gone; if not, it waits until the next check.
    pub fn check_result(&mut self, id: u64, holds: bool, now: u128) -> (r: Vec<Fired>)
        ensures
            final(self).next() == old(self).next(),
            old(self).wf() ==> final(self).wf(),
            check_taken(old(self).all(), final(self).all(), id, holds, now, fired_view(r@)),
    {
        let ghost all = self.all();
        let mut fired: Vec<Fired> = Vec::new();
        let total: usize = self.tasks.len();
        let mut i: usize = 0;
        while i < total && self.tasks[i].id != id
            invariant
                i <= total,
                total == self.tasks@.len(),
                all == self.all(),
                *self == *old(self),
                task_from(all, id, 0) == task_from(all, id, i as int),
            decreases total - i,
        {
            assert(all[i as int] == self.tasks@[i as int]@);
            i += 1;
        }
        if i == total {
            return fired;
        }
        proof {
            assert(all[i as int] == self.tasks@[i as int]@);
            assert(task_from(all, id, 0) == Some(i as int));
        }
        let mut matched = false;
        if let TaskKind::Monitor { last_check, checking, .. } = &mut self.tasks[i].kind {
            *checking = false;
            if holds {
                matched = true;
            } else {
                *last_check = Some(now);
            }
        }
        let ghost changed = self.all();
        assert(changed =~= all.update(i as int, changed[i as int]));
        assert(changed[i as int] == self.tasks@[i as int]@);
        if matched {
            let action = self.tasks[i].action.duplicate();
            self.drop_task(id);
            let found = Fired::Execute { id, action, label: "monitor matched".to_owned() };
            fired.push(found);
            proof {
                same_without(all, changed, id);
                assert(fired_view(fired@) =~= seq![found@]);
                without_keeps_order(all, id);
            }
        } else {
            assert(self.all() =~= if is_monitor(all[i as int]) {
                all.update(i as int, checked(all[i as int], now))
            } else {
                all
            });
        }
        fired
    }
}

impl Default for Scheduler {
    fn default() -> (r: Self)
        ensures
            r.all() == Seq::<TaskView>::empty(),
            r.next() == 1,
            r.wf(),
    {
        Self::new()
    }
}

/// What a task asks for at a moment, and whether it is gone then; otherwise it is changed to what it
/// is after the moment.
fn poll_task(task: &mut ScheduledTask, now: u128) -> (r: (Option<Fired>, bool))
    ensures
        match r.0 {
            Some(fired) => asks(old(task)@, now) == Some(fired@),
            None => asks(old(task)@, now) is None,
        },
        r.1 == (kept(old(task)@, now) is None),
        !r.1 ==> kept(old(task)@, now) == Some(final(task)@),
{
    let id: u64 = task.id;
    match &mut task.kind {
        TaskKind::Delay { due } => {
            if now >= *due {
                let action = task.action.duplicate();
                return (Some(Fired::Execute { id, action, label: "delay".to_owned() }), true);
            }
        },
        TaskKind::Schedule { interval, next } => {
            if now >= *next {
                *next = now.saturating_add(interval.nanos);
                let action = task.action.duplicate();
                return (
                    Some(Fired::Execute { id, action, label: "schedule tick".to_owned() }),
                    false,
                );
            }
        },
        TaskKind::Monitor { condition, check_every, deadline, last_check, checking } => {
            let late = match deadline {
                Some(d) => now >= *d,
                None => false,
            };
            if late {
                return (Some(Fired::MonitorTimeout { id }), true);
            }
            if !*checking {
                let due = match last_check {
                    Some(last) => now >= last.saturating_add(check_every.nanos),
                    None => true,
                };
                if due {
                    *checking = true;
                    let condition = condition.duplicate();
                    return (Some(Fired::Check { id, condition }), false);
                }
            }
        },
    }
    (None, false)
}

// ---------------------------------------------------------------------------------------------
// Laws
// ---------------------------------------------------------------------------------------------
/// Whether the numbers of tasks grow.
pub open spec fn in_order(tasks: Seq<TaskView>) -> bool {
    forall|i: int, j: int|
        0 <= i < j < tasks.len() ==> (#[trigger] tasks[i]).id < (#[trigger] tasks[j]).id
}

proof fn without_keeps_order(tasks: Seq<TaskView>, id: u64)
    ensures
        in_order(tasks) ==> in_order(without_task(tasks, id)),
        forall|i: int|
            0 <= i < without_task(tasks, id).len() ==> tasks.contains(
                #[trigger] without_task(tasks, id)[i],
            ),
    decreases tasks.len(),
{
    if tasks.len() > 0 {
        let front = tasks.drop_last();
        without_keeps_order(front, id);
        let before = without_task(front, id);
        assert forall|i: int| 0 <= i < without_task(tasks, id).len() implies tasks.contains(
            #[trigger] without_task(tasks, id)[i],
        ) by {
            if i < before.len() {
                assert(front.contains(before[i]));
                let k = choose|k: int| 0 <= k < front.len() && front[k] == before[i];
                assert(tasks[k] == before[i]);
            } else {
                assert(tasks[tasks.len() - 1] == without_task(tasks, id)[i]);
            }
        }
        if in_order(tasks) {
            assert(in_order(front));
            assert forall|i: int| 0 <= i < before.len() implies (#[trigger] before[i]).id
                < tasks.last().id by {
                assert(front.contains(before[i]));
                let k = choose|k: int| 0 <= k < front.len() && front[k] == before[i];
                assert(tasks[k].id < tasks[tasks.len() - 1].id);
            }
        }
    }
}

proof fn without_finds(tasks: Seq<TaskView>, id: u64, n: int)
    requires
        n == tasks.len(),
    ensures
        without_task(tasks, id).len() <= tasks.len(),
        without_task(tasks, id).len() == tasks.len() <==> (forall|i: int|
            0 <= i < tasks.len() ==> (#[trigger] tasks[i]).id != id),
    decreases n,
{
    if tasks.len() > 0 {
        let front = tasks.drop_last();
        without_finds(front, id, n - 1);
        if without_task(tasks, id).len() == tasks.len() {
            assert forall|i: int| 0 <= i < tasks.len() implies (#[trigger] tasks[i]).id != id by {
                if i < front.len() {
                    assert(front[i].id != id);
                }
            }
        }
        if forall|i: int| 0 <= i < tasks.len() ==> (#[trigger] tasks[i]).id != id {
            assert(tasks[n - 1].id != id);
            assert forall|i: int| 0 <= i < front.len() implies (#[trigger] front[i]).id != id by {
                assert(tasks[i].id != id);
            }
        }
    }
}

proof fn found_is_first(tasks: Seq<TaskView>, id: u64, i: int)
    requires
        0 <= i <= tasks.len(),
    ensures
        task_from(tasks, id, i) is Some <==> (exists|k: int|
            i <= k < tasks.len() && (#[trigger] tasks[k]).id == id),
        task_from(tasks, id, i) matches Some(k) ==> i <= k < tasks.len() && tasks[k].id == id,
    decreases tasks.len() - i,
{
    if i < tasks.len() && tasks[i].id != id {
        found_is_first(tasks, id, i + 1);
    }
}

/// Removing a task does not depend on how far its own state has come.
proof fn same_without(a: Seq<TaskView>, b: Seq<TaskView>, id: u64)
    requires
        a.len() == b.len(),
        forall|i: int|
            0 <= i < a.len() ==> (#[trigger] a[i]).id == b[i].id && (a[i].id != id ==> a[i] == b[i]),
    ensures
        without_task(a, id) == without_task(b, id),
    decreases a.len(),
{
    if a.len() > 0 {
        assert(a[a.len() - 1].id == b[b.len() - 1].id);
        assert forall|i: int| 0 <= i < a.drop_last().len() implies (#[trigger] a.drop_last()[i]).id
            == b.drop_last()[i].id && (a.drop_last()[i].id != id ==> a.drop_last()[i]
            == b.drop_last()[i]) by {
            assert(a[i].id == b[i].id);
        }
        same_without(a.drop_last(), b.drop_last(), id);
    }
}

/// Whether the numbers of tasks are below `top`.
pub open spec fn below(tasks: Seq<TaskView>, top: u64) -> bool {
    forall|i: int| 0 <= i < tasks.len() ==> (#[trigger] tasks[i]).id < top
}

proof fn polling_keeps_order(tasks: Seq<TaskView>, now: u128, n: int, top: u64)
    requires
        0 <= n <= tasks.len(),
    ensures
        all_kept(tasks, now, n).len() <= n,
        forall|i: int|
            0 <= i < all_kept(tasks, now, n).len() ==> exists|k: int|
                0 <= k < n && kept(#[trigger] tasks[k], now) == Some(
                    #[trigger] all_kept(tasks, now, n)[i],
                ),
        in_order(tasks) ==> in_order(all_kept(tasks, now, n)),
        below(tasks, top) ==> below(all_kept(tasks, now, n), top),
    decreases n,
{
    if n > 0 {
        polling_keeps_order(tasks, now, n - 1, top);
        let before = all_kept(tasks, now, n - 1);
        let here = all_kept(tasks, now, n);
        assert forall|i: int| 0 <= i < here.len() implies exists|k: int|
            0 <= k < n && kept(#[trigger] tasks[k], now) == Some(#[trigger] here[i]) by {
            if i < before.len() {
                assert(here[i] == before[i]);
                let k = choose|k: int|
                    0 <= k < n - 1 && kept(#[trigger] tasks[k], now) == Some(before[i]);
                assert(kept(tasks[k], now) == Some(here[i]));
            } else {
                assert(kept(tasks[n - 1], now) == Some(here[i]));
            }
        }
        if in_order(tasks) {
            assert forall|i: int, j: int| 0 <= i < j < here.len() implies (#[trigger] here[i]).id < (
            #[trigger] here[j]).id by {
                if j < before.len() {
                    assert(here[i] == before[i] && here[j] == before[j]);
                } else {
                    assert(here[i] == before[i]);
                    let k = choose|k: int|
                        0 <= k < n - 1 && kept(#[trigger] tasks[k], now) == Some(before[i]);
                    assert(tasks[k].id < tasks[n - 1].id);
                }
            }
        }
        if below(tasks, top) {
            assert forall|i: int| 0 <= i < here.len() implies (#[trigger] here[i]).id < top by {
                let k = choose|k: int|
                    0 <= k < n && kept(#[trigger] tasks[k], now) == Some(here[i]);
                assert(tasks[k].id < top);
            }
        }
    }
}

/// A task that was cancelled asks for nothing any more.
pub proof fn cancelled_tasks_are_silent(tasks: Seq<TaskView>, id: u64, now: u128, n: int)
    requires
        0 <= n <= without_task(tasks, id).len(),
    ensures
        forall|i: int|
            0 <= i < all_asked(without_task(tasks, id), now, n).len() ==> (#[trigger] all_asked(
                without_task(tasks, id),
                now,
                n,
            )[i]).task() != id,
    decreases n,
{
    if n > 0 {
        cancelled_tasks_are_silent(tasks, id, now, n - 1);
        gone_after_cancel(tasks, id);
        let left = without_task(tasks, id);
        let before = all_asked(left, now, n - 1);
        assert(left[n - 1].id != id);
        assert forall|i: int| 0 <= i < all_asked(left, now, n).len() implies (
        #[trigger] all_asked(left, now, n)[i]).task() != id by {
            if i < before.len() {
                assert(all_asked(left, now, n)[i] == before[i]);
            }
        }
    }
}

proof fn gone_after_cancel(tasks: Seq<TaskView>, id: u64)
    ensures
        forall|i: int|
            0 <= i < without_task(tasks, id).len() ==> (#[trigger] without_task(tasks, id)[i]).id
                != id,
    decreases tasks.len(),
{
    if tasks.len() > 0 {
        gone_after_cancel(tasks.drop_last(), id);
    }
}

/// A task with a delay runs once: when it asks to run, it is gone.
pub proof fn delays_run_once(task: TaskView, now: u128)
    requires
        task.kind is Delay,
        asks(task, now) is Some,
    ensures
        asks(task, now)->0 is Execute,
        kept(task, now) is None,
{
}

/// A task that asked for something at a moment asks for nothing more at that moment, unless it is
/// one that runs again without any time between.
pub proof fn asking_is_done_once(task: TaskView, now: u128)
    requires
        task.kind matches KindView::Schedule { interval, .. } ==> 0 < interval.nanos && now
            < u128::MAX,
    ensures
        kept(task, now) matches Some(next) ==> asks(next, now) is None,
{
}

/// A monitor gives up at its deadline, whatever was found before.
pub proof fn deadlines_hold(task: TaskView, now: u128)
    requires
        task.kind matches KindView::Monitor { deadline, .. } && (deadline matches Some(d) && now
            >= d),
    ensures
        asks(task, now) == Some(FiredView::MonitorTimeout { id: task.id }),
        kept(task, now) is None,
{
}

} // verus!
