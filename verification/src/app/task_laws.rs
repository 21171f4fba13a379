//! Laws of scheduled tasks: when they ask to run, and when they ask again.

use crate::app::agent::{NoticeView, ToolView};
use crate::app::conversation::{ticked, CheckView, RunView};
use crate::app::gate_laws::registered_tools_are_found;
use crate::app::requests::{task_scheduled, time_of, TaskRequestView, TimeView, WhenView};
use crate::app::scheduler::{
    all_asked, all_kept, asks, check_taken, checked, kept, task_from, without_task, ConditionView,
    FiredView, KindView, Scheduler, TaskView,
};
use crate::number::Duration;
use crate::text::{decimal, is_digit, join, split_of_join, unsigned_of_decimal};
use vstd::prelude::*;

verus! {

/// A task with a delay asks to run from its moment on, and not before. Once it asks, it is gone; until
/// then it is as it was.
pub proof fn delays_run_when_due(task: TaskView, due: u128, now: u128)
    requires
        task.kind == (KindView::Delay { due }),
    ensures
        now < due ==> asks(task, now) is None && kept(task, now) == Some(task),
        now >= due ==> asks(task, now) == Some(
            FiredView::Execute { id: task.id, action: task.action, label: "delay"@ },
        ) && kept(task, now) is None,
{
}

/// A task that runs again and again asks to run from its moment on, and not before. When it ran at the
/// moment `now`, it asks for nothing until its interval has passed, and asks to run from then on. The
/// last moment of all is the latest at which a task can be due.
pub proof fn intervals_are_kept(
    task: TaskView,
    interval: Duration,
    next: u128,
    now: u128,
    moment: u128,
)
    requires
        task.kind == (KindView::Schedule { interval, next }),
    ensures
        now < next ==> asks(task, now) is None && kept(task, now) == Some(task),
        now >= next ==> {
            let run = FiredView::Execute {
                id: task.id,
                action: task.action,
                label: "schedule tick"@,
            };
            &&& asks(task, now) == Some(run)
            &&& kept(task, now) is Some
            &&& now <= moment < now + interval.nanos && moment < u128::MAX ==> asks(
                kept(task, now)->0,
                moment,
            ) is None
            &&& moment >= now + interval.nanos || moment == u128::MAX ==> asks(
                kept(task, now)->0,
                moment,
            ) == Some(run)
        },
{
}

/// A task that runs again and again stays the task that it is: after it ran, it has the same number,
/// tool and interval.
pub proof fn running_keeps_the_task(task: TaskView, now: u128)
    requires
        task.kind is Schedule,
    ensures
        kept(task, now) is Some,
        kept(task, now)->0.id == task.id,
        kept(task, now)->0.action == task.action,
        kept(task, now)->0.kind is Schedule,
        kept(task, now)->0.kind->Schedule_interval == task.kind->Schedule_interval,
{
}

/// Whether a moment lies before a deadline, if there is one.
pub open spec fn in_time(deadline: Option<u128>, now: u128) -> bool {
    deadline matches Some(last) ==> now < last
}

/// A monitor that was never checked asks for a check at once. While the check is under way, it asks
/// for nothing until its deadline.
pub proof fn monitors_are_checked_at_once(
    task: TaskView,
    condition: ConditionView,
    check_every: Duration,
    deadline: Option<u128>,
    now: u128,
    moment: u128,
)
    requires
        task.kind == (KindView::Monitor {
            condition,
            check_every,
            deadline,
            last_check: None,
            checking: false,
        }),
        in_time(deadline, now),
        in_time(deadline, moment),
    ensures
        asks(task, now) == Some(FiredView::Check { id: task.id, condition }),
        kept(task, now) is Some,
        kept(task, now)->0.id == task.id,
        kept(task, now)->0.action == task.action,
        asks(kept(task, now)->0, moment) is None,
{
}

/// A monitor whose check failed at the moment `now` asks for the next check once its time has passed,
/// and not before; at its deadline it gives up and is gone.
pub proof fn failed_checks_are_repeated(
    task: TaskView,
    condition: ConditionView,
    check_every: Duration,
    deadline: Option<u128>,
    last_check: Option<u128>,
    checking: bool,
    now: u128,
    moment: u128,
)
    requires
        task.kind == (KindView::Monitor { condition, check_every, deadline, last_check, checking }),
    ensures
        checked(task, now).id == task.id,
        checked(task, now).action == task.action,
        in_time(deadline, moment) && now <= moment < now + check_every.nanos && moment < u128::MAX
            ==> asks(checked(task, now), moment) is None && kept(checked(task, now), moment) == Some(
            checked(task, now),
        ),
        in_time(deadline, moment) && moment >= now + check_every.nanos ==> asks(
            checked(task, now),
            moment,
        ) == Some(FiredView::Check { id: task.id, condition }),
        !in_time(deadline, moment) ==> {
            &&& asks(task, moment) == Some(FiredView::MonitorTimeout { id: task.id })
            &&& asks(checked(task, now), moment) == Some(FiredView::MonitorTimeout { id: task.id })
            &&& kept(task, moment) is None
            &&& kept(checked(task, now), moment) is None
        },
{
}

/// A look at all tasks brings what each of them asks for, in their order, and nothing else.
pub proof fn every_task_is_asked(tasks: Seq<TaskView>, now: u128)
    ensures
        all_asked(tasks, now, tasks.len() as int) == tasks.filter(
            |task: TaskView| asks(task, now) is Some,
        ).map_values(|task: TaskView| asks(task, now)->0),
{
    asked_so_far(tasks, now, tasks.len() as int);
    assert(tasks.take(tasks.len() as int) =~= tasks);
}

proof fn asked_so_far(tasks: Seq<TaskView>, now: u128, n: int)
    requires
        0 <= n <= tasks.len(),
    ensures
        all_asked(tasks, now, n) == tasks.take(n).filter(
            |task: TaskView| asks(task, now) is Some,
        ).map_values(|task: TaskView| asks(task, now)->0),
    decreases n,
{
    reveal(Seq::filter);
    let ask = |task: TaskView| asks(task, now) is Some;
    let what = |task: TaskView| asks(task, now)->0;
    if n > 0 {
        asked_so_far(tasks, now, n - 1);
        assert(tasks.take(n).drop_last() =~= tasks.take(n - 1));
        assert(tasks.take(n).last() == tasks[n - 1]);
        let before = tasks.take(n - 1).filter(ask);
        assert(before.push(tasks[n - 1]).map_values(what) =~= before.map_values(what).push(
            what(tasks[n - 1]),
        ));
    } else {
        assert(tasks.take(0).filter(ask).map_values(what) =~= Seq::empty());
    }
}

/// A look at all tasks leaves each task that is not done, in their order.
pub proof fn every_task_is_kept(tasks: Seq<TaskView>, now: u128)
    ensures
        all_kept(tasks, now, tasks.len() as int) == tasks.filter(
            |task: TaskView| kept(task, now) is Some,
        ).map_values(|task: TaskView| kept(task, now)->0),
{
    kept_so_far(tasks, now, tasks.len() as int);
    assert(tasks.take(tasks.len() as int) =~= tasks);
}

proof fn kept_so_far(tasks: Seq<TaskView>, now: u128, n: int)
    requires
        0 <= n <= tasks.len(),
    ensures
        all_kept(tasks, now, n) == tasks.take(n).filter(
            |task: TaskView| kept(task, now) is Some,
        ).map_values(|task: TaskView| kept(task, now)->0),
    decreases n,
{
    reveal(Seq::filter);
    let stay = |task: TaskView| kept(task, now) is Some;
    let what = |task: TaskView| kept(task, now)->0;
    if n > 0 {
        kept_so_far(tasks, now, n - 1);
        assert(tasks.take(n).drop_last() =~= tasks.take(n - 1));
        assert(tasks.take(n).last() == tasks[n - 1]);
        let before = tasks.take(n - 1).filter(stay);
        assert(before.push(tasks[n - 1]).map_values(what) =~= before.map_values(what).push(
            what(tasks[n - 1]),
        ));
    } else {
        assert(tasks.take(0).filter(stay).map_values(what) =~= Seq::empty());
    }
}

/// Cancelling a task leaves all the others, in their order.
pub proof fn cancelling_leaves_the_others(tasks: Seq<TaskView>, id: u64)
    ensures
        without_task(tasks, id) == tasks.filter(|task: TaskView| task.id != id),
    decreases tasks.len(),
{
    reveal(Seq::filter);
    if tasks.len() > 0 {
        cancelling_leaves_the_others(tasks.drop_last(), id);
    }
}

/// A monitor whose condition holds asks to run its tool, once, and is gone. Whatever a check found, the
/// other tasks stay as they are.
pub proof fn matched_monitors_run(
    before: Seq<TaskView>,
    after: Seq<TaskView>,
    id: u64,
    holds: bool,
    now: u128,
    fired: Seq<FiredView>,
    i: int,
)
    requires
        check_taken(before, after, id, holds, now, fired),
        0 <= i < before.len(),
        before[i].id == id,
        before[i].kind is Monitor,
        forall|k: int, j: int|
            0 <= k < j < before.len() ==> (#[trigger] before[k]).id < (#[trigger] before[j]).id,
    ensures
        holds ==> fired == seq![
            FiredView::Execute { id, action: before[i].action, label: "monitor matched"@ },
        ],
        holds ==> after == before.remove(i),
        !holds ==> fired.len() == 0,
        !holds ==> after.len() == before.len(),
        !holds ==> forall|k: int|
            0 <= k < before.len() && k != i ==> #[trigger] after[k] == before[k],
        !holds ==> after[i] == checked(before[i], now),
{
    first_with_number(before, id, 0, i);
    if holds {
        only_one_leaves(before, i);
    }
}

proof fn first_with_number(tasks: Seq<TaskView>, id: u64, from: int, i: int)
    requires
        0 <= from <= i < tasks.len(),
        tasks[i].id == id,
        forall|k: int, j: int|
            0 <= k < j < tasks.len() ==> (#[trigger] tasks[k]).id < (#[trigger] tasks[j]).id,
    ensures
        task_from(tasks, id, from) == Some(i),
    decreases i - from,
{
    if from < i {
        assert(tasks[from].id < tasks[i].id);
        first_with_number(tasks, id, from + 1, i);
    }
}

proof fn only_one_leaves(tasks: Seq<TaskView>, i: int)
    requires
        0 <= i < tasks.len(),
        forall|k: int, j: int|
            0 <= k < j < tasks.len() ==> (#[trigger] tasks[k]).id < (#[trigger] tasks[j]).id,
    ensures
        without_task(tasks, tasks[i].id) == tasks.remove(i),
    decreases tasks.len(),
{
    let id = tasks[i].id;
    let front = tasks.drop_last();
    if i == tasks.len() - 1 {
        all_stay(front, id);
        assert(front =~= tasks.remove(i));
    } else {
        assert(tasks[i].id < tasks[tasks.len() - 1].id);
        assert(front[i] == tasks[i]);
        only_one_leaves(front, i);
        assert(front.remove(i).push(tasks.last()) =~= tasks.remove(i));
    }
}

proof fn all_stay(tasks: Seq<TaskView>, id: u64)
    requires
        forall|k: int| 0 <= k < tasks.len() ==> (#[trigger] tasks[k]).id != id,
    ensures
        without_task(tasks, id) == tasks,
    decreases tasks.len(),
{
    if tasks.len() > 0 {
        assert(tasks[tasks.len() - 1].id != id);
        all_stay(tasks.drop_last(), id);
        assert(tasks.drop_last().push(tasks.last()) =~= tasks);
    }
}

// ---------------------------------------------------------------------------------------------
// Tasks as they are asked for
// ---------------------------------------------------------------------------------------------
/// A task that is asked for joins the others behind them, under a number of its own, with the action
/// that was asked for; the others stay.
pub proof fn requested_tasks_join_the_others(
    before: Scheduler,
    after: Scheduler,
    request: TaskRequestView,
    now: u128,
    ahead: Option<i64>,
    r: Result<String, String>,
)
    requires
        task_scheduled(before, after, request, now, ahead, r),
    ensures
        r is Ok ==> {
            &&& after.all().len() == before.all().len() + 1
            &&& after.all().drop_last() == before.all()
            &&& after.all().last().id == before.next()
            &&& after.all().last().action == request.action
            &&& after.next() == before.next() + 1
        },
        r is Err ==> after == before,
        !(request.when is At) ==> r is Ok,
{
    if r is Ok {
        assert(after.all().drop_last() =~= before.all());
    }
}

/// A task that is asked for after some seconds runs once they have passed, and not before.
pub proof fn requested_delays_are_kept(
    before: Scheduler,
    after: Scheduler,
    request: TaskRequestView,
    seconds: nat,
    now: u128,
    ahead: Option<i64>,
    r: Result<String, String>,
    moment: u128,
)
    requires
        task_scheduled(before, after, request, now, ahead, r),
        request.when == (WhenView::After { seconds }),
        seconds <= u64::MAX,
        now + seconds * 1_000_000_000 <= u128::MAX,
    ensures
        r is Ok,
        moment < now + seconds * 1_000_000_000 ==> asks(after.all().last(), moment) is None,
        moment >= now + seconds * 1_000_000_000 ==> (asks(after.all().last(), moment) matches Some(
            FiredView::Execute { action, .. },
        ) && action == request.action),
{
}

/// A task that is asked for every so many seconds runs for the first time once they have passed, and
/// from then on whenever they have passed again.
pub proof fn requested_intervals_are_kept(
    before: Scheduler,
    after: Scheduler,
    request: TaskRequestView,
    seconds: nat,
    now: u128,
    ahead: Option<i64>,
    r: Result<String, String>,
    run: u128,
    moment: u128,
)
    requires
        task_scheduled(before, after, request, now, ahead, r),
        request.when == (WhenView::Every { seconds }),
        seconds <= u64::MAX,
        now + seconds * 1_000_000_000 <= u128::MAX,
        run + seconds * 1_000_000_000 <= u128::MAX,
    ensures
        r is Ok,
        run < now + seconds * 1_000_000_000 ==> asks(after.all().last(), run) is None,
        run >= now + seconds * 1_000_000_000 ==> {
            let task = after.all().last();
            &&& asks(task, run) matches Some(FiredView::Execute { action, .. }) && action
                == request.action
            &&& kept(task, run) is Some
            &&& run <= moment < run + seconds * 1_000_000_000 ==> asks(
                kept(task, run)->0,
                moment,
            ) is None
            &&& moment >= run + seconds * 1_000_000_000 ==> (asks(
                kept(task, run)->0,
                moment,
            ) matches Some(FiredView::Execute { action, .. }) && action == request.action)
        },
{
}

/// A monitor that is asked for checks its condition at once, and gives up once its time is over, if it
/// has one.
pub proof fn requested_monitors_watch(
    before: Scheduler,
    after: Scheduler,
    request: TaskRequestView,
    condition: ConditionView,
    check_every: nat,
    timeout: Option<nat>,
    now: u128,
    ahead: Option<i64>,
    r: Result<String, String>,
    moment: u128,
)
    requires
        task_scheduled(before, after, request, now, ahead, r),
        request.when == (WhenView::Watch { condition, check_every, timeout }),
        timeout matches Some(seconds) ==> seconds <= u64::MAX && now + seconds * 1_000_000_000
            <= u128::MAX,
    ensures
        r is Ok,
        (timeout matches Some(seconds) ==> moment < now + seconds * 1_000_000_000) ==> asks(
            after.all().last(),
            moment,
        ) == Some(FiredView::Check { id: before.next(), condition }),
        (timeout matches Some(seconds) && moment >= now + seconds * 1_000_000_000) ==> asks(
            after.all().last(),
            moment,
        ) == Some(FiredView::MonitorTimeout { id: before.next() }),
{
}

/// A task that is asked for at a time of day runs when that time comes: today if it lies ahead, and
/// else a day later.
pub proof fn requested_times_are_kept(
    before: Scheduler,
    after: Scheduler,
    request: TaskRequestView,
    now: u128,
    ahead: i64,
    r: Result<String, String>,
    moment: u128,
)
    requires
        task_scheduled(before, after, request, now, Some(ahead), r),
        request.when is At,
        -86_400_000_000_000 < ahead < 86_400_000_000_000,
        now + 86_400_000_000_000 <= u128::MAX,
    ensures
        r is Ok,
        ({
            let due = if ahead > 0 {
                now + ahead
            } else {
                now + ahead + 86_400_000_000_000
            };
            &&& moment < due ==> asks(after.all().last(), moment) is None
            &&& moment >= due ==> (asks(after.all().last(), moment) matches Some(
                FiredView::Execute { action, .. },
            ) && action == request.action)
        }),
{
}

/// Every time of day can be asked for by its hour and its minute, with a colon between.
pub proof fn times_of_day_are_read(hour: nat, minute: nat)
    requires
        hour < 24,
        minute < 60,
    ensures
        time_of(decimal(hour) + seq![':'] + decimal(minute)) == Ok::<TimeView, Seq<char>>(
            TimeView { hour, minute },
        ),
{
    unsigned_of_decimal(hour);
    unsigned_of_decimal(minute);
    let parts = seq![decimal(hour), decimal(minute)];
    assert forall|i: int| 0 <= i < parts.len() implies !(#[trigger] parts[i]).contains(':') by {
        if parts[i].contains(':') {
            let k = choose|k: int| 0 <= k < parts[i].len() && parts[i][k] == ':';
            assert(is_digit(parts[i][k]));
        }
    }
    split_of_join(parts, ':');
    assert(parts.drop_last() =~= seq![decimal(hour)]);
    assert(join(parts.drop_last(), seq![':']) == decimal(hour));
    assert(join(parts, seq![':']) =~= decimal(hour) + seq![':'] + decimal(minute));
}

// ---------------------------------------------------------------------------------------------
// The clock
// ---------------------------------------------------------------------------------------------
/// What a demand to run a tool comes to, apart from the number of the cycle.
pub open spec fn is_run_of(run: RunView, fired: FiredView, tools: Seq<ToolView>) -> bool {
    fired matches FiredView::Execute { id, action, label } && {
        &&& run.id == id
        &&& run.label == label
        &&& run.tool == action.tool
        &&& run.arguments == action.arguments
        &&& run.known == exists|i: int| 0 <= i < tools.len() && (#[trigger] tools[i]).name == run.tool
    }
}

/// The demands to run tools.
pub open spec fn runs_in(fired: Seq<FiredView>) -> Seq<FiredView> {
    fired.filter(|one: FiredView| one is Execute)
}

/// The demands to check conditions.
pub open spec fn checks_in(fired: Seq<FiredView>) -> Seq<FiredView> {
    fired.filter(|one: FiredView| one is Check)
}

proof fn ticked_so_far(fired: Seq<FiredView>, tools: Seq<ToolView>, cycle: u64, n: int)
    requires
        0 <= n <= fired.len(),
    ensures
        ({
            let brought = ticked(fired, tools, cycle, n);
            let runs = runs_in(fired.take(n));
            &&& brought.runs.len() == runs.len()
            &&& forall|k: int|
                0 <= k < runs.len() ==> is_run_of(#[trigger] brought.runs[k], runs[k], tools)
            &&& brought.checks == checks_in(fired.take(n)).map_values(
                |one: FiredView| (CheckView { id: one->Check_id, condition: one->condition }),
            )
        }),
    decreases n,
{
    reveal(Seq::filter);
    let read = |one: FiredView| (CheckView { id: one->Check_id, condition: one->condition });
    if n == 0 {
        assert(checks_in(fired.take(0)).map_values(read) =~= Seq::empty());
    } else {
        ticked_so_far(fired, tools, cycle, n - 1);
        let one = fired[n - 1];
        let before = ticked(fired, tools, cycle, n - 1);
        let now = ticked(fired, tools, cycle, n);
        assert(fired.take(n).drop_last() =~= fired.take(n - 1));
        assert(fired.take(n).last() == one);
        let runs = runs_in(fired.take(n - 1));
        let checks = checks_in(fired.take(n - 1));
        match one {
            FiredView::Execute { id, action, label } => {
                registered_tools_are_found(tools, action.tool);
                assert(runs_in(fired.take(n)) == runs.push(one));
                assert forall|k: int| 0 <= k < runs.push(one).len() implies is_run_of(
                    #[trigger] now.runs[k],
                    runs.push(one)[k],
                    tools,
                ) by {
                    if k < runs.len() {
                        assert(now.runs[k] == before.runs[k]);
                    }
                }
            },
            FiredView::Check { id, condition } => {
                assert(checks_in(fired.take(n)) == checks.push(one));
                assert(checks.push(one).map_values(read) =~= checks.map_values(read).push(
                    read(one),
                ));
            },
            FiredView::MonitorTimeout { id } => {},
        }
    }
}

/// Every tool that the scheduler asks for is run and every condition is checked, in the order in which
/// the scheduler asks, and nothing else.
pub proof fn all_demands_are_met(fired: Seq<FiredView>, tools: Seq<ToolView>, cycle: u64)
    ensures
        ({
            let brought = ticked(fired, tools, cycle, fired.len() as int);
            &&& brought.runs.len() == runs_in(fired).len()
            &&& forall|k: int|
                0 <= k < runs_in(fired).len() ==> is_run_of(
                    #[trigger] brought.runs[k],
                    runs_in(fired)[k],
                    tools,
                )
            &&& brought.checks == checks_in(fired).map_values(
                |one: FiredView| (CheckView { id: one->Check_id, condition: one->condition }),
            )
        }),
{
    ticked_so_far(fired, tools, cycle, fired.len() as int);
    assert(fired.take(fired.len() as int) =~= fired);
}

/// Whether it is told that a monitor gave up.
pub open spec fn gave_up(told: Seq<NoticeView>, id: u64) -> bool {
    exists|i: int|
        0 <= i < told.len() && (#[trigger] told[i] matches NoticeView::Perception { content, .. }
            && content == "(Monitor task #"@ + decimal(id as nat) + " timed out)"@)
}

/// It is told of every monitor that gave up.
pub proof fn monitors_that_give_up_are_told(
    fired: Seq<FiredView>,
    tools: Seq<ToolView>,
    cycle: u64,
    k: int,
    n: int,
)
    requires
        0 <= k < n <= fired.len(),
        fired[k] is MonitorTimeout,
    ensures
        gave_up(ticked(fired, tools, cycle, n).notices, fired[k]->MonitorTimeout_id),
    decreases n,
{
    let id = fired[k]->MonitorTimeout_id;
    let before = ticked(fired, tools, cycle, n - 1).notices;
    let now = ticked(fired, tools, cycle, n).notices;
    if k == n - 1 {
        let at = before.len() + 1;
        assert(now[at as int] matches NoticeView::Perception { content, .. } && content
            == "(Monitor task #"@ + decimal(id as nat) + " timed out)"@);
    } else {
        monitors_that_give_up_are_told(fired, tools, cycle, k, n - 1);
        let i = choose|i: int|
            0 <= i < before.len() && (#[trigger] before[i] matches NoticeView::Perception {
                content,
                ..
            } && content == "(Monitor task #"@ + decimal(id as nat) + " timed out)"@);
        assert(now[i] == before[i]);
    }
}

} // verus!
