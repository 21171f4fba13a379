use prognosis::app::requests::{cancel_task, schedule_task, task_request};
use prognosis::app::scheduler::{Condition, Fired, Scheduler, TaskAction, TaskKind};
use prognosis::json::Json;
use prognosis::number::Duration;

const SECOND: u128 = 1_000_000_000;
const START: u128 = 1_000 * SECOND;

fn action() -> TaskAction {
    TaskAction { tool: "time".into(), arguments: Json::Object(vec![]) }
}

fn monitor(condition: Condition, check_every: u64, deadline: u128) -> TaskKind {
    TaskKind::Monitor {
        condition,
        check_every: Duration::from_secs(check_every),
        deadline: Some(deadline),
        last_check: None,
        checking: false,
    }
}

fn checked(fired: &[Fired]) -> u64 {
    match &fired[0] {
        Fired::Check { id, .. } => *id,
        _ => panic!("expected a check"),
    }
}

fn text(s: &str) -> Json {
    Json::Text(s.to_string())
}

fn number(s: &str) -> Json {
    Json::Number(s.to_string())
}

fn object(fields: Vec<(&str, Json)>) -> Json {
    Json::Object(fields.into_iter().map(|(key, value)| (key.to_string(), value)).collect())
}

fn list_files() -> Json {
    object(vec![("tool", text("ls")), ("arguments", object(vec![]))])
}

#[test]
fn delay_fires_once_then_removed() {
    let mut scheduler = Scheduler::new();
    scheduler.register(TaskKind::Delay { due: START + 30 * SECOND }, action());
    assert!(scheduler.poll(START).is_empty());
    let fired = scheduler.poll(START + 31 * SECOND);
    assert_eq!(fired.len(), 1);
    assert!(scheduler.tasks().is_empty());
}

#[test]
fn schedule_fires_repeatedly_until_cancelled() {
    let mut scheduler = Scheduler::new();
    let id = scheduler.register(
        TaskKind::Schedule { interval: Duration::from_secs(10), next: START + 10 * SECOND },
        action(),
    );
    assert!(scheduler.poll(START).is_empty());
    let fired = scheduler.poll(START + 11 * SECOND);
    assert_eq!(fired.len(), 1);
    assert!(scheduler.cancel(id));
    assert!(!scheduler.cancel(id));
    assert!(scheduler.poll(START + 100 * SECOND).is_empty());
}

#[test]
fn monitor_output_contains_fires_when_condition_holds() {
    let mut scheduler = Scheduler::new();
    scheduler.register(
        monitor(
            Condition::OutputContains { cmd: "echo hello world".into(), contains: "hello".into() },
            1,
            START + 60 * SECOND,
        ),
        action(),
    );
    let fired = scheduler.poll(START);
    assert!(matches!(fired[0], Fired::Check { .. }), "poll must request an async check");
    let id = checked(&fired);
    let matched = scheduler.check_result(id, true, START);
    assert_eq!(matched.len(), 1);
    assert!(matches!(matched[0], Fired::Execute { .. }));
    assert!(scheduler.tasks().is_empty());
}

#[test]
fn monitor_waits_until_condition_holds() {
    let mut scheduler = Scheduler::new();
    scheduler.register(
        monitor(Condition::FileExists { path: "made later".into() }, 1, START + 60 * SECOND),
        action(),
    );
    let fired = scheduler.poll(START);
    assert_eq!(fired.len(), 1, "first poll requests a check");
    let id = checked(&fired);
    assert!(scheduler.check_result(id, false, START).is_empty());
    assert_eq!(scheduler.tasks().len(), 1, "missed check keeps the task");
    let fired = scheduler.poll(START + 2 * SECOND);
    assert_eq!(fired.len(), 1, "due again after check_every");
    let id = checked(&fired);
    assert_eq!(scheduler.check_result(id, true, START).len(), 1);
    assert!(scheduler.tasks().is_empty());
}

#[test]
fn monitor_times_out_and_is_removed() {
    let mut scheduler = Scheduler::new();
    scheduler.register(
        monitor(Condition::ExitZero { cmd: "false".into() }, 1, START + 5 * SECOND),
        action(),
    );
    assert_eq!(scheduler.poll(START).len(), 1, "first poll requests a check");
    let fired = scheduler.poll(START + 6 * SECOND);
    assert!(matches!(fired[0], Fired::MonitorTimeout { .. }));
    assert!(scheduler.tasks().is_empty());
}

#[test]
fn monitor_rechecks_only_after_check_every() {
    let mut scheduler = Scheduler::new();
    scheduler.register(
        monitor(Condition::FileExists { path: "made later".into() }, 10, START + 60 * SECOND),
        action(),
    );
    let fired = scheduler.poll(START);
    assert_eq!(fired.len(), 1, "first poll requests a check");
    let id = checked(&fired);
    assert!(scheduler.check_result(id, false, START).is_empty());
    assert!(scheduler.poll(START + 2 * SECOND).is_empty(), "no check before check_every");
    let fired = scheduler.poll(START + 12 * SECOND);
    assert_eq!(fired.len(), 1, "check requested again after check_every");
    let id = checked(&fired);
    assert_eq!(scheduler.check_result(id, true, START).len(), 1);
}

#[test]
fn a_check_under_way_is_not_asked_for_again() {
    let mut scheduler = Scheduler::new();
    scheduler.register(
        monitor(Condition::ExitZero { cmd: "true".into() }, 1, START + 60 * SECOND),
        action(),
    );
    assert_eq!(scheduler.poll(START).len(), 1);
    assert!(scheduler.poll(START + 5 * SECOND).is_empty());
}

#[test]
fn conditions_look_at_what_was_found() {
    let contains = Condition::OutputContains { cmd: "c".into(), contains: "hi".into() };
    assert!(contains.holds(Some(&b"say hi".to_vec()), false));
    assert!(contains.holds(Some(&b"\xff hi".to_vec()), false));
    assert!(!contains.holds(Some(&b"silence".to_vec()), false));
    assert!(contains.is_met(Some("say hi"), false));
    assert!(!contains.holds(None, true));
    let exists = Condition::FileExists { path: "p".into() };
    assert!(exists.holds(None, true));
    assert!(!exists.holds(None, false));
}

#[test]
fn task_tool_registers_delay_task() {
    let mut scheduler = Scheduler::new();
    let request = task_request(&object(vec![
        ("type", text("delay")),
        ("seconds", number("30")),
        ("action", list_files()),
    ]))
    .unwrap();
    let output = schedule_task(&mut scheduler, request, START, None).unwrap();
    assert!(output.contains("task #1 scheduled (delay, 30s)"), "{output}");
    assert_eq!(scheduler.tasks().len(), 1);
}

#[test]
fn task_tool_registers_schedule_and_monitor() {
    let mut scheduler = Scheduler::new();
    let request = task_request(&object(vec![
        ("type", text("schedule")),
        ("interval_seconds", number("60")),
        ("action", list_files()),
    ]))
    .unwrap();
    let out = schedule_task(&mut scheduler, request, START, None).unwrap();
    assert!(out.contains("task #1 scheduled (schedule, every 60s)"), "{out}");
    let request = task_request(&object(vec![
        ("type", text("monitor")),
        (
            "condition",
            object(vec![
                ("type", text("output_contains")),
                ("cmd", text("echo hi")),
                ("contains", text("hi")),
            ]),
        ),
        ("check_every_seconds", number("2")),
        ("timeout_seconds", number("60")),
        ("action", list_files()),
    ]))
    .unwrap();
    let out = schedule_task(&mut scheduler, request, START, None).unwrap();
    assert!(out.contains("task #2 scheduled (monitor"), "{out}");
    assert_eq!(scheduler.tasks().len(), 2);
}

#[test]
fn task_tool_rejects_bad_input() {
    let only_tool = || object(vec![("tool", text("ls"))]);
    let out = task_request(&object(vec![("type", text("nope")), ("action", only_tool())]))
        .unwrap_err();
    assert!(out.contains("unknown type"), "{out}");
    let out = task_request(&object(vec![("type", text("delay")), ("action", only_tool())]))
        .unwrap_err();
    assert!(out.contains("provide seconds or at"), "{out}");
}

#[test]
fn cancel_task_removes_scheduled_task() {
    let mut scheduler = Scheduler::new();
    let request = task_request(&object(vec![
        ("type", text("schedule")),
        ("interval_seconds", number("60")),
        ("action", list_files()),
    ]))
    .unwrap();
    schedule_task(&mut scheduler, request, START, None).unwrap();
    let out = cancel_task(&mut scheduler, 1);
    assert!(out.contains("cancelled task #1"), "{out}");
    assert!(scheduler.tasks().is_empty());
    let out = cancel_task(&mut scheduler, 1);
    assert!(out.contains("not found"), "{out}");
}

#[test]
fn a_time_of_day_that_is_past_means_tomorrow() {
    let mut scheduler = Scheduler::new();
    let at = || {
        task_request(&object(vec![
            ("type", text("delay")),
            ("at", text("09:30")),
            ("action", list_files()),
        ]))
        .unwrap()
    };
    let hour: i64 = 3_600_000_000_000;
    let out = schedule_task(&mut scheduler, at(), START, Some(hour)).unwrap();
    assert!(out.contains("09:30"), "{out}");
    schedule_task(&mut scheduler, at(), START, Some(-hour)).unwrap();
    let dues: Vec<u128> = scheduler
        .tasks()
        .iter()
        .map(|task| match &task.kind {
            TaskKind::Delay { due } => *due,
            _ => panic!("expected a delay"),
        })
        .collect();
    assert_eq!(dues, vec![START + 3_600 * SECOND, START + 82_800 * SECOND]);
    assert!(schedule_task(&mut scheduler, at(), START, None).is_err());
}
