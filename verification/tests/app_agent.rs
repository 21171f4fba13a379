use prognosis::app::agent::{
    is_correction_broken, truncate, AdapterKind, App, AppConfig, ExecutedCall, Notice, PlannedCall,
    ToolCall, ToolPlan,
};
use prognosis::app::conversation::{
    approvals_text, pick_adapter, read_approvals, scheduled_report, Prepared,
};
use prognosis::app::models::ModelsStore;
use prognosis::app::remember::{summarize_session, transcript, Remember, MAX_FULL_SESSIONS};
use prognosis::app::scheduler::{Condition, TaskAction, TaskKind};
use prognosis::app::supervisor::{ToolCallRecord, Verdict};
use prognosis::app::tool_specs::Surroundings;
use prognosis::json::Json;
use prognosis::number::Duration;
use prognosis::runtime::PerceptionSource;

const SECOND: u128 = 1_000_000_000;

fn test_app() -> App {
    app_with(None)
}

fn app_with(approvals: Option<&str>) -> App {
    let config = AppConfig {
        adapter: AdapterKind::OpenAi,
        model: None,
        supervisor_enabled: false,
        project_dir: "/project".into(),
        tick_interval: Duration::from_millis(100),
    };
    let mut app = App::new(config, Remember::new(vec![], vec![]), ModelsStore::new(), approvals);
    app.current_model = String::new();
    app
}

fn object(fields: Vec<(&str, &str)>) -> Json {
    Json::Object(
        fields.into_iter().map(|(key, value)| (key.into(), Json::Text(value.into()))).collect(),
    )
}

fn call(name: &str, arguments: Json) -> ToolCall {
    ToolCall { name: name.into(), arguments, tool_call_id: Some("id".into()) }
}

fn planned(app: &mut App, name: &str, arguments: Json) -> (ToolPlan, Vec<Notice>) {
    match app.prepare_tool_call(call(name, arguments)) {
        (Prepared::Plan(plan), notices) => (plan, notices),
        (Prepared::Ask { .. }, _) => panic!("the supervisor is off"),
    }
}

fn perception(notices: &[Notice]) -> (PerceptionSource, String) {
    notices
        .iter()
        .find_map(|notice| match notice {
            Notice::Perception { source, content, .. } => Some((*source, content.clone())),
            _ => None,
        })
        .expect("a perception must be told")
}

fn run(app: &mut App, planned: &PlannedCall, output: &str) -> Vec<Notice> {
    app.finish_tool_call(&planned.call, output, &planned.verdict)
}

#[test]
fn handle_call_tool_rejects_missing_required_argument_before_supervisor() {
    let mut app = test_app();
    app.supervisor.set_enabled(true);
    app.submit("write a file", vec![]);
    let (prepared, notices) =
        app.prepare_tool_call(call("create_new_file", object(vec![("contents", "x")])));
    assert!(
        matches!(prepared, Prepared::Plan(ToolPlan::Blocked)),
        "must be rejected without passing through supervisor"
    );
    assert_eq!(app.tool_trace.len(), 1, "rejection must be recorded");
    assert!(app.tool_trace[0].output.contains("missing required argument"));
    let (_, rejected) = perception(&notices);
    assert!(rejected.contains("missing required argument \"filepath\""), "{rejected}");
}

#[test]
fn handle_call_tool_executes_non_confirm_tool_and_publishes_result() {
    let mut app = test_app();
    app.submit("what time is it", vec![]);
    let calls = match planned(&mut app, "ls", Json::Object(vec![])) {
        (ToolPlan::Execute(calls), _) => calls,
        _ => panic!("expected the call to run"),
    };
    assert!(calls[0].known);
    let notices = run(&mut app, &calls[0], "src/");
    assert_eq!(app.tool_trace.len(), 1);
    let name = notices.iter().find_map(|notice| match notice {
        Notice::ToolResult { name, .. } => Some(name.clone()),
        _ => None,
    });
    assert_eq!(name.as_deref(), Some("ls"));
}

#[test]
fn handle_call_tool_requests_confirmation_for_confirm_tool() {
    let mut app = test_app();
    app.submit("write a file", vec![]);
    let (plan, _) = planned(
        &mut app,
        "create_new_file",
        object(vec![("filepath", "tmp.txt"), ("contents", "x")]),
    );
    assert!(matches!(plan, ToolPlan::NeedConfirm(_)));
    assert!(!app.pending_tool.is_empty());
    assert_eq!(app.pending_tool_name().as_deref(), Some("create_new_file"));
}

#[test]
fn an_answer_runs_or_denies_the_waiting_call() {
    let mut app = test_app();
    let arguments = || object(vec![("filepath", "tmp.txt"), ("contents", "x")]);
    planned(&mut app, "create_new_file", arguments());
    planned(&mut app, "create_new_file", arguments());
    let (denied, notices) = app.take_pending_execution(false);
    assert!(denied.is_none());
    assert!(notices.iter().any(|notice| matches!(
        notice,
        Notice::ToolResult { output, .. } if output == "user denied the tool call"
    )));
    let (approved, _) = app.take_pending_execution(true);
    assert_eq!(approved.unwrap().call.name, "create_new_file");
    assert!(app.take_pending_execution(true).0.is_none());
}

#[test]
fn the_same_call_is_not_run_twice() {
    let mut app = test_app();
    let calls = match planned(&mut app, "ls", object(vec![("dirPath", ".")])) {
        (ToolPlan::Execute(calls), _) => calls,
        _ => panic!("expected the call to run"),
    };
    run(&mut app, &calls[0], "src/");
    let (plan, notices) = planned(&mut app, "ls", object(vec![("dirPath", ".")]));
    assert!(matches!(plan, ToolPlan::Blocked));
    assert!(perception(&notices).1.contains("Duplicate tool call: ls"));
    let (plan, _) = planned(&mut app, "ls", object(vec![("dirPath", "src")]));
    assert!(matches!(plan, ToolPlan::Execute(_)));
    app.submit("another task", vec![]);
    let (plan, _) = planned(&mut app, "ls", object(vec![("dirPath", ".")]));
    assert!(matches!(plan, ToolPlan::Execute(_)));
}

#[test]
fn the_number_of_calls_is_limited() {
    let mut app = test_app();
    app.tool_rounds_executed = 200;
    let (plan, notices) = planned(&mut app, "ls", Json::Object(vec![]));
    assert!(matches!(plan, ToolPlan::Blocked));
    assert!(perception(&notices).1.contains("Tool round limit reached (200)"));
}

#[test]
fn a_supervised_call_is_asked_about_and_may_be_corrected() {
    let mut app = test_app();
    app.supervisor.set_enabled(true);
    app.submit("list files", vec![]);
    let original = call("run_terminal_command", object(vec![("command", "ls")]));
    match app.prepare_tool_call(original) {
        (Prepared::Ask { input, trace, pending, tools }, _) => {
            assert_eq!(input, "list files");
            assert!(trace.is_empty());
            assert_eq!(pending.arguments, r#"{"command":"ls"}"#);
            assert!(tools.contains(&"ls".to_string()));
        }
        _ => panic!("expected a question"),
    }
    let fixed = ToolCallRecord {
        name: "ls".into(),
        arguments: r#"{"dirPath":"."}"#.into(),
        output: String::new(),
    };
    let (plan, _) = app.apply_verdict(
        Verdict::Corrected { calls: vec![fixed] },
        call("run_terminal_command", object(vec![("command", "ls")])),
    );
    match plan {
        ToolPlan::Execute(calls) => {
            assert_eq!(calls[0].call.name, "ls");
            assert_eq!(calls[0].call.arguments, object(vec![("dirPath", ".")]));
        }
        _ => panic!("expected the corrected call to run"),
    }
    let (plan, notices) = app.apply_verdict(
        Verdict::Regenerate { reason: "wrong approach".into() },
        call("ls", Json::Object(vec![])),
    );
    assert!(matches!(plan, ToolPlan::Blocked));
    assert!(perception(&notices).1.contains("wrong approach"));
}

#[test]
fn compact_publishes_context_event() {
    let mut app = test_app();
    app.remember.start_session("now");
    let turns = app.remember.append_turn("user", "what is the weather", vec![]).unwrap();
    let turns = app.remember.append_turn("assistant", "it is sunny", turns).unwrap();
    let (summary, notice) = app.compact(&transcript(&turns), None);
    assert!(!summary.trim().is_empty());
    match notice {
        Notice::CompactContext { summary: told, .. } => assert_eq!(told, summary),
        _ => panic!("expected compact context"),
    }
}

#[test]
fn approvals_persist_and_gate_confirm() {
    let mut app = test_app();
    assert!(!app.is_approved("run_terminal_command"));
    app.remember_approval("run_terminal_command");
    assert!(app.is_approved("run_terminal_command"));
    assert!(app.approvals().contains(&"run_terminal_command".to_string()));
    app.clear_approval("run_terminal_command");
    assert!(!app.is_approved("run_terminal_command"));
    let (plan, _) =
        planned(&mut app, "run_terminal_command", object(vec![("command", "echo hi")]));
    assert!(matches!(plan, ToolPlan::NeedConfirm(_)), "unapproved confirm tool still asks");
    app.remember_approval("run_terminal_command");
    let (plan, _) =
        planned(&mut app, "run_terminal_command", object(vec![("command", "echo hi")]));
    assert!(matches!(plan, ToolPlan::Execute(_)), "approved confirm tool executes directly");
}

#[test]
fn approvals_are_kept_in_order() {
    let mut app = test_app();
    for name in ["ls", "cancel_task", "ls"] {
        app.remember_approval(name);
    }
    assert_eq!(*app.approvals(), vec!["cancel_task", "ls"]);
}

#[test]
fn model_store_roundtrip_in_project_dir() {
    let mut app = test_app();
    let name = "test-model-1";
    let msg = app
        .add_model(name, "openai", "", "sk-test-0000", None)
        .unwrap_or_else(|err| panic!("add model failed: {err}"));
    assert!(msg.contains("added and activated"), "{msg}");
    assert_eq!(app.current_model_name(), name);
    assert!(app.list_models().contains(&name.to_string()));
    let msg =
        app.switch_model(name, None).unwrap_or_else(|err| panic!("switch failed: {err}"));
    assert!(msg.contains("switched"), "{msg}");
}

#[test]
fn a_client_that_cannot_be_built_leaves_the_model() {
    let mut app = test_app();
    app.add_model("alpha", "openai", "", "k", None).unwrap();
    app.add_model("beta", "openai", "", "k", None).unwrap();
    assert!(app.switch_model("alpha", Some("no key")).unwrap_err().contains("no key"));
    assert_eq!(app.current_model_name(), "beta");
    assert!(app.switch_model("gamma", None).is_err());
}

#[test]
fn submit_publishes_task_set() {
    let mut app = test_app();
    let (_, notices) = app.submit("fix the bug", vec![]);
    let goal = notices.iter().find_map(|notice| match notice {
        Notice::TaskSet { goal, .. } => Some(goal.clone()),
        _ => None,
    });
    assert_eq!(goal.as_deref(), Some("fix the bug"));
}

#[test]
fn scheduler_tick_fires_delay_and_publishes_perception() {
    let mut app = test_app();
    app.scheduler.register(
        TaskKind::Delay { due: 9 * SECOND },
        TaskAction { tool: "ls".into(), arguments: Json::Object(vec![]) },
    );
    let ticked = app.scheduler_tick(10 * SECOND);
    assert!(app.scheduler.tasks().is_empty());
    assert_eq!(ticked.runs.len(), 1);
    let due = &ticked.runs[0];
    assert!(due.known);
    let (source, content) =
        perception(&scheduled_report(due.cycle, due.id, &due.label, "src/"));
    assert_eq!(source, PerceptionSource::Scheduled);
    assert!(content.contains("Scheduled task #1"));
    assert!(content.ends_with("src/"));
}

#[test]
fn scheduler_tick_timeout_publishes_perception() {
    let mut app = test_app();
    app.scheduler.register(
        TaskKind::Monitor {
            condition: Condition::ExitZero { cmd: "false".into() },
            check_every: Duration::from_secs(1),
            deadline: Some(9 * SECOND),
            last_check: None,
            checking: false,
        },
        TaskAction { tool: "ls".into(), arguments: Json::Object(vec![]) },
    );
    let ticked = app.scheduler_tick(10 * SECOND);
    assert!(app.scheduler.tasks().is_empty());
    let (source, content) = perception(&ticked.notices);
    assert_eq!(source, PerceptionSource::Scheduled);
    assert!(content.contains("timed out"), "{content}");
}

#[test]
fn a_watched_condition_runs_its_task() {
    let mut app = test_app();
    let id = app.scheduler.register(
        TaskKind::Monitor {
            condition: Condition::FileExists { path: "x".into() },
            check_every: Duration::from_secs(1),
            deadline: None,
            last_check: None,
            checking: false,
        },
        TaskAction { tool: "nothing".into(), arguments: Json::Object(vec![]) },
    );
    let ticked = app.scheduler_tick(10 * SECOND);
    assert_eq!(ticked.checks.len(), 1);
    assert_eq!(ticked.checks[0].id, id);
    assert!(app.take_check(id, false, 10 * SECOND).runs.is_empty());
    assert_eq!(app.scheduler_tick(12 * SECOND).checks.len(), 1);
    let ticked = app.take_check(id, true, 12 * SECOND);
    assert_eq!(ticked.runs.len(), 1);
    assert!(!ticked.runs[0].known);
}

#[test]
fn resume_session_injects_and_sets_current() {
    let mut app = test_app();
    app.remember.start_session("now");
    let turns = app.remember.append_turn("user", "hello", vec![]).unwrap();
    let turns = app.remember.append_turn("assistant", "hi there", turns).unwrap();
    let id = app.remember.list_sessions()[0].id.clone();
    let (message, _) = app.resume_session(&id, &turns).expect("resume should succeed");
    assert!(message.contains("resumed session"), "{message}");
    assert!(message.contains(&id), "{message}");
    assert_eq!(app.remember.current_session(), Some(id.as_str()));
}

#[test]
fn resume_session_unknown_id_errors() {
    let mut app = test_app();
    assert!(app.resume_session("s9999", &vec![]).is_err());
}

#[test]
fn continue_session_resumes_most_recent() {
    let mut app = test_app();
    assert!(app.continue_session().is_err(), "no sessions yet");
    app.remember.start_session("now");
    let first = app.remember.append_turn("user", "first turn", vec![]).unwrap();
    app.remember.start_session("now");
    app.remember.append_turn("user", "current turn", vec![]);
    let id = app.continue_session().expect("continue should succeed");
    let (message, _) = app.resume_session(&id, &first).expect("continue should succeed");
    assert!(message.contains("resumed session #s0001"), "{message}");
    assert_eq!(
        app.remember.current_session(),
        Some("s0001"),
        "continue must switch to the previous session"
    );
}

#[test]
fn inject_archive_summary_finds_latest_archived() {
    let mut app = test_app();
    for _ in 0..(MAX_FULL_SESSIONS + 1) {
        if let Some(oldest) = app.remember.start_session("now").oldest {
            let entry = summarize_session(&oldest, &vec![], "", "now");
            app.remember.keep_archived(entry);
        }
        app.remember.append_turn("user", "archived turn", vec![]);
    }
    assert!(!app.remember.archive().is_empty(), "archive must have entries");
    let id = app.remember.archive().last().unwrap().id.clone();
    let (message, _) = app.inject_archive_summary(&id).expect("inject should succeed");
    assert!(message.contains("remembered session"), "{message}");
    assert!(app.inject_archive_summary("s9999").is_err());
}

#[test]
fn remove_model_updates_current_and_clears_when_empty() {
    let mut app = test_app();
    app.add_model("alpha", "openai", "http://example.com", "k", None).unwrap();
    app.add_model("beta", "openai", "http://example.com", "k", None).unwrap();
    assert!(app.remove_model("alpha", None).is_ok());
    assert_eq!(app.current_model, "beta");
    assert!(app.remove_model("nope", None).is_err());
    assert!(app.remove_model("beta", None).is_ok());
    assert_eq!(app.current_model, "");
}

#[test]
fn clear_publishes_conversation_cleared() {
    let mut app = test_app();
    app.submit("some task", vec![]);
    assert!(matches!(app.clear(), Notice::ConversationCleared { .. }));
}

#[test]
fn submit_records_user_turn_into_remember() {
    let mut app = test_app();
    app.remember.start_session("now");
    let turns = app.submit("record me", vec![]).0.unwrap();
    assert_eq!(turns.len(), 1);
    assert_eq!(turns[0].role, "user");
    assert_eq!(turns[0].content, "record me");
}

#[test]
fn cancelled_calls_end_in_silence() {
    let mut app = test_app();
    let calls = match planned(&mut app, "ls", Json::Object(vec![])) {
        (ToolPlan::Execute(calls), _) => calls,
        _ => panic!("expected the call to run"),
    };
    let told = app.cancel_tools(&vec![("id".to_string(), "ls".to_string())]);
    assert!(!told.is_empty());
    assert!(run(&mut app, &calls[0], "late").is_empty());
    assert!(app.executed_calls.is_empty());
}

#[test]
fn every_default_tool_is_offered() {
    let app = test_app();
    let around = Surroundings {
        os: "linux".into(),
        arch: "x86_64".into(),
        shell: "sh".into(),
        rules: vec![],
        skills: vec![],
    };
    assert_eq!(app.tool_definitions(&around).len(), 16);
    assert_eq!(app.context_limit(), prognosis::app::models::context_window(""));
}

#[test]
fn the_adapter_follows_the_keys() {
    assert_eq!(pick_adapter(Some("deepseek"), false, false), AdapterKind::DeepSeek);
    assert_eq!(pick_adapter(None, false, true), AdapterKind::OpenAi);
    assert_eq!(pick_adapter(None, true, false), AdapterKind::DeepSeek);
}

#[test]
fn rules_are_toggled() {
    let mut app = test_app();
    let off = app.toggle_rule(None, "alpha");
    assert!(!off.enabled);
    let on = app.toggle_rule(off.state.as_deref(), "alpha");
    assert!(on.enabled);
}

#[test]
fn traces_are_shortened() {
    assert_eq!(truncate("short", 10), "short");
    assert!(truncate("abcdef", 3).starts_with("abc"));
    assert!(!is_correction_broken("fine"));
}

#[test]
fn calls_are_told_apart_by_name_and_arguments() {
    let mut app = test_app();
    app.executed_calls.push(ExecutedCall { name: "ls".to_string(), arguments: "{}".to_string() });
    assert!(app.is_duplicate("ls", "{}"));
    assert!(!app.is_duplicate("ls", "{\"dirPath\":\"a\"}"));
    assert!(!app.is_duplicate("read_file", "{}"));
}

#[test]
fn approvals_survive_a_restart() {
    let mut app = test_app();
    app.remember_approval("run_terminal_command");
    app.remember_approval("a \"b\"\u{1}桌");
    let text = app.save_approvals();
    assert_eq!(text, "[\"a \\\"b\\\"\\u0001桌\",\"run_terminal_command\"]");
    let again = app_with(Some(&text));
    assert_eq!(again.approvals(), app.approvals());
    assert!(again.is_approved("run_terminal_command"));
    assert!(!again.is_approved("ls"));
}

#[test]
fn approvals_are_a_list_of_texts() {
    assert_eq!(read_approvals(Some(r#"["b", "a", "b"]"#)), vec!["b", "a", "b"]);
    assert_eq!(*app_with(Some(r#"["b", "a", "b"]"#)).approvals(), vec!["a", "b"]);
    for text in ["", "{}", "[1]", r#"["a", 1]"#, r#"{"a": ["b"]}"#, r#"["a""#, "null"] {
        assert!(read_approvals(Some(text)).is_empty(), "{text}");
    }
    assert!(read_approvals(None).is_empty());
    assert_eq!(approvals_text(&vec![]), "[]");
}
