use prognosis::adapter::types::{CompletionRequest, ReasoningEffort, Role};
use prognosis::app::supervisor::{
    correct, correction_verdict, local_guard_reason, parse_calls, parse_verdict, Judged, Supervisor,
    ToolCallRecord, Verdict,
};

fn record(name: &str, arguments: &str, output: &str) -> ToolCallRecord {
    ToolCallRecord { name: name.into(), arguments: arguments.into(), output: output.into() }
}

fn pending_call() -> ToolCallRecord {
    record("edit_file", "src/main.rs", "")
}

fn enabled() -> Supervisor {
    let mut supervisor = Supervisor::new();
    supervisor.set_enabled(true);
    supervisor
}

#[test]
fn local_guard_blocks_destructive_and_editing_commands() {
    let blocked = [
        r#"{"command":"rm -rf ~"}"#,
        r#"{"command":"rm -rf /tmp"}"#,
        r#"{"command":"sed -i 's/a/b/' x.py"}"#,
        r#"{"command":"perl -i -pe 's/a/b/' x.py"}"#,
        r#"{"command":"git reset --hard"}"#,
        r#"{"command":"git checkout -- src/a.rs"}"#,
        r#"{"command":"echo hi > x.py"}"#,
        r#"{"command":"mv a b"}"#,
    ];
    for args in blocked {
        let pending = record("run_terminal_command", args, "");
        assert!(local_guard_reason(&pending).is_some(), "must block: {args}");
    }
    let allowed = [
        r#"{"command":"ls -la"}"#,
        r#"{"command":"sed -n '1,20p' x.py"}"#,
        r#"{"command":"cat -A x.py"}"#,
        r#"{"command":"python3 -m pytest"}"#,
    ];
    for args in allowed {
        let pending = record("run_terminal_command", args, "");
        assert!(local_guard_reason(&pending).is_none(), "must allow: {args}");
    }
    let non_shell = record("read_file", r#"{"filepath":"a.rs"}"#, "");
    assert!(local_guard_reason(&non_shell).is_none());
}

#[test]
fn guard_ignores_case() {
    assert!(local_guard_reason(&record("run_terminal_command", r#"{"command":"RM -RF /"}"#, ""))
        .is_some());
}

#[test]
fn judge_prompt_warns_about_truncated_traces_and_allows_verification() {
    let supervisor = Supervisor::new();
    let prompt = supervisor.judge_prompt();
    assert!(
        prompt.contains("outputs may be truncated and the assistant may have seen the full output"),
        "judge must know traces can be truncated: {prompt}"
    );
    assert!(
        prompt.contains("editing a file with no prior read of that file in the trace is a violation"),
        "judge must block unread edits: {prompt}"
    );
    assert!(
        prompt.contains("Read-only shell inspection"),
        "judge must allow read-only shell inspection: {prompt}"
    );
}

#[test]
fn plausible_call_is_allowed() {
    let mut supervisor = enabled();
    let judged = supervisor.judged(
        Some(r#"{"pass":true,"reason":"satisfactory","action":"regenerate"}"#),
        &pending_call(),
    );
    assert!(matches!(judged, Judged::Verdict(Verdict::Allow)));
}

#[test]
fn flawed_call_regenerates_and_accumulates_pattern() {
    let mut supervisor = enabled();
    let judged = supervisor.judged(
        Some(r#"{"pass":false,"reason":"no read before edit","action":"regenerate"}"#),
        &pending_call(),
    );
    match judged {
        Judged::Verdict(Verdict::Regenerate { reason }) => {
            assert_eq!(reason, "no read before edit");
        }
        _ => panic!("expected regenerate verdict"),
    }
    assert_eq!(*supervisor.failure_patterns(), vec!["no read before edit"]);
    assert!(supervisor.judge_prompt().contains("no read before edit"));
}

#[test]
fn only_the_last_failures_are_kept() {
    let mut supervisor = enabled();
    for i in 0..25 {
        let reply = format!(r#"{{"pass":false,"reason":"flaw {i}","action":"regenerate"}}"#);
        supervisor.judged(Some(&reply), &pending_call());
    }
    assert_eq!(supervisor.failure_patterns().len(), 20);
    assert_eq!(supervisor.failure_patterns()[19], "flaw 24");
}

#[test]
fn disabled_supervisor_allows_without_call() {
    let supervisor = Supervisor::new();
    assert!(supervisor.judge("fix a bug", &vec![], &pending_call()).is_none());
}

#[test]
fn correct_action_returns_fixed_call_sequence() {
    let mut supervisor = enabled();
    let pending = record("run_command", "cat src/main.rs", "");
    let judged = supervisor
        .judged(Some(r#"{"pass":false,"reason":"wrong tool","action":"correct"}"#), &pending);
    let reason = match judged {
        Judged::Correct { reason } => reason,
        _ => panic!("expected a correction"),
    };
    let verdict = correction_verdict(
        Some(r#"{"calls":[{"tool":"read_file","arguments":{"path":"src/main.rs"}}]}"#),
        reason,
    );
    match verdict {
        Verdict::Corrected { calls } => {
            assert_eq!(calls.len(), 1);
            assert_eq!(calls[0].name, "read_file");
            assert_eq!(calls[0].arguments, r#"{"path":"src/main.rs"}"#);
        }
        _ => panic!("expected corrected verdict"),
    }
}

#[test]
fn correct_failure_falls_back_to_regenerate() {
    assert!(matches!(
        correction_verdict(Some("not json"), "wrong tool".into()),
        Verdict::Regenerate { .. }
    ));
    assert!(matches!(
        correction_verdict(None, "wrong tool".into()),
        Verdict::Regenerate { .. }
    ));
}

#[test]
fn without_a_reply_the_guard_decides() {
    let mut supervisor = enabled();
    let judged = supervisor.judged(None, &pending_call());
    assert!(matches!(judged, Judged::Verdict(Verdict::Allow)));
    let risky = record("run_terminal_command", r#"{"command":"mv a b"}"#, "");
    let judged = supervisor.judged(Some("no json"), &risky);
    assert!(matches!(judged, Judged::Verdict(Verdict::Regenerate { .. })));
}

#[test]
fn tool_trace_and_pending_call_are_included_in_judge_input() {
    let supervisor = enabled();
    let trace = vec![record("read_file", "src/main.rs", "fn main() {}")];
    let (_, seen) = supervisor.judge("fix the bug", &trace, &pending_call()).unwrap();
    assert!(seen.contains("Tools used so far"));
    assert!(seen.contains("1. read_file(src/main.rs) -> fn main() {}"));
    assert!(seen.contains("Pending tool call: edit_file(src/main.rs)"));
    let (prompt, asked) =
        correct("fix the bug", &trace, &pending_call(), &vec!["ls".to_string()], "wrong tool");
    assert!(prompt.contains("Use only the available tools: ls."), "{prompt}");
    assert!(asked.ends_with("wrong tool"), "{asked}");
}

#[test]
fn judge_and_correct_calls_disable_thinking() {
    let request = CompletionRequest::light("instruction", "question");
    assert_eq!(
        request.params.reasoning_effort,
        Some(ReasoningEffort::NoReasoning),
        "light calls must disable thinking"
    );
    assert!(request.params.temperature.is_some(), "light calls should be deterministic");
    assert_eq!(request.messages[0].role, Role::System);
    assert_eq!(request.messages[1].content.to_plain_text(), "question");
}

#[test]
fn verdict_json_parsing() {
    assert_eq!(
        parse_verdict(r#"{"pass":true,"reason":"ok"}"#),
        Some((true, "ok".to_string(), None))
    );
    assert_eq!(
        parse_verdict(r#"{"pass":false,"reason":"bad","action":"regenerate"}"#),
        Some((false, "bad".to_string(), Some("regenerate".to_string())))
    );
    assert_eq!(parse_verdict("not json"), None);
}

#[test]
fn calls_json_parsing() {
    let calls = parse_calls(
        r#"{"calls":[{"tool":"read_file","arguments":{"path":"a.rs"}},{"tool":"edit_file","arguments":{"path":"a.rs"}}]}"#,
    )
    .unwrap();
    assert_eq!(calls.len(), 2);
    assert_eq!(calls[0].name, "read_file");
    assert_eq!(calls[1].name, "edit_file");
    assert!(parse_calls("not json").is_none());
    assert_eq!(parse_calls(r#"{"calls":[]}"#).map(|c| c.len()), Some(0));
}

#[test]
fn replies_may_hold_more_than_json() {
    assert_eq!(
        parse_verdict("Sure:\n```json\n{\"pass\":true,\"reason\":\"a } b\"}\n```"),
        Some((true, "a } b".to_string(), None))
    );
}
