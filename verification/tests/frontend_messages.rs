use prognosis::frontend::messages::{clean_output, handle_event, status_of, truncate, Moment};
use prognosis::frontend::state::{ToolStatus, UiMessage, UiState};
use prognosis::json::Json;
use prognosis::number::Single;
use prognosis::runtime::{ActionCandidate, DriveState, Event, PerceptionSource};
use prognosis::text::string_of;

fn ui() -> UiState {
    UiState::new("tip".to_string(), 0)
}

fn at() -> Moment {
    Moment { now: 0, time_of_day: "12:00".into(), turn_length: "0.0s".into() }
}

fn single(value: f32) -> Single {
    Single { bits: value.to_bits() }
}

fn call(name: &str, key: &str, value: &str, id: &str) -> Event {
    let arguments = if key.is_empty() {
        Json::Object(vec![])
    } else {
        Json::Object(vec![(key.to_string(), Json::Text(value.to_string()))])
    };
    Event::ActionSelected {
        candidate: ActionCandidate::CallTool {
            name: name.to_string(),
            arguments,
            tool_call_id: Some(id.to_string()),
        },
    }
}

fn result(output: &str, id: &str, verdict: Option<&str>) -> Event {
    Event::ToolResult {
        output: output.to_string(),
        tool_call_id: Some(id.to_string()),
        verdict: verdict.map(str::to_string),
    }
}

#[test]
fn user_perception_pushes_user_message() {
    let mut ui = ui();
    handle_event(
        &mut ui,
        Event::Perception { source: PerceptionSource::User, content: "hello".into() },
        &at(),
    );
    assert!(matches!(ui.messages[0], UiMessage::User { .. }));
}

#[test]
fn chunks_stream_into_assistant_message() {
    let mut ui = ui();
    let chunk = |content: Option<&str>, reasoning: Option<&str>| Event::Chunk {
        content: content.map(str::to_string),
        reasoning: reasoning.map(str::to_string),
    };
    handle_event(&mut ui, chunk(Some("hel"), Some("think")), &at());
    handle_event(&mut ui, chunk(Some("lo"), None), &at());
    match &ui.messages[0] {
        UiMessage::Assistant { content, reasoning } => {
            assert_eq!(content, "hello");
            assert_eq!(reasoning, "think");
        }
        _ => panic!("expected assistant message"),
    }
}

#[test]
fn tool_call_lifecycle_updates_status() {
    let mut ui = ui();
    let action = handle_event(&mut ui, call("read_file", "filepath", "a.rs", "call_1"), &at());
    assert!(action.is_some(), "tool calls must be forwarded for execution");
    match &ui.messages[0] {
        UiMessage::ToolCall(call) => assert_eq!(call.arguments, r#"{"filepath":"a.rs"}"#),
        _ => panic!("expected tool call message"),
    }
    handle_event(&mut ui, result("fn main() {}", "call_1", Some("allowed")), &at());
    match &ui.messages[0] {
        UiMessage::ToolCall(call) => {
            assert_eq!(call.status, ToolStatus::Done);
            assert_eq!(call.summary, "fn main() {}");
        }
        _ => panic!("expected tool call message"),
    }
}

#[test]
fn compact_clears_conversation() {
    let mut ui = ui();
    ui.push_user("hi", "12:00");
    handle_event(&mut ui, Event::CompactContext { summary: "summary text".into() }, &at());
    assert_eq!(ui.messages.len(), 1);
    match &ui.messages[0] {
        UiMessage::System { content } => assert!(content.contains("summary text")),
        _ => panic!("expected system message"),
    }
}

#[test]
fn tool_call_action_ends_streaming() {
    let mut ui = ui();
    ui.append_stream("some text", "");
    assert!(ui.is_generating());
    let _ = handle_event(&mut ui, call("ls", "", "", "call_x"), &at());
    assert!(!ui.is_generating(), "tool execution must clear streaming");
    assert!(ui.has_running_tool());
}

#[test]
fn conversation_cleared_clears_messages() {
    let mut ui = ui();
    ui.push_user("hi", "12:00");
    handle_event(&mut ui, Event::ConversationCleared, &at());
    assert_eq!(ui.messages.len(), 1);
    match &ui.messages[0] {
        UiMessage::System { content } => assert!(content.contains("Conversation cleared")),
        _ => panic!("expected system message"),
    }
}

#[test]
fn drive_update_populates_cognitive_snapshot() {
    let mut ui = ui();
    handle_event(
        &mut ui,
        Event::DriveUpdate {
            drives: DriveState {
                homeostatic: single(0.7),
                curiosity: single(0.4),
                salience: single(0.9),
            },
        },
        &at(),
    );
    assert_eq!(ui.cognitive.drive_homeostatic, single(0.7));
    assert_eq!(ui.cognitive.drive_curiosity, single(0.4));
    assert_eq!(ui.cognitive.drive_salience, single(0.9));
}

#[test]
fn stream_end_tracks_latest_context_prompt_tokens() {
    let mut ui = ui();
    handle_event(&mut ui, Event::StreamEnd { prompt_tokens: Some(8000) }, &at());
    handle_event(&mut ui, Event::StreamEnd { prompt_tokens: Some(12000) }, &at());
    assert_eq!(
        ui.context_tokens, 12000,
        "context length is the latest prompt_tokens, not accumulated spend"
    );
}

#[test]
fn rpe_updates_cognitive_snapshot() {
    let mut ui = ui();
    handle_event(&mut ui, Event::Rpe { rpe: single(0.6) }, &at());
    assert_eq!(ui.cognitive.rpe, Some(single(0.6)));
}

#[test]
fn tool_result_denied_marks_denied() {
    let mut ui = ui();
    let _ = handle_event(
        &mut ui,
        call("run_terminal_command", "command", "rm -rf /", "call_2"),
        &at(),
    );
    handle_event(&mut ui, result("user denied the tool call", "call_2", None), &at());
    match &ui.messages[0] {
        UiMessage::ToolCall(call) => assert_eq!(call.status, ToolStatus::Denied),
        _ => panic!("expected tool call message"),
    }
}

#[test]
fn corrected_result_marks_done_not_errored() {
    let mut ui = ui();
    let _ = handle_event(&mut ui, call("grep_search", "query", "useEffect", "call_3"), &at());
    handle_event(
        &mut ui,
        result(
            "(Tool call corrected by supervisor: the original grep_search call was repaired and executed instead as grep_search({\"query\": \"useEffect\", \"path\": \"src\"}) — review this result with the corrected call in mind)\n./src/a.tsx:  useEffect",
            "call_3",
            Some("corrected"),
        ),
        &at(),
    );
    match &ui.messages[0] {
        UiMessage::ToolCall(call) => {
            assert_eq!(
                call.status,
                ToolStatus::Done,
                "a corrected call executed successfully and must not render as errored"
            );
            assert_eq!(call.verdict.as_deref(), Some("corrected"));
        }
        _ => panic!("expected tool call message"),
    }
}

#[test]
fn after_a_break_nothing_is_shown_or_run() {
    let mut ui = ui();
    ui.cancelled = true;
    handle_event(&mut ui, Event::Chunk { content: Some("x".into()), reasoning: None }, &at());
    assert!(ui.messages.is_empty());
    assert!(handle_event(&mut ui, call("ls", "", "", "call_1"), &at()).is_none());
    assert!(ui.messages.is_empty());
}

#[test]
fn outputs_are_cleaned_and_shortened() {
    let clean = clean_output("\u{1b}[31mred\u{1b}[0m text");
    assert_eq!(string_of(&clean), "red text");
    let long: Vec<char> = "abcdef".chars().collect();
    assert!(truncate(&long, 3).starts_with("abc"));
    assert_eq!(truncate(&long, 6), "abcdef");
    assert_eq!(status_of("ok", &None), ToolStatus::Done);
}
