use prognosis::adapter::error::AdapterError;
use prognosis::app::models::{
    build_client, context_window, default_model_name, merge_stores, no_model_error, ClientBuilder,
    ModelEntry, ModelsStore,
};
use prognosis::app::remember::{
    archive_question, compact, pair_dialogue, summarize_session, transcript, ConversationTurn,
    Remember, MAX_FULL_SESSIONS,
};

const REPLY: &str =
    r#"{"summary":"user asked about weather","highlights":["weather","forecast"]}"#;

fn turn(role: &str, content: &str) -> ConversationTurn {
    ConversationTurn { role: role.into(), content: content.into() }
}

fn entry(name: &str, kind: &str, base_url: &str, api_key: &str) -> ModelEntry {
    ModelEntry {
        name: name.into(),
        kind: kind.into(),
        base_url: base_url.into(),
        api_key: api_key.into(),
    }
}

#[test]
fn session_rollover_archives_oldest() {
    let mut remember = Remember::new(vec![], vec![]);
    let mut kept: Vec<ConversationTurn> = vec![];
    for _ in 0..MAX_FULL_SESSIONS {
        assert!(remember.start_session("now").oldest.is_none());
        let turns = remember.append_turn("user", "hello", vec![]).unwrap();
        kept = remember.append_turn("assistant", "hi there", turns).unwrap();
    }
    assert_eq!(remember.list_sessions().len(), MAX_FULL_SESSIONS);
    assert!(remember.archive().is_empty());

    let oldest = remember.start_session("now").oldest.unwrap();
    remember.keep_archived(summarize_session(&oldest, &kept, REPLY, "now"));
    assert_eq!(
        remember.list_sessions().len(),
        MAX_FULL_SESSIONS - 1,
        "an empty session is not registered until its first turn"
    );
    assert_eq!(remember.archive().len(), 1);
    remember.append_turn("user", "after rollover", vec![]);
    assert_eq!(remember.list_sessions().len(), MAX_FULL_SESSIONS);
    assert_eq!(remember.archive()[0].summary, "user asked about weather");
    assert_eq!(remember.archive()[0].highlights, vec!["weather", "forecast"]);
    assert_eq!(remember.archive()[0].id, "s0001");
}

#[test]
fn turns_are_persisted_and_loaded() {
    let mut remember = Remember::new(vec![], vec![]);
    remember.start_session("now");
    let turns = remember.append_turn("user", "hello", vec![]).unwrap();
    let turns = remember.append_turn("assistant", "hi", turns).unwrap();
    assert_eq!(turns.len(), 2);
    assert_eq!(turns[0].role, "user");
    assert_eq!(turns[1].content, "hi");
}

#[test]
fn tool_turns_persist_but_do_not_set_summary() {
    let mut remember = Remember::new(vec![], vec![]);
    let id = remember.start_session("now").id;
    let turns = remember.append_turn("user", "hello", vec![]).unwrap();
    let turns =
        remember.append_turn("tool", "ls({\"dirPath\":\".\"}) -> src/ [allowed]", turns).unwrap();
    assert_eq!(turns.len(), 2);
    assert_eq!(turns[1].role, "tool");
    assert!(turns[1].content.contains("ls("), "{}", turns[1].content);
    let meta = remember.list_sessions().iter().find(|m| m.id == id).unwrap();
    assert_eq!(meta.summary, "hello", "summary must come from the user turn only");
    assert_eq!(meta.turns, 2);
}

#[test]
fn resume_selects_existing_session() {
    let mut remember = Remember::new(vec![], vec![]);
    let id = remember.start_session("now").id;
    remember.append_turn("user", "keep this", vec![]);
    let mut loaded = Remember::new(remember.list_sessions().clone(), vec![]);
    assert!(loaded.set_current(&id));
    assert_eq!(loaded.current_session(), Some(id.as_str()));
    assert!(!loaded.set_current("s9999"));
    assert_eq!(loaded.current_session(), Some(id.as_str()));
}

#[test]
fn without_a_session_nothing_is_recorded() {
    let mut remember = Remember::new(vec![], vec![]);
    assert!(remember.append_turn("user", "lost", vec![]).is_none());
    assert!(remember.list_sessions().is_empty());
    assert!(remember.previous_session().is_none());
}

#[test]
fn dialogues_pair_users_with_answers() {
    let turns = vec![
        turn("user", "a"),
        turn("user", "b"),
        turn("tool", "ignored"),
        turn("assistant", "c"),
        turn("assistant", "  "),
        turn("assistant", "d"),
    ];
    let pairs = pair_dialogue(&turns);
    assert_eq!(pairs.len(), 1);
    assert_eq!((pairs[0].user.as_str(), pairs[0].assistant.as_str()), ("b", "c\nd"));
    assert!(transcript(&turns).contains("user: a"));
}

#[test]
fn unreadable_summaries_fall_back() {
    let mut remember = Remember::new(vec![], vec![]);
    remember.start_session("now");
    remember.append_turn("user", "hello", vec![]);
    let meta = remember.list_sessions()[0].duplicate();
    let kept = summarize_session(&meta, &vec![turn("user", "hello")], "not json", "then");
    assert_eq!(kept.id, meta.id);
    assert_eq!(kept.archived_at, "then");
    assert_eq!(kept.summary, "hello");
    assert_eq!(kept.highlights, vec!["hello"]);
    assert!(archive_question(&vec![]).is_none());
    assert!(archive_question(&vec![turn("user", "hello")]).unwrap().contains("hello"));
    assert_eq!(compact("transcript", Some("short")), "short");
    assert!(!compact("transcript", None).is_empty());
}

#[test]
fn store_roundtrip() {
    let mut store = ModelsStore::new();
    store.upsert(entry("m1", "openai", "", ""));
    store.current = "m1".into();
    assert_eq!(store.get("m1").map(|e| e.kind.as_str()), Some("openai"));
    store.upsert(entry("m1", "deepseek", "", ""));
    assert_eq!(store.names(), vec!["m1"]);
    assert_eq!(store.get("m1").map(|e| e.kind.as_str()), Some("deepseek"));
    assert!(store.remove("m1"));
    assert!(!store.remove("m1"));
    assert!(store.get("m1").is_none());
}

#[test]
fn migrate_from_project_merges_key_into_global() {
    let mut global = ModelsStore::new();
    let mut project = ModelsStore::new();
    project.upsert(entry("deepseek-v4-flash", "deepseek", "https://api.deepseek.com", "sk-secret"));
    project.current = "deepseek-v4-flash".into();
    merge_stores(&mut global, &project);
    assert_eq!(global.current, "deepseek-v4-flash");
    let moved = global.get("deepseek-v4-flash").unwrap();
    assert_eq!(moved.api_key, "sk-secret", "key must move to global");
    assert_eq!(moved.base_url, "https://api.deepseek.com");

    global.upsert(entry("m2", "openai", "", "sk-2"));
    let mut again = ModelsStore::new();
    again.upsert(entry("deepseek-v4-flash", "deepseek", "", "sk-new"));
    merge_stores(&mut global, &again);
    assert_eq!(
        global.get("deepseek-v4-flash").unwrap().api_key,
        "sk-secret",
        "existing global key must not be overwritten by re-migration"
    );
    assert!(global.get("m2").is_some(), "existing global entries survive");
}

#[test]
fn window_table() {
    assert_eq!(context_window("deepseek-v4-flash"), 1_000_000);
    assert_eq!(context_window("gpt-4o"), 128_000);
    assert_eq!(context_window("gpt-5"), 400_000);
}

#[test]
fn placeholder_errors_with_guidance() {
    match no_model_error() {
        AdapterError::Config { adapter, message } => {
            assert_eq!(adapter, "no-model");
            assert!(message.contains("run /models"), "got: {message}");
        }
        other => panic!("expected Config error, got {other:?}"),
    }
}

#[test]
fn window_table_ignores_case() {
    assert_eq!(context_window("DeepSeek-V4-Flash"), 1_000_000);
}

#[test]
fn clients_are_built_from_entries() {
    match build_client(&entry("m", "deepseek", "https://api.deepseek.com", "k")) {
        ClientBuilder::DeepSeek(builder) => {
            assert_eq!(builder.api_key.as_deref(), Some("k"));
            assert_eq!(builder.default_model.as_deref(), Some("m"));
        }
        ClientBuilder::OpenAi(_) => panic!("expected a DeepSeek client"),
    }
    match build_client(&entry("m", "openai", "", "")) {
        ClientBuilder::OpenAi(builder) => assert_eq!(builder.base_url, None),
        ClientBuilder::DeepSeek(_) => panic!("expected an OpenAI client"),
    }
    assert!(!default_model_name("openai").is_empty());
}
