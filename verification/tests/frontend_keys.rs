use prognosis::app::agent::{AdapterKind, App, AppConfig};
use prognosis::app::models::ModelsStore;
use prognosis::app::remember::Remember;
use prognosis::app::rules::{RuleContext, SkillContext};
use prognosis::frontend::choices::{
    finish_choice, report_continued, report_resumed, say_choice, say_toggled,
};
use prognosis::frontend::commands::{apply_action, open_selector, report, Action, Applied, Lists};
use prognosis::frontend::hitokoto::Hitokoto;
use prognosis::frontend::input::insert_text;
use prognosis::frontend::keys::{
    cancel_running_tools, finish_setup, flush_pending, format_title, handle_key, name_in_item,
    run_command, select_enter, selector_item_name, show_setup, Choice, Effect, Key, KeyCode,
};
use prognosis::frontend::layout::Piece;
use prognosis::frontend::panels::{
    draw, draw_gauge, draw_help, percent_used, Area, GitInfo, RenderCtx,
};
use prognosis::frontend::select::{rules_selector, Selector};
use prognosis::frontend::state::{Mode, SelectorKind, ToolStatus, UiMessage, UiState};
use prognosis::number::Duration;

fn ui() -> UiState {
    UiState::new("tip".to_string(), 0)
}

fn app() -> App {
    let config = AppConfig {
        adapter: AdapterKind::OpenAi,
        model: Some("m1".into()),
        supervisor_enabled: false,
        project_dir: "/project".into(),
        tick_interval: Duration::from_millis(100),
    };
    App::new(config, Remember::new(vec![], vec![]), ModelsStore::new(), None)
}

fn lists() -> Lists {
    Lists { rules: vec![], rules_off: vec![], skills: vec![], skills_off: vec![], traces: vec![] }
}

fn press(ui: &mut UiState, code: KeyCode) -> Effect {
    handle_key(ui, Key { code, control: false, shift: false, alt: false }, 0)
}

fn press_with_control(ui: &mut UiState, c: char) -> Effect {
    handle_key(ui, Key { code: KeyCode::Char(c), control: true, shift: false, alt: false }, 0)
}

#[test]
fn typed_text_is_submitted() {
    let mut ui = ui();
    for c in "hi".chars() {
        press(&mut ui, KeyCode::Char(c));
    }
    match press(&mut ui, KeyCode::Enter) {
        Effect::Submit(said) => assert_eq!(said, "hi"),
        _ => panic!("expected a submission"),
    }
    assert_eq!(ui.input.buffer, "");
}

#[test]
fn text_waits_while_an_answer_streams() {
    let mut ui = ui();
    ui.append_stream("answer", "");
    insert_text(&mut ui.input, "next");
    assert!(matches!(press(&mut ui, KeyCode::Enter), Effect::Nothing));
    assert_eq!(ui.input.pending_submit, vec!["next"]);
    ui.finish_stream();
    assert_eq!(flush_pending(&mut ui).as_deref(), Some("next"));
    assert_eq!(flush_pending(&mut ui), None);
}

#[test]
fn a_slash_opens_the_commands() {
    let mut ui = ui();
    press(&mut ui, KeyCode::Char('/'));
    assert_eq!(ui.mode, Mode::Command);
    for c in "sta".chars() {
        press(&mut ui, KeyCode::Char(c));
    }
    match press(&mut ui, KeyCode::Enter) {
        Effect::Run(name) => assert_eq!(name, "status"),
        other => panic!("expected a command, got {other:?}"),
    }
    assert!(matches!(run_command(&mut ui, "status", false), Some(Action::ShowStatus)));
    assert!(ui.messages.is_empty());
}

#[test]
fn keys_with_control_break_off_and_quit() {
    let mut ui = ui();
    assert!(matches!(press_with_control(&mut ui, 'd'), Effect::Quit));
    ui.append_stream("answer", "");
    assert!(matches!(press_with_control(&mut ui, 'c'), Effect::CancelGeneration));
    assert!(!ui.is_generating());
    assert!(matches!(press_with_control(&mut ui, 'c'), Effect::Quit));
}

#[test]
fn approval_is_given_or_denied() {
    let mut ui = ui();
    ui.mode = Mode::Approve;
    match press(&mut ui, KeyCode::Enter) {
        Effect::Approve { approved, remember } => assert!(approved && !remember),
        _ => panic!("expected an answer"),
    }
    ui.mode = Mode::Approve;
    match press(&mut ui, KeyCode::BackTab) {
        Effect::Approve { approved, remember } => assert!(approved && remember),
        _ => panic!("expected an answer"),
    }
    ui.mode = Mode::Approve;
    match press(&mut ui, KeyCode::Esc) {
        Effect::Approve { approved, .. } => assert!(!approved),
        _ => panic!("expected an answer"),
    }
}

#[test]
fn running_tools_are_cancelled() {
    let mut ui = ui();
    ui.mark_tool_started("a".into(), "ls".into(), "{}".into(), 0);
    let calls = cancel_running_tools(&mut ui, 10);
    assert_eq!(calls, vec![("a".to_string(), "ls".to_string())]);
    assert!(!ui.has_running_tool());
    match &ui.messages[0] {
        UiMessage::ToolCall(call) => assert_ne!(call.status, ToolStatus::Running),
        _ => panic!("expected tool call message"),
    }
}

#[test]
fn a_selector_moves_and_chooses() {
    let mut selector = Selector::new(
        SelectorKind::History,
        "History".into(),
        vec!["a".into(), "b".into()],
        "hint".into(),
    );
    selector.move_down();
    assert_eq!(selector.current(), Some("b"));
    selector.move_down();
    assert_eq!(selector.current(), Some("a"));
    selector.move_up();
    assert_eq!(selector.current(), Some("b"));
    selector.move_up();
    let mut ui = ui();
    ui.mode = Mode::Selector;
    ui.selector = Some(selector);
    press(&mut ui, KeyCode::Down);
    match press(&mut ui, KeyCode::Enter) {
        Effect::Select { kind, item } => {
            assert_eq!(kind, SelectorKind::History);
            assert_eq!(item, "b");
        }
        _ => panic!("expected a choice"),
    }
}

#[test]
fn items_lead_to_choices() {
    assert!(matches!(
        select_enter(SelectorKind::Approvals, "ls"),
        Choice::Forget(name) if name == "ls"
    ));
    assert!(matches!(
        select_enter(SelectorKind::Models, "alpha"),
        Choice::SwitchModel(name) if name == "alpha"
    ));
    let rule = |name: &str| RuleContext {
        name: name.into(),
        rule: String::new(),
        description: "what it says".into(),
        globs: String::new(),
        regex: String::new(),
        always_apply: None,
    };
    let selector = rules_selector(&vec![rule("alpha")], &vec!["alpha".to_string()]);
    assert_eq!(selector_item_name(&selector.items[0]), "alpha — what it says");
    assert_eq!(name_in_item(&selector.items[0]), "alpha");
}

#[test]
fn actions_open_selectors_and_panels() {
    let mut app = app();
    let mut ui = ui();
    let done = apply_action(
        &mut app,
        &mut ui,
        Action::OpenSelector(SelectorKind::Approvals),
        &lists(),
    );
    assert!(matches!(done, Applied::Done));
    assert_eq!(ui.mode, Mode::Selector);
    assert!(matches!(
        apply_action(&mut app, &mut ui, Action::ToggleSupervisor, &lists()),
        Applied::Done
    ));
    assert!(app.supervisor.is_enabled());
    assert!(matches!(
        apply_action(&mut app, &mut ui, Action::ResumeSession("s0001".into()), &lists()),
        Applied::Resume(id) if id == "s0001"
    ));
    assert_eq!(open_selector(&app, SelectorKind::Tasks, &lists()).kind, SelectorKind::Tasks);
    report(&mut ui, Err("broken"), "done: ", "failed: ");
    match ui.messages.last() {
        Some(UiMessage::System { content }) => assert!(content.contains("broken"), "{content}"),
        _ => panic!("expected a remark"),
    }
}

#[test]
fn a_model_is_set_up() {
    let mut ui = ui();
    show_setup(&mut ui);
    assert_eq!(ui.mode, Mode::Setup);
    press(&mut ui, KeyCode::Char('x'));
    let setup = ui.setup.as_ref().unwrap();
    assert_eq!(setup.fields[0].1, "xdeepseek-v4-flash");
    finish_setup(&mut ui, Err("no key"));
    assert_eq!(ui.setup.as_ref().unwrap().error.as_deref(), Some("no key"));
    finish_setup(&mut ui, Ok("added"));
    assert!(ui.setup.is_none());
    assert_eq!(ui.mode, Mode::Chat);
}

#[test]
fn a_scene_is_drawn() {
    let mut ui = ui();
    ui.hitokoto = Some(Hitokoto { text: "text".into(), source: None });
    ui.push_user("hello there", "12:00");
    let ctx = RenderCtx::capture(&app(), "/project", 0);
    let git = GitInfo { project_name: "project".into(), branch: Some("main".into()) };
    let elapsed = vec![String::new()];
    let scene = draw(&mut ui, &ctx, &git, &elapsed, &vec![], 80, 24);
    assert!(scene.cursor.is_some());
    let text: Vec<String> = scene
        .panels
        .iter()
        .flat_map(|panel| panel.rows.iter())
        .map(|row: &Vec<Piece>| row.iter().map(|piece| piece.text.as_str()).collect())
        .collect();
    assert!(text.iter().any(|row| row.contains("hello there")), "{text:?}");
    assert!(text.iter().any(|row| row.contains("m1")), "{text:?}");
    for panel in &scene.panels {
        assert!(panel.area.x + panel.area.width <= 80);
        assert!(panel.area.y + panel.area.height <= 24);
    }
    assert!(git.display().contains("main"));
    assert!(format_title(&git.display(), "m1").contains("m1"));
}

#[test]
fn gauges_show_their_level() {
    assert_eq!(percent_used(50, 200), 25);
    assert_eq!(draw_gauge(3, 5).chars().count(), 5);
    assert_ne!(draw_gauge(0, 5), draw_gauge(5, 5));
    let area = Area { x: 0, y: 0, width: 80, height: 24 };
    let (panel, scroll) = draw_help(usize::MAX, area);
    assert!(!panel.rows.is_empty());
    assert!(scroll <= panel.rows.len());
}

#[test]
fn the_branch_is_what_git_printed() {
    let git = GitInfo::new(Some("project".to_string()), Some(&b" main\n".to_vec()));
    assert_eq!(git.display(), "project ⊦ main");
    let git = GitInfo::new(Some(String::new()), Some(&b"\n".to_vec()));
    assert_eq!(git.display(), ".");
    let git = GitInfo::new(None, None);
    assert_eq!(git.display(), ".");
}

#[test]
fn commands_wait_while_the_agent_is_busy() {
    let mut ui = ui();
    assert!(run_command(&mut ui, "status", true).is_none());
    assert!(matches!(run_command(&mut ui, "compact", true), Some(Action::Compact)));
    assert!(run_command(&mut ui, "nothing", true).is_none());
    assert_eq!(
        remarks(&ui),
        vec!["(busy: a tool is running, retry the command)", "unknown command: /nothing"]
    );
}

fn remarks(ui: &UiState) -> Vec<String> {
    ui.messages
        .iter()
        .map(|message| match message {
            UiMessage::System { content } => content.clone(),
            _ => panic!("expected a remark"),
        })
        .collect()
}

fn rule(name: &str, text: &str) -> RuleContext {
    RuleContext {
        name: name.into(),
        rule: text.into(),
        description: String::new(),
        globs: String::new(),
        regex: String::new(),
        always_apply: None,
    }
}

#[test]
fn choices_are_answered() {
    let rules = vec![rule("a", "first"), rule("b", "second"), rule("a", "third")];
    let skills = vec![SkillContext { name: "s".into(), description: "does it".into() }];
    let said = |choice: Choice, outcome: Result<&str, &str>| {
        say_choice(&choice, outcome, &rules, &skills)
    };
    let some = |text: &str| Some(text.to_string());
    assert_eq!(said(Choice::AddModel, Ok("x")), None);
    assert_eq!(said(Choice::ListModels, Ok("x")), None);
    assert_eq!(said(Choice::SwitchModel("m".into()), Ok("switched")), some("switched"));
    assert_eq!(said(Choice::SwitchModel("m".into()), Err("why")), some("(switch failed) why"));
    assert_eq!(said(Choice::RemoveModel("m".into()), Err("why")), some("(remove failed) why"));
    assert_eq!(said(Choice::Recall("i".into()), Err("why")), some("(remember failed) why"));
    assert_eq!(said(Choice::Resume("i".into()), Ok("resumed i")), some("resumed i"));
    assert_eq!(said(Choice::Resume("i".into()), Err("why")), some("(resume failed) why"));
    assert_eq!(said(Choice::CancelTask(3), Ok("task #3 not found")), some("task #3 not found"));
    assert_eq!(said(Choice::ShowRule("a".into()), Ok("")), some("Rule: a\n\nfirst"));
    assert_eq!(said(Choice::ShowRule("c".into()), Ok("")), None);
    assert_eq!(said(Choice::ShowSkill("s".into()), Ok("")), some("Skill: s\n\ndoes it"));
    assert_eq!(said(Choice::ShowSkill("a".into()), Ok("")), None);
    assert_eq!(said(Choice::Forget("ls".into()), Ok("")), some("forgot approval for ls"));
    assert_eq!(say_toggled(true, "a"), "enabled a");
    assert_eq!(say_toggled(false, "a"), "disabled a");
}

#[test]
fn answers_to_choices_bring_the_chat_back() {
    let mut ui = ui();
    ui.mode = Mode::Selector;
    finish_choice(&mut ui, None);
    assert_eq!(ui.mode, Mode::Chat);
    assert!(ui.messages.is_empty());
    ui.mode = Mode::Selector;
    finish_choice(&mut ui, Some("done".to_string()));
    report_continued(&mut ui, Ok("session #1"));
    report_continued(&mut ui, Err("none"));
    report_resumed(&mut ui, Ok("session #2"));
    report_resumed(&mut ui, Err("missing"));
    assert_eq!(ui.mode, Mode::Chat);
    assert_eq!(
        remarks(&ui),
        vec![
            "done",
            "(resumed) session #1",
            "(continue failed) none",
            "(resumed) session #2",
            "(resume failed) missing",
        ]
    );
}
