use prognosis::adapter::types::ReasoningEffort;
use prognosis::frontend::commands::{
    all_commands, execute, filtered, format_tool_trace, format_traces, resume_arg, Action, COMMANDS,
};
use prognosis::frontend::hitokoto::{
    build_source, fallback_at, fallback_hitokoto, quotation, FALLBACKS,
};
use prognosis::frontend::logo::{pick_tip, tip_at, TIPS};
use prognosis::frontend::state::SelectorKind;
use prognosis::frontend::theme::{
    divider_style, meta_style, spinner_frame, text_style, Color, Style, SPINNER_LEN,
};
use prognosis::json::Json;
use prognosis::runtime::{ActionCandidate, Modulation, TraceRecord};

#[test]
fn command_filter_matches_prefix() {
    let all = filtered("");
    assert_eq!(all.len(), COMMANDS.len());
    assert!(all.iter().any(|(name, _)| name == "history"));
    assert!(all.iter().any(|(name, _)| name == "resume"));
    assert!(all.iter().any(|(name, _)| name == "trace"));
    assert!(all.iter().any(|(name, _)| name == "clear"));
    let models = filtered("mo");
    assert_eq!(models.len(), 1);
    assert_eq!(models[0].0, "models");
    let none = filtered("zz");
    assert!(none.is_empty());
}

#[test]
fn command_filter_ignores_case() {
    let models = filtered("MO");
    assert_eq!(models.len(), 1);
    assert_eq!(models[0].0, "models");
}

#[test]
fn execute_returns_actions() {
    assert!(matches!(execute("status"), Some(Action::ShowStatus)));
    assert!(matches!(execute("compact"), Some(Action::Compact)));
    assert!(matches!(
        execute("history"),
        Some(Action::OpenSelector(SelectorKind::History))
    ));
    assert!(matches!(execute("continue"), Some(Action::ContinueSession)));
    assert!(matches!(execute("trace"), Some(Action::ShowTrace)));
    assert!(matches!(execute("supervisor"), Some(Action::ToggleSupervisor)));
    assert!(matches!(execute("clear"), Some(Action::ClearConversation)));
    assert!(matches!(execute("resume"), Some(Action::ResumeSession(_))));
    assert!(execute("nope").is_none());
}

#[test]
fn every_listed_command_does_something() {
    for (name, _) in COMMANDS {
        assert!(execute(name).is_some(), "{name}");
    }
}

#[test]
fn resume_arg_extracts_id() {
    assert_eq!(resume_arg("resume s0001"), Some("s0001".to_string()));
    assert_eq!(resume_arg("resume  12 "), Some("12".to_string()));
    assert_eq!(resume_arg("resume"), None);
    assert_eq!(resume_arg("resume "), None);
    assert_eq!(resume_arg("models"), None);
}

#[test]
fn format_traces_renders_recent_lines() {
    let traces = vec![TraceRecord {
        cycle_id: 3,
        modulation: Some(Modulation { reasoning_effort: Some(ReasoningEffort::High) }),
        error_before: Some("0.40".into()),
        error_after: Some("0.10".into()),
        decision: Some(ActionCandidate::CallTool {
            name: "read_file".into(),
            arguments: Json::Object(vec![("filepath".into(), Json::Text("a.rs".into()))]),
            tool_call_id: None,
        }),
        retrieval: Some("episodic: asked about weather".into()),
        memory_writes: vec!["episodic s0.52".into()],
        prediction_direction: Some("+0.30".into()),
        prediction_sentiment: Some("+0.20".into()),
        prediction_reaction: Some("surprised".into()),
    }];
    let text = format_traces(&traces);
    assert!(text.contains("#3"), "{text}");
    assert!(text.contains("rpe 0.40→0.10"), "{text}");
    assert!(text.contains("pred +0.30"), "{text}");
    assert!(text.contains("sent +0.20"), "{text}");
    assert!(text.contains("(surprised)"), "{text}");
    assert!(text.contains("tool read_file"), "{text}");
    assert!(text.contains("mod High"), "{text}");
    assert!(text.contains("mem: episodic: asked about weather"), "{text}");
    assert!(text.contains("wrote: episodic s0.52"), "{text}");
}

#[test]
fn format_traces_empty() {
    assert_eq!(format_traces(&vec![]), "(no trace records yet)");
    assert!(!format_tool_trace(&vec![]).is_empty());
}

#[test]
fn fallbacks_are_non_empty_and_unique() {
    assert!(!FALLBACKS.is_empty());
    let mut seen = std::collections::HashSet::new();
    for (text, _) in FALLBACKS {
        assert!(!text.is_empty());
        assert!(seen.insert(text), "duplicate fallback: {text}");
    }
}

#[test]
fn source_formats_combinations() {
    assert_eq!(
        build_source(&Some("临安春雨初霁".into()), &Some("陆游".into())),
        Some("陆游《临安春雨初霁》".to_string())
    );
    assert_eq!(
        build_source(&Some("临安春雨初霁".into()), &None),
        Some("《临安春雨初霁》".to_string())
    );
    assert_eq!(
        build_source(&None, &Some("陆游".into())),
        Some("陆游".to_string())
    );
    assert_eq!(build_source(&None, &None), None);
    assert_eq!(build_source(&Some("  ".into()), &Some("".into())), None);
}

#[test]
fn picked_fallback_is_from_list() {
    let picked = fallback_hitokoto();
    assert!(FALLBACKS.iter().any(|(text, _)| *text == picked.text));
    assert_eq!(fallback_at(6).source.as_deref(), Some("海子"));
    assert!(quotation("  ", &None, &None).is_none());
    assert_eq!(quotation("x", &None, &Some("y".into())).unwrap().source.as_deref(), Some("y"));
}

#[test]
fn tips_are_non_empty_and_unique() {
    assert!(!TIPS.is_empty());
    let mut seen = std::collections::HashSet::new();
    for tip in TIPS {
        assert!(!tip.is_empty());
        assert!(seen.insert(tip), "duplicate tip: {tip}");
    }
}

#[test]
fn picked_tip_is_from_list() {
    let tip = pick_tip();
    assert!(TIPS.contains(&tip));
    assert_eq!(tip_at(0), TIPS[0]);
}

#[test]
fn every_tip_can_be_picked() {
    let mut seen = std::collections::HashSet::new();
    for _ in 0..20_000 {
        seen.insert(pick_tip());
    }
    assert_eq!(seen.len(), TIPS.len());
}

#[test]
fn palette_colors_are_distinct() {
    let colors = [
        Color::Pink,
        Color::Green,
        Color::Red,
        Color::Purple,
        Color::Meta,
        Color::Divider,
        Color::Text,
    ];
    for (i, a) in colors.iter().enumerate() {
        for b in colors.iter().skip(i + 1) {
            assert_ne!(a.rgb(), b.rgb());
        }
    }
}

#[test]
fn spinner_is_non_empty() {
    assert!(SPINNER_LEN > 0);
    assert_eq!(spinner_frame(0), spinner_frame(SPINNER_LEN));
}

#[test]
fn all_commands_are_listed_in_order() {
    let all = all_commands();
    assert_eq!(all.len(), COMMANDS.len());
    for (listed, command) in all.iter().zip(COMMANDS.iter()) {
        assert_eq!((listed.0.as_str(), listed.1.as_str()), *command);
    }
}

#[test]
fn ordinary_styles_are_plain() {
    assert_eq!(text_style(), Style::colored(Color::Text));
    assert_eq!(meta_style(), Style::colored(Color::Meta));
    assert_eq!(divider_style(), Style::colored(Color::Divider));
}
