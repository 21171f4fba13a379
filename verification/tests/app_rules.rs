use prognosis::app::rules::{
    create_rule_block, disabled_names, find_rule_file, is_rule_enabled, is_skill_enabled, load_rules,
    load_rules_all, load_skills, load_skills_all, migrate_state, read_skill, sanitize_rule_name,
    set_disabled, set_rule_enabled, set_skill_enabled, NamedFile, RuleSpec, SkillSource,
};

fn file(name: &str, content: &str) -> NamedFile {
    NamedFile { name: name.into(), content: content.into() }
}

fn skill_file(name: &str, content: &str) -> SkillSource {
    SkillSource::File { name: name.into(), content: Ok(content.into()) }
}

fn skill_folder(name: &str, content: &str) -> SkillSource {
    SkillSource::Folder {
        name: name.into(),
        skill: Some(Ok(content.into())),
        files: vec!["SKILL.md".into()],
    }
}

#[test]
fn rule_toggle_persists_and_filters() {
    let files = vec![
        file("alpha.md", "---\ndescription: \"a\"\n---\nbody"),
        file("beta.md", "---\ndescription: \"b\"\n---\nbody"),
    ];
    let all = load_rules_all(&vec![], &files);
    assert_eq!(load_rules(&all, &disabled_names(None, "rules")).len(), 2);
    assert!(is_rule_enabled(None, "alpha"));

    let state = set_rule_enabled(None, "alpha", false).unwrap();
    assert!(!is_rule_enabled(Some(&state), "alpha"));
    assert_eq!(
        load_rules(&all, &disabled_names(Some(&state), "rules")).len(),
        1,
        "disabled rule must be filtered"
    );
    assert_eq!(all.len(), 2, "selector must see all rules");

    let state = set_rule_enabled(Some(&state), "alpha", true).unwrap();
    assert!(is_rule_enabled(Some(&state), "alpha"));
    assert_eq!(load_rules(&all, &disabled_names(Some(&state), "rules")).len(), 2);
}

#[test]
fn rule_block_roundtrip() {
    let block = create_rule_block(&RuleSpec {
        name: "Use Prop Types",
        rule: "Always use PropTypes",
        description: Some("For React components"),
        globs: Some("**/*.js"),
        regex: None,
        always_apply: Some(false),
        scope: None,
    })
    .unwrap();
    assert!(!block.global);
    let rules = load_rules_all(&vec![], &vec![file(&block.file_name, &block.content)]);
    assert_eq!(rules.len(), 1);
    assert_eq!(rules[0].name, "use-prop-types");
    assert_eq!(rules[0].description, "For React components");
    assert_eq!(rules[0].globs, "**/*.js");
    assert_eq!(rules[0].rule, "Always use PropTypes");
    assert_eq!(rules[0].always_apply, Some(false));
    let names = vec![block.file_name.clone()];
    assert_eq!(find_rule_file(&names, "Use Prop Types"), Ok(0));
    assert!(block.content.contains("Always use PropTypes"), "{}", block.content);
    assert!(block.content.contains("alwaysApply: false"), "{}", block.content);
    let err = find_rule_file(&names, "nope").unwrap_err();
    assert!(err.contains("not found"), "{err}");
}

#[test]
fn rules_merge_global_and_project_with_project_priority() {
    let global = vec![
        file("shared.md", "---\ndescription: \"global shared\"\n---\nglobal body"),
        file("conflict.md", "---\ndescription: \"global version\"\n---\nglobal conflict"),
    ];
    let project =
        vec![file("conflict.md", "---\ndescription: \"project version\"\n---\nproject conflict")];
    let rules = load_rules_all(&global, &project);
    assert_eq!(rules.len(), 2);
    let shared = rules.iter().find(|r| r.name == "shared").unwrap();
    assert_eq!(shared.description, "global shared");
    let conflict = rules.iter().find(|r| r.name == "conflict").unwrap();
    assert_eq!(conflict.description, "project version", "project must override global");
    assert_eq!(conflict.rule, "project conflict");
    let names = vec!["conflict.md".to_string(), "shared.md".to_string(), "conflict.md".to_string()];
    assert_eq!(find_rule_file(&names, "conflict"), Ok(0));
    assert_eq!(find_rule_file(&names, "shared"), Ok(1));
}

#[test]
fn create_rule_global_scope_writes_global_dir() {
    let block = create_rule_block(&RuleSpec {
        name: "Global Style",
        rule: "Use tabs",
        description: Some("global rule"),
        globs: None,
        regex: None,
        always_apply: None,
        scope: Some("global"),
    })
    .unwrap();
    assert!(block.global);
    assert_eq!(block.file_name, "global-style.md");
    assert!(block.content.contains("Use tabs"), "{}", block.content);
    assert_eq!(load_rules_all(&vec![file(&block.file_name, &block.content)], &vec![]).len(), 1);
    assert_eq!(find_rule_file(&vec![block.file_name.clone()], "Global Style"), Ok(0));
}

#[test]
fn a_rule_without_a_usable_name_is_refused() {
    let spec = RuleSpec {
        name: "!!!",
        rule: "x",
        description: None,
        globs: None,
        regex: None,
        always_apply: None,
        scope: None,
    };
    assert!(create_rule_block(&spec).is_err());
}

#[test]
fn skill_roundtrip_with_subdirectory() {
    let sources = vec![
        skill_folder("deploy", "---\nname: deploy\n---\n\nStep 1: build"),
        skill_file(
            "refactor.md",
            "---\ndescription: Refactor with confidence\n---\n\nStep 1: read the file",
        ),
    ];
    let all = load_skills_all(&sources);
    let listed = load_skills(&all, &vec![]);
    assert_eq!(listed.len(), 2);
    let refactor = listed.iter().find(|s| s.name == "refactor").unwrap();
    assert_eq!(refactor.description, "Refactor with confidence");
    let deploy = listed.iter().find(|s| s.name == "deploy").unwrap();
    assert_eq!(deploy.description, "");
    let available: Vec<String> = listed.iter().map(|s| s.name.clone()).collect();
    let content = read_skill(&sources, "refactor", &available).unwrap();
    assert!(content.contains("Step 1"), "{content}");
    let content = read_skill(&sources, "deploy", &available).unwrap();
    assert!(content.contains("Step 1: build"), "{content}");
    let err = read_skill(&sources, "missing", &available).unwrap_err();
    assert!(err.contains("Available skills: deploy, refactor"), "{err}");
}

#[test]
fn skills_merge_from_agents_and_global_dirs() {
    let sources = vec![
        skill_folder("fmt", "---\nname: fmt\ndescription: Project override\n---\nproject fmt"),
        skill_folder("fmt", "---\nname: fmt\ndescription: Formatting rules\n---\nfmt body"),
        skill_folder("web", "---\nname: web\ndescription: Web checks\n---\nweb body"),
    ];
    let skills = load_skills_all(&sources);
    assert_eq!(skills.len(), 2, "project override must dedupe global");
    let fmt = skills.iter().find(|s| s.name == "fmt").unwrap();
    assert_eq!(fmt.description, "Project override", "project must override global");
    assert!(skills.iter().any(|s| s.name == "web"));
    let content = read_skill(&sources, "fmt", &vec![]).unwrap();
    assert!(content.contains("project fmt"), "{content}");
    let content = read_skill(&sources, "web", &vec![]).unwrap();
    assert!(content.contains("web body"), "{content}");
}

#[test]
fn state_migrates_from_legacy_files() {
    let migrated =
        migrate_state(Some(r#"{"disabled": ["alpha"]}"#), Some(r#"{"disabled": ["deploy"]}"#))
            .unwrap();
    assert!(!is_rule_enabled(Some(&migrated), "alpha"));
    assert!(is_rule_enabled(Some(&migrated), "beta"));
    assert!(!is_skill_enabled(Some(&migrated), "deploy"));
    assert!(migrated.contains("alpha"), "{migrated}");
    assert!(migrated.contains("deploy"), "{migrated}");

    let state = set_skill_enabled(Some(&migrated), "deploy", true).unwrap();
    assert!(is_skill_enabled(Some(&state), "deploy"));
    assert!(!is_rule_enabled(Some(&state), "alpha"), "rules state must survive");
}

#[test]
fn a_state_that_is_no_object_cannot_be_changed() {
    assert!(set_disabled(Some("[1]"), "rules", "alpha", false).is_none());
    let state = set_disabled(Some("not json"), "rules", "alpha", false).unwrap();
    assert!(!is_rule_enabled(Some(&state), "alpha"));
    assert!(state.contains('\n'), "the state is written over several lines: {state}");
}

#[test]
fn sanitize_rule_names() {
    assert_eq!(sanitize_rule_name("Use Prop Types"), "use-prop-types");
    assert_eq!(sanitize_rule_name("React!! Standards??"), "react-standards");
}

#[test]
fn rules_come_in_the_order_of_names() {
    let rules = load_rules_all(
        &vec![file("z.md", "z"), file("a.md", "a")],
        &vec![file("m.md", "m")],
    );
    let names: Vec<&str> = rules.iter().map(|rule| rule.name.as_str()).collect();
    assert_eq!(names, vec!["a", "m", "z"]);
}

#[test]
fn switches_are_read_back() {
    let start = r#"{"version": 3, "skills_disabled": ["deploy"], "notes": {"a": [1, "b\n\"c\""]}}"#;
    let off = set_disabled(Some(start), "rules", "quo\"te\u{7}桌", false).unwrap();
    assert_eq!(disabled_names(Some(&off), "rules"), vec!["quo\"te\u{7}桌"]);
    assert_eq!(disabled_names(Some(&off), "skills"), vec!["deploy"]);
    assert!(off.contains("\"version\": 3"), "{off}");
    let on = set_disabled(Some(&off), "rules", "quo\"te\u{7}桌", true).unwrap();
    assert!(disabled_names(Some(&on), "rules").is_empty());
    assert_eq!(disabled_names(Some(&on), "skills"), vec!["deploy"]);
}

#[test]
fn state_that_is_nested_too_deeply_is_not_read() {
    let deep = |n: usize| format!("{{\"rules_disabled\": [\"a\"], \"x\": {}1{}}}", "[".repeat(n), "]".repeat(n));
    assert_eq!(disabled_names(Some(&deep(126)), "rules"), vec!["a"]);
    assert!(disabled_names(Some(&deep(127)), "rules").is_empty());
    let written = set_rule_enabled(Some(&deep(126)), "b", false).unwrap();
    assert_eq!(disabled_names(Some(&written), "rules"), vec!["a", "b"]);
}

#[test]
fn numbers_in_the_state_do_not_matter() {
    for number in [
        "0.5",
        "-0",
        "1e-7",
        "18446744073709551615",
        "123456789012345678901234567890",
        "1.7976931348623157e308",
        "1.7976931348623155e308",
        "-1.7976931348623157e308",
        "1e308",
        "5e-324",
        "0.1234567890123456789",
    ] {
        let state = format!("{{\"x\": {number}, \"skills_disabled\": [\"s\"]}}");
        let off = set_rule_enabled(Some(&state), "a", false).unwrap();
        assert!(!is_rule_enabled(Some(&off), "a"), "{number}");
        assert!(is_rule_enabled(Some(&off), "b"), "{number}");
        assert!(!is_skill_enabled(Some(&off), "s"), "{number}");
    }
}

#[test]
fn switching_again_leaves_the_text() {
    let start = r#"{"y": 0.5, "x": [1, -7, 2.25, {"b": 1, "a": null}], "rules_disabled": ["r"]}"#;
    for state in [None, Some(start)] {
        for enabled in [false, true] {
            let once = set_skill_enabled(state, "deploy", enabled).unwrap();
            let twice = set_skill_enabled(Some(&once), "deploy", enabled).unwrap();
            assert_eq!(once, twice);
            assert_eq!(is_skill_enabled(Some(&twice), "deploy"), enabled);
            assert_eq!(is_rule_enabled(Some(&twice), "r"), state.is_none());
        }
    }
}

#[test]
fn states_are_written_as_serde_json_writes_them() {
    let mut numbers: Vec<String> = ["0.1234567890123456789", "1e22", "5e-324", "-0", "1E400"]
        .iter()
        .map(|n| n.to_string())
        .collect();
    for i in 1..200u64 {
        numbers.push(format!("0.{}", 9_007_199_254_740_993u64.wrapping_mul(i) % 100_000_000_000_000_000));
        numbers.push(format!("{}.{}e{}", i, 123_456_789_012_345_678u64 / i, i));
        numbers.push(format!("-{}", u64::MAX / i));
    }
    for number in numbers {
        let state = format!("{{\"z\": [{number}], \"a\": {{\"y\": {number}, \"x\": true}}}}");
        let ours = set_rule_enabled(Some(&state), "r", false).unwrap();
        let mut theirs = serde_json::from_str::<serde_json::Value>(&state)
            .unwrap_or(serde_json::Value::Object(serde_json::Map::new()));
        theirs["rules_disabled"] =
            serde_json::Value::Array(vec![serde_json::Value::String("r".to_string())]);
        assert_eq!(ours, serde_json::to_string_pretty(&theirs).unwrap(), "{number}");
    }
}

#[test]
fn switching_again_writes_what_is_read() {
    for number in ["0.1234567890123456789", "1e-7", "1.5e300", "12345678901234567890123"] {
        let state = format!("{{\"x\": {number}}}");
        let once = set_skill_enabled(Some(&state), "s", false).unwrap();
        let twice = set_skill_enabled(Some(&once), "s", false).unwrap();
        let read: serde_json::Value = serde_json::from_str(&once).unwrap();
        assert_eq!(twice, serde_json::to_string_pretty(&read).unwrap());
    }
}

#[test]
fn a_number_that_changes_when_it_is_read_changes_the_text() {
    let once = set_skill_enabled(Some(r#"{"x": 0.99622830388368595}"#), "s", false).unwrap();
    let twice = set_skill_enabled(Some(&once), "s", false).unwrap();
    assert!(once.contains("0.9962283038836859"), "{once}");
    assert!(twice.contains("0.996228303883686"), "{twice}");
    assert_eq!(disabled_names(Some(&twice), "skills"), vec!["s"]);
}
