use prognosis::app::diff::unified_diff;
use prognosis::app::edit::{
    check_replacement, close_enough, closer, edit_existing_file, edit_with, edited_message,
    is_placeholder, single_find_and_replace, SIMILAR,
};
use prognosis::app::files::{
    command_step, create_new_file, expand_requested, global_config_dir, ls_dir, no_directory, read_file,
    report_command, resolve_path, run_terminal_command, skills_global_dirs, view_diff, CommandEnd, CommandStep, GitRun,
    OutputChunk,
};
use prognosis::app::requests::{tool_request, ToolRequest};
use prognosis::app::search::{
    file_glob_search, glob_matches, glob_to_regex, walk_dir, DirEntry, EntryKind, Grep,
};
use prognosis::app::web::{
    base64_decode, decode_bing_url, decode_entities, fetch_url_content, html_to_text,
    parse_bing_results, search_request, search_web,
};
use prognosis::encoding::{decode_response, percent_decode, url_encode};
use prognosis::json::Json;

fn chars(s: &str) -> Vec<char> {
    s.chars().collect()
}

fn texts(items: &[&str]) -> Vec<String> {
    items.iter().map(|s| s.to_string()).collect()
}

#[test]
fn decode_response_handles_utf8_and_gbk() {
    let utf8 = "Rust 程序设计语言";
    assert_eq!(decode_response(utf8.as_bytes()), utf8);
    let (gbk_bytes, _, _) = encoding_rs::GBK.encode("中文测试");
    assert_eq!(decode_response(&gbk_bytes), "中文测试");
}

#[test]
fn path_resolution_stays_in_project() {
    assert_eq!(
        resolve_path("/project", "/project/sub/new.txt", "sub/new.txt").unwrap(),
        "/project/sub/new.txt"
    );
    assert!(resolve_path("/project", "/etc/passwd", "/etc/passwd").is_err());
    assert!(resolve_path("/project", "/outside", "../outside").is_err());
    assert!(resolve_path("/project", "/project2/x", "../project2/x").is_err());
}

#[test]
fn tilde_and_file_uri_expansion() {
    assert!(expand_requested("~/x", "/home/user").starts_with('/'));
    assert!(expand_requested("file:///tmp/a%20b.txt", "").ends_with("a b.txt"));
    assert!(expand_requested("file:///tmp/x.txt", "").ends_with("x.txt"));
    assert_eq!(expand_requested("src/a.rs", "/home/user"), "src/a.rs");
}

#[test]
fn read_and_create_file() {
    assert_eq!(read_file("a.txt", Some("hello".to_string())).unwrap(), "hello");
    assert!(read_file("missing.txt", None).unwrap_err().contains("does not exist"));
    let created = create_new_file("new.txt", "content", false).unwrap();
    assert!(created.contains("File created successfully"), "{created}");
    assert!(created.contains("@@"), "output must carry a diff: {created}");
    assert!(created.contains("+content"), "{created}");
    let err = create_new_file("new.txt", "again", true).unwrap_err();
    assert!(err.contains("already exists"));
}

#[test]
fn terminal_command_runs_and_captures() {
    let chunk = |stderr: bool, bytes: &[u8]| OutputChunk { stderr, bytes: bytes.to_vec() };
    let out =
        run_terminal_command(&vec![chunk(false, b"hello\n")], CommandEnd::Exited(Some(0)));
    assert!(out.contains("hello"), "{out}");
    let err = run_terminal_command(&vec![chunk(true, b"oops\n")], CommandEnd::Exited(Some(0)));
    assert!(err.contains("oops"), "{err}");
    let exit = run_terminal_command(&vec![], CommandEnd::Exited(Some(3)));
    assert!(exit.contains("exit 3"), "{exit}");
    let late = run_terminal_command(&vec![chunk(false, b"half")], CommandEnd::TimedOut);
    assert!(late.contains("half"), "{late}");
}

#[test]
fn glob_search_respects_ignores_and_wildcards() {
    let dir = |name: &str| DirEntry { name: name.into(), kind: EntryKind::Dir };
    let root = walk_dir(&vec![dir("target"), dir("src")], "", false);
    assert_eq!(root.len(), 1, "target must be ignored");
    assert_eq!(root[0].name, "src");
    let paths =
        texts(&["src/lib.rs", "src/main.rs", "src/main.txt", "src/nested/mod.rs"]);
    let all = file_glob_search("**/*.rs", &paths);
    assert!(all.contains("src/main.rs"), "{all}");
    assert!(all.contains("src/nested/mod.rs"), "{all}");
    let top = file_glob_search("*.rs", &paths);
    assert!(top.contains("src/nested/mod.rs"), "basename globs match any depth: {top}");
    assert!(!top.contains("main.txt"), "{top}");
    let none = file_glob_search("*.py", &paths);
    assert_eq!(none, "The glob search returned no results.");
}

#[test]
fn directories_are_walked_in_the_order_of_names() {
    let file = |name: &str| DirEntry { name: name.into(), kind: EntryKind::File };
    let entries = vec![file("b.rs"), file("a.png"), file("A.rs"), file("a.rs")];
    let names = |everything: bool| -> Vec<String> {
        walk_dir(&entries, "src", everything).into_iter().map(|entry| entry.name).collect()
    };
    assert_eq!(names(false), vec!["src/A.rs", "src/a.rs", "src/b.rs"]);
    assert_eq!(names(true), vec!["src/A.rs", "src/a.png", "src/a.rs", "src/b.rs"]);
}

#[test]
fn grep_search_finds_with_context() {
    let search = |query: &str| {
        let mut grep = match Grep::new(query) {
            Ok(grep) => grep,
            Err(said) => return said,
        };
        let go_on =
            grep.visit("src/a.rs", "line one\nfn target() {}\nline three\nline four\n");
        if go_on {
            grep.visit("src/b.rs", "fn other() {}");
        }
        grep.finish()
    };
    let out = search("fn target");
    assert!(out.contains("./src/a.rs"), "{out}");
    assert!(out.contains("line one"), "context lines expected: {out}");
    assert!(!out.contains("b.rs"), "{out}");
    let none = search("zzz_nothing");
    assert!(none.contains("no results"), "{none}");
    let bad = search("[");
    assert!(bad.contains("invalid regex"), "{bad}");
}

#[test]
fn unified_diff_marks_added_and_removed_lines() {
    let out = unified_diff("a\nb\nc\n", "a\nx\nc\n");
    assert!(out.contains("@@ -3 +3 @@"), "{out}");
    assert!(out.contains("-b"), "{out}");
    assert!(out.contains("+x"), "{out}");
    assert!(!out.contains("-a"), "{out}");
    let created = unified_diff("", "l1\nl2");
    assert!(created.starts_with("@@ -0 +2 @@"), "{created}");
    assert!(created.contains("+l1"), "{created}");
    assert!(created.contains("+l2"), "{created}");
}

#[test]
fn find_replace_exact_match_rules() {
    let content = "hello world\nhello again";
    let err = single_find_and_replace("a.txt", content, "x", "y", false).unwrap_err();
    assert!(err.contains("not found"));
    let err = single_find_and_replace("a.txt", content, "hello", "hi", false).unwrap_err();
    assert!(err.contains("not unique"));
    assert_eq!(
        single_find_and_replace("a.txt", content, "hello", "hi", true).unwrap(),
        "hi world\nhi again"
    );
    let err = check_replacement("same", "same").unwrap_err();
    assert!(err.contains("MUST be different"));
}

fn edited(content: &str, changes: &str) -> Result<String, String> {
    edit_existing_file(content, changes)
}

#[test]
fn edit_existing_file_applies_placeholder_changes() {
    let start = "fn main() {\n    let x = 1;\n    let y = 2;\n    println!(\"{x}\");\n}\n";
    let changes = "fn main() {\n    let x = 1;\n    let y = 2;\n    // ... existing code ...\n    println!(\"{x}\");\n}\n";
    let err = edited(start, changes).unwrap_err();
    assert!(err.contains("already matches"), "{err}");
    let changes = "fn main() {\n    let x = 10;\n    let y = 2;\n    // ... existing code ...\n    println!(\"{x}\");\n}\n";
    let next = edited(start, changes).unwrap();
    assert_eq!(
        next,
        "fn main() {\n    let x = 10;\n    let y = 2;\n    println!(\"{x}\");\n}\n"
    );
    let inserted = "fn main() {\n    let x = 10;\n    let y = 2;\n    let z = 3;\n    // ... existing code ...\n    println!(\"{x}\");\n}\n";
    let last = edited(&next, inserted).unwrap();
    assert!(last.contains("let z = 3"), "{last}");
    let broken = edited(&last, "completely different code").unwrap_err();
    assert!(broken.contains("none of the provided code"), "{broken}");
    assert!(edited_message("a.rs", start, &next).contains("let x = 10"));
}

#[test]
fn edit_existing_file_rejects_mismatched_anchor_lines() {
    let content = "fn a() {\n    old();\n}\n";
    let bad_first = edited(content, "fn missing() {\n    new();\n}\n").unwrap_err();
    assert!(bad_first.contains("first line"), "{bad_first}");
    let bad_last = edited(content, "fn a() {\n    new();\n}\n}\n").unwrap_err();
    assert!(bad_last.contains("last line"), "{bad_last}");
}

#[test]
fn edit_existing_file_inserts_between_anchors_only() {
    assert_eq!(
        edited("fn a() {\n    keep();\n}\n", "fn a() {\n    keep();\n    extra();\n}\n").unwrap(),
        "fn a() {\n    keep();\n    extra();\n}\n"
    );
}

#[test]
fn edit_existing_file_does_not_blur_replacement_into_wrong_row() {
    assert_eq!(
        edited(
            "fn a() {\n    x1();\n    x2();\n}\n",
            "fn a() {\n    x1();\n    brand();\n    x2();\n}\n"
        )
        .unwrap(),
        "fn a() {\n    x1();\n    brand();\n    x2();\n}\n",
        "a dissimilar line between two anchors must insert, not replace"
    );
}

#[test]
fn edit_existing_file_strips_codeblock_fence() {
    assert_eq!(
        edited("fn a() {\n    old();\n}\n", "```rust b.rs\nfn a() {\n    new();\n}\n```").unwrap(),
        "fn a() {\n    new();\n}\n"
    );
}

#[test]
fn placeholder_detection() {
    assert!(is_placeholder("// ... existing code ..."));
    assert!(is_placeholder("..."));
    assert!(is_placeholder("  # ... rest of file ..."));
    assert!(is_placeholder("/* ... */"));
    assert!(!is_placeholder("let x = 1;"));
    assert!(!is_placeholder("fn f(...args) {}"));
    assert!(!is_placeholder(""));
}

#[test]
fn ls_lists_with_and_without_recursion() {
    let flat = ls_dir("a", texts(&["b/", "f1.txt"]), false);
    assert_eq!(flat, "b/\nf1.txt");
    let many: Vec<String> = (0..250).map(|i| format!("f{i}")).collect();
    let cut = ls_dir("a", many, true);
    assert!(cut.contains("f199") && !cut.contains("f200"), "{cut}");
    assert_eq!(ls_dir("a", vec![], false), "No files/folders found in a");
    let err = no_directory("missing");
    assert!(err.contains("not found or is not accessible"), "{err}");
}

#[test]
fn view_diff_reports_working_changes() {
    let silent = || GitRun::Done { stdout: vec![] };
    let empty = view_diff(&vec![silent(), silent()]);
    assert!(empty.contains("empty"), "{empty}");
    let diff = view_diff(&vec![
        GitRun::Done { stdout: b"-v1\n+v2\n".to_vec() },
        silent(),
    ]);
    assert!(diff.contains("-v1"), "{diff}");
    assert!(diff.contains("+v2"), "{diff}");
}

#[test]
fn html_to_text_converts_and_decodes() {
    let html = "<html><head><script>var x = 1;</script></head><body><h1>Title</h1><p>Hello &amp; goodbye<br>line2</p></body></html>";
    let text = html_to_text(html);
    assert!(text.contains("Title"), "{text}");
    assert!(text.contains("Hello & goodbye"), "{text}");
    assert!(!text.contains("var x"), "{text}");
    let decoded: String = decode_entities(&chars("a &lt;b&gt; &#39;c&#39;")).iter().collect();
    assert_eq!(decoded, "a <b> 'c'");
}

#[test]
fn base64_decode_works() {
    let decoded = base64_decode("aHR0cHM6Ly9ydXN0LWxhbmcub3JnLw==").unwrap();
    assert_eq!(decoded, b"https://rust-lang.org/");
    assert_eq!(url_encode("a b&c"), "a%20b%26c");
}

#[test]
fn escaping_can_be_undone() {
    for text in ["a b&c", "桌面/100%", "~-_."] {
        assert_eq!(percent_decode(&url_encode(text)), text);
    }
    assert_eq!(percent_decode("50%"), "50%");
}

#[test]
fn glob_matcher_handles_doublestar() {
    let matches = |glob: &str, path: &str| glob_matches(glob, &texts(&[path])).unwrap()[0];
    assert!(matches("**/*.rs", "src/main.rs"));
    assert!(matches("**/*.rs", "main.rs"));
    assert!(matches("src/*.rs", "src/main.rs"));
    assert!(!matches("src/*.rs", "src/nested/mod.rs"));
    assert!(matches("*.rs", "src/main.rs"));
    assert!(!matches("*.rs", "src/main.txt"));
    assert!(matches("a+b.rs", "a+b.rs"));
    assert!(!matches("a.rs", "abrs"));
    assert!(glob_to_regex("a.rs").contains("a\\.rs"));
}

#[test]
fn pages_are_shown_as_text() {
    let out = fetch_url_content("https://example.com", b"<h1>Example Domain</h1>");
    assert!(out.contains("Example Domain"), "unexpected fetch result: {out}");
}

#[test]
fn search_pages_are_read() {
    let target = "https://rust-lang.org/";
    let link = "https://www.bing.com/ck/a?u=a1aHR0cHM6Ly9ydXN0LWxhbmcub3JnLw&amp;ntb=1";
    let html = format!(
        "<li class=\"b_algo\"><h2><a href=\"{link}\">Rust 程序设计语言</a></h2><p>A language &amp; more</p></li>"
    );
    let results = parse_bing_results(&html);
    assert_eq!(results.len(), 1);
    assert_eq!(results[0].title, "Rust 程序设计语言");
    assert_eq!(results[0].url, target);
    assert_eq!(results[0].snippet, "A language & more");
    let out = search_web(html.as_bytes());
    assert!(out.contains(target), "{out}");
    assert!(!out.contains('Ã'), "mojibake detected: {out}");
    assert_eq!(decode_bing_url(&chars("https://example.com")), None);
    assert!(search_request("rust language").unwrap().contains("rust%20language"));
}

#[test]
fn directories_follow_the_environment() {
    assert_eq!(global_config_dir(Some("/set"), Some("/home/u"), None), "/set");
    assert_eq!(global_config_dir(None, Some("/home/u"), None), "/home/u/.prognosis");
    assert_eq!(
        skills_global_dirs(None, Some("/home/u"), None),
        vec!["/home/u/.agents/skills", "/home/u/.config/agents/skills"]
    );
}

#[test]
fn requests_are_read_from_arguments() {
    let args = Json::Object(vec![("filepath".into(), Json::Text("a.rs".into()))]);
    match tool_request("read_file", &args) {
        Some(Ok(ToolRequest::ReadFile { filepath })) => assert_eq!(filepath, "a.rs"),
        _ => panic!("expected a file to read"),
    }
    assert!(matches!(tool_request("read_file", &Json::Object(vec![])), Some(Err(_))));
    assert!(tool_request("nothing", &args).is_none());
}

#[test]
fn edits_follow_the_lines_that_are_said_to_be_similar() {
    let content = "fn a() {\n    x1();\n    x2();\n}\n";
    let changes = "fn a() {\n    x1();\n    brand();\n    x2();\n}\n";
    let none = vec![None; 5];
    assert_eq!(
        edit_with(content, changes, &none).unwrap(),
        "fn a() {\n    x1();\n    brand();\n    x2();\n}\n"
    );
    let replaced = edit_with(
        "fn a() {\n    old_name();\n}\n",
        "fn a() {\n    new_name();\n}\n",
        &vec![None, Some(1), None],
    );
    assert_eq!(replaced.unwrap(), "fn a() {\n    new_name();\n}\n");
    let missing = edit_with("a\n", "b\n", &vec![None]).unwrap_err();
    assert!(missing.contains("none of the provided code"), "{missing}");
}

#[test]
fn the_first_of_the_most_similar_lines_is_taken() {
    assert_eq!(closer(None, 3, 7), Some((3, 7)));
    assert_eq!(closer(Some((3, 7)), 4, 7), Some((3, 7)));
    assert_eq!(closer(Some((3, 7)), 4, 8), Some((4, 8)));
    assert_eq!(close_enough(None), None);
    assert_eq!(close_enough(Some((3, SIMILAR - 1))), None);
    assert_eq!(close_enough(Some((3, SIMILAR))), Some(3));
    assert_eq!(SIMILAR, 0.9f64.to_bits());
}

#[test]
fn ended_commands_are_reported() {
    assert_eq!(report_command("done\n".to_string(), CommandEnd::Exited(Some(3))), "done\n");
    assert_eq!(report_command(" \n".to_string(), CommandEnd::Exited(Some(3))), "(exit 3)");
    assert_eq!(report_command(String::new(), CommandEnd::Exited(Some(-9))), "(exit -9)");
    assert_eq!(report_command(String::new(), CommandEnd::Exited(None)), "(exit -1)");
    assert_eq!(
        report_command("part".to_string(), CommandEnd::TimedOut),
        "\n[Timeout: process killed after 2 minutes]\npart"
    );
}

#[test]
fn one_line_may_become_several() {
    assert_eq!(edited("a\nb\nc\n", "a\nX\nY\nc\n").unwrap(), "a\nX\nY\nc\n");
    assert_eq!(
        edited(
            "fn a() {\n    let first_value = 1;\n}\n",
            "fn a() {\n    let first_value = 2;\n    let first_value = 3;\n}\n"
        )
        .unwrap(),
        "fn a() {\n    let first_value = 2;\n    let first_value = 3;\n}\n"
    );
}

#[test]
fn a_new_line_goes_before_a_changed_one() {
    let changed = edit_with("a\nq1\nq2\nc\n", "a\nnew\nq2!\nc\n", &vec![None, None, Some(2), None]);
    assert_eq!(changed.unwrap(), "a\nq1\nnew\nq2!\nc\n");
}

#[test]
fn changes_in_another_order_are_refused() {
    let crossed =
        edit_with("a\nq1\nq2\nc\n", "a\nq2!\nq1!\nc\n", &vec![None, Some(2), Some(1), None]);
    let why = crossed.unwrap_err();
    assert!(why.contains("line 3 of the changes stands in another order"), "{why}");
}

#[test]
fn commands_are_stopped_after_two_minutes() {
    assert_eq!(command_step(true, 0), CommandStep::End);
    assert_eq!(command_step(true, 500_000), CommandStep::End);
    assert_eq!(command_step(false, 0), CommandStep::Wait);
    assert_eq!(command_step(false, 119_999), CommandStep::Wait);
    assert_eq!(command_step(false, 120_000), CommandStep::Kill);
}
