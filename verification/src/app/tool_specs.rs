//! What the model is told about the tools.

use crate::json;
use crate::json::{fields_view, FieldView, Json, JsonView};
use crate::text;
use crate::text::{join, opt_text, views};
use vstd::prelude::*;

verus! {

// ---------------------------------------------------------------------------------------------
// Tables
// ---------------------------------------------------------------------------------------------
/// The tools, and whether each asks before it runs.
pub const DEFAULT_TOOLS: [(&'static str, bool); 16] = [
    ("read_file", false),
    ("create_new_file", true),
    ("run_terminal_command", true),
    ("file_glob_search", false),
    ("view_diff", false),
    ("ls", false),
    ("create_rule_block", true),
    ("fetch_url_content", true),
    ("request_rule", false),
    ("read_skill", false),
    ("search_web", false),
    ("edit_existing_file", true),
    ("single_find_and_replace", true),
    ("grep_search", false),
    ("schedule_task", true),
    ("cancel_task", false),
];

/// What the tools do, as far as it does not depend on the machine or the project.
pub const DESCRIPTIONS: [(&'static str, &'static str); 13] = [
    ("read_file", "Read the contents of an existing file in the workspace and return them with line numbers. Use this before editing a file, before quoting from a file, and whenever you need to know what the file actually contains — never guess file contents from memory or from an earlier version. Re-read a file after a previous edit changed it, so your edits always apply to current content; the file may have changed since you last saw it.\n\nBehavior:\n- Output includes line numbers, so you can refer to specific lines (\"around line 42\") in follow-up calls.\n- Large files are read in full; if the output is very long, prefer reading the relevant part or using grep_search first to locate the section you need.\n- The path can be relative to the project root, absolute, a tilde path (~/...), or a file:// URI.\n- If the file does not exist or cannot be read, the tool returns an explicit error message instead of guessing content."),
    ("create_new_file", "Create a brand-new file with the given contents. Use this tool ONLY when the file does not exist yet — never to overwrite an existing file; if the file already exists, use edit_existing_file or single_find_and_replace instead.\n\nBehavior:\n- The parent directory is created automatically when needed.\n- The contents are written exactly as provided; do not include markdown fences or explanatory text in the contents argument.\n- If a file already exists at the path, the call is rejected — check with ls or read_file first when you are unsure whether the file exists."),
    ("file_glob_search", "Search for files by name or path pattern recursively across the project, using glob syntax. Use this to locate a file when you know part of its name or path but not its exact location (e.g. find the test file for a module, locate a config file).\n\nBehavior:\n- '**' matches any number of directories (e.g. 'src/**/tests/*.rs').\n- Build, cache, and dependency directories (target, node_modules, .git, etc.) are excluded — use ls to inspect those.\n- Results may be truncated; prefer targeted patterns over broad ones like '*'. If a broad pattern returns nothing useful, narrow it with the directory you expect the file in."),
    ("view_diff", "Show the uncommitted working-tree changes (git diff) of the project — the exact lines you added and removed, with file names. Use this before summarizing what changed, before writing a commit message, and to review your own edits after a task so you can confirm only the intended lines were touched.\n\nBehavior:\n- Read-only: it never modifies files or the git index.\n- Diff blocks are folded in the UI for large changes; the full detail is available when expanded.\n- If the project is not a git repository, returns a friendly notice instead of an error."),
    ("ls", "List the contents of a directory with file names and sizes. Use this to discover the project layout, confirm what a directory contains, or find where a file lives before reading or editing it. Call it on the project root first when you start a task in an unfamiliar workspace — the listing tells you which files exist and what to read next.\n\nBehavior:\n- Paths can be relative to the project root, absolute, or tilde paths.\n- With recursive=true the whole subtree is listed — use it sparingly on large trees (node_modules, build output) because the output can be very long.\n- If the directory does not exist or cannot be read, returns an explicit error message."),
    ("create_rule_block", "Creates a \"rule\" that can be referenced in future conversations. This should be used whenever you want to establish code standards / preferences that should be applied consistently, or when you want to avoid making a mistake again. To modify existing rules, use the edit tool instead.\n\nRule Types:\n- Always: Include only \"rule\" (always included in model context)\n- Auto Attached: Include \"rule\", \"globs\", and/or \"regex\" (included when files match patterns)\n- Agent Requested: Include \"rule\" and \"description\" (AI decides when to apply based on description)\n- Manual: Include only \"rule\" (only included when explicitly mentioned using @ruleName)\n\nScope: set \"scope\" to \"global\" to store the rule in ~/.prognosis/rules so it applies to all projects; omit it to store in the current project's .prognosis/rules."),
    ("fetch_url_content", "Fetch and view the text content of a public web page by URL. Use this when the answer needs current, external information that is not in the project and not in your training data — for example a library's current version, an API change, or a public announcement.\n\nBehavior:\n- The page is fetched over the network and returned as plain text; interactive or heavily scripted pages may return little content.\n- Do NOT use it for local files — use read_file for those.\n- Only fetch public, non-sensitive URLs; the request is visible to the site owner.\n- Some sites block automated fetches; if a fetch fails, try search_web first to find an alternative source."),
    ("search_web", "Search the web and return top results with titles, URLs, and snippets. Use this only when the answer requires specialized, external, or up-to-date knowledge that is not in the project and not in your training data (e.g. current events, library versions, documentation changes). Common programming questions about the code in this project do NOT require a web search — read the code instead.\n\nBehavior:\n- Results come from a web search index; snippets are summaries, not full pages — if a result page itself is needed, follow up with fetch_url_content.\n- Prefer official sources (documentation, package registries, the project's own site) over forums and blogs when they are available.\n- If the search returns nothing relevant, rephrase the query with different terms rather than repeating it verbatim."),
    ("edit_existing_file", "Use this tool to edit an existing file. If you don't know the contents of the file, read it first.\n  When addressing code modification requests, present a concise code snippet that\n  emphasizes only the necessary changes and uses abbreviated placeholders for\n  unmodified sections. For example:\n\n  ```language /path/to/file\n\n  {{ modified code here }}\n\n\n  {{ another modification }}\n\n  ```\n\n  In existing files, you should always restate the function or class that the snippet belongs to:\n\n  ```language /path/to/file\n\n  function exampleFunction() {\n\n    {{ modified code here }}\n\n  }\n\n  ```\n\n  Since users have access to their complete file, they prefer reading only the\n  relevant modifications. It's perfectly acceptable to omit unmodified portions\n  at the beginning, middle, or end of files using these \"lazy\" comments. Only\n  provide the complete file when explicitly requested. Include a concise explanation\n  of changes unless the user specifically asks for code only.\nThis tool CANNOT be called in parallel with any other tools, including itself"),
    ("single_find_and_replace", "Performs exact string replacements in a file.\n\nIMPORTANT:\n- ALWAYS use the `read_file` tool just before making edits, to understand the file's up-to-date contents and context. The user can also edit the file while you are working with it.\n- This tool CANNOT be called in parallel with any other tools, including itself\n- When editing text from `read_file` tool output, ensure you preserve exact whitespace/indentation.\n- Only use emojis if the user explicitly requests it. Avoid adding emojis to files unless asked.\n- Use `replace_all` for replacing and renaming strings across the file. This parameter is useful if you want to rename a variable, for instance.\n\nWARNINGS:\n- When not using `replace_all`, the edit will FAIL if `old_string` is not unique in the file. Either provide a larger string with more surrounding context to make it unique or use `replace_all` to change every instance of `old_string`.\n- The edit will likely fail if you have not recently used the `read_file` tool to view up-to-date file contents."),
    ("grep_search", "Search file contents across the project with a regular expression (ripgrep). Use this to find where a symbol is defined, used, or referenced, or to locate code matching a pattern — it is the fastest way to answer questions like \"where is this function called?\" or \"which files use this constant?\".\n\nBehavior:\n- The query is a regex; use alternation (e.g. 'word1|word2|word3') or character classes to find multiple potential spellings in a single search.\n- Build, cache, and dependency directories are excluded.\n- Results may be truncated — narrow the pattern (e.g. 'fn handle_call_tool' or 'trait Lang.*Adapter') instead of using a broad term.\n- The pattern is passed directly to ripgrep, not to a shell, so no quoting or escaping for the shell is needed."),
    ("schedule_task", "Schedule a tool call to run later. Use it when the user asks for something to happen after a delay, on a recurring interval, or when a condition becomes true (e.g. run a command when a file appears).\n\nTask types:\n- delay: run the action once after `seconds`, or at wall-clock time `at` (HH:MM, today or tomorrow)\n- schedule: run the action every `interval_seconds`\n- monitor: check `condition` every `check_every_seconds` until it holds or `timeout_seconds` elapses, then run the action once\n\nReturns a task id; use cancel_task to stop a scheduled or monitor task."),
    ("cancel_task", "Cancel a previously scheduled task by its id. Use this when a scheduled or monitor task should no longer run — for example the user changed their mind, or the condition it was waiting for became irrelevant.\n\nBehavior:\n- The id is the number returned by schedule_task (shown in the task list as #id).\n- Only tasks that have not fired yet can be cancelled; a delay task that already triggered, or a monitor task that already matched, is no longer cancellable.\n- Returns an explicit error if no task with the given id exists — check the task list first if unsure."),
];

/// What the tool for commands does, up to the machine.
pub const COMMAND_DESCRIPTION: &'static str = "Run a terminal command in the project directory and return its output.\n\nGuidelines:\n- Each invocation starts a fresh shell with NO memory of previous commands; chain dependent commands in a single call (e.g. 'cd dir && make test').\n- Prefer dedicated tools over shell commands: use the file tools for reading and editing files; use the shell only for builds, tests, git operations, and other actions that have no dedicated tool.\n- NEVER use shell commands (sed, awk, perl, etc.) to edit files.\n- When a command runs in the background (waitForCompletion=false), ALWAYS suggest stopping it with a shell command (e.g. 'kill <pid>' or 'pkill -f <name>'); NEVER suggest Ctrl+C.\n- When you suggest follow-up shell commands, always format them as shell code blocks.\n- Do NOT run commands that require special/admin privileges.\n- Prefer '&&' chaining over separate calls when the second command depends on the first.\n";

/// What the tool for rules does, up to the rules.
pub const RULE_DESCRIPTION: &'static str = "Retrieve the full content of a rule by name. Rules are project or global instructions that apply automatically when their file patterns match, or when explicitly mentioned. Before following a rule, load its full text with this tool. Available rules:\n";

/// What the tool for skills does, up to the skills.
pub const SKILL_DESCRIPTION: &'static str = "Read the full instructions of a skill by name. Skills package detailed, task-specific procedures (steps, checklists, reference material). Load a skill's content with this tool when the current task matches its description, then follow its instructions. Available skills:\n";

/// The parameters: the tool, the name, the type and what it is for.
pub const PARAMETERS: [(&'static str, &'static str, &'static str, &'static str); 35] = [
    ("read_file", "filepath", "string", "The path of the file to read. Can be a relative path (from workspace root), absolute path, tilde path (~/...), or file:// URI"),
    ("create_new_file", "filepath", "string", "The path where the new file should be created. Can be a relative path (from workspace root), absolute path, tilde path (~/...), or file:// URI."),
    ("create_new_file", "contents", "string", "The contents to write to the new file"),
    ("run_terminal_command", "command", "string", "The command to run. This will be passed directly into the IDE shell."),
    ("run_terminal_command", "waitForCompletion", "boolean", "Whether to wait for the command to complete before returning. Default is true. Set to false to run the command in the background. Set to true to run the command in the foreground and wait to collect the output."),
    ("file_glob_search", "pattern", "string", "Glob pattern for file path matching"),
    ("ls", "dirPath", "string", "The directory path. Can be relative to project root, absolute path, tilde path (~/...), or file:// URI. Use forward slash paths"),
    ("ls", "recursive", "boolean", "If true, lists files and folders recursively. To prevent unexpected large results, use this sparingly"),
    ("create_rule_block", "name", "string", "Short, descriptive name summarizing the rule's purpose (e.g. 'React Standards', 'Type Hints')"),
    ("create_rule_block", "rule", "string", "Clear, imperative instruction for future code generation (e.g. 'Use named exports', 'Add Python type hints'). Each rule should focus on one specific standard."),
    ("create_rule_block", "description", "string", "Description of when this rule should be applied. Required for Agent Requested rules (AI decides when to apply). Optional for other types."),
    ("create_rule_block", "globs", "string", "Optional file patterns to which this rule applies (e.g. ['**/*.{ts,tsx}'] or ['src/**/*.ts', 'tests/**/*.ts'])"),
    ("create_rule_block", "regex", "string", "Optional regex patterns to match against file content. Rule applies only to files whose content matches the pattern (e.g. 'useEffect' for React hooks or '\\bclass\\b' for class definitions)"),
    ("create_rule_block", "alwaysApply", "boolean", "Whether this rule should always be applied. Set to false for Agent Requested and Manual rules. Omit or set to true for Always and Auto Attached rules."),
    ("create_rule_block", "scope", "string", "Where to store the rule: \"local\" (project .prognosis/rules, default) or \"global\" (~/.prognosis/rules, applies to all projects)"),
    ("fetch_url_content", "url", "string", "The URL to read"),
    ("request_rule", "name", "string", "Name of the rule"),
    ("read_skill", "skillName", "string", "The name of the skill to read. This should match the name from the available skills."),
    ("search_web", "query", "string", "The natural language search query"),
    ("edit_existing_file", "filepath", "string", "The path of the file to edit, relative to the root of the workspace."),
    ("edit_existing_file", "changes", "string", "Any modifications to the file, showing only needed changes. Do NOT wrap this in a codeblock or write anything besides the code changes. In larger files, use brief language-appropriate placeholders for large unmodified sections, e.g. '// ... existing code ...'"),
    ("single_find_and_replace", "filepath", "string", "The path to the file to modify, relative to the root of the workspace"),
    ("single_find_and_replace", "old_string", "string", "The text to replace - must be exact including whitespace/indentation"),
    ("single_find_and_replace", "new_string", "string", "The text to replace it with (MUST be different from old_string)"),
    ("single_find_and_replace", "replace_all", "boolean", "Replace all occurrences of old_string (default false)"),
    ("grep_search", "query", "string", "The regex pattern to search for within file contents. Use regex with alternation (e.g., 'word1|word2|word3') or character classes to find multiple potential words in a single search."),
    ("schedule_task", "type", "string", "The kind of task to schedule: delay runs once, schedule repeats, monitor waits for a condition."),
    ("schedule_task", "seconds", "integer", "delay: run the action after this many seconds."),
    ("schedule_task", "at", "string", "delay: run the action at this wall-clock time HH:MM."),
    ("schedule_task", "interval_seconds", "integer", "schedule: repeat the action every this many seconds."),
    ("schedule_task", "condition", "object", "monitor: the condition to watch."),
    ("schedule_task", "check_every_seconds", "integer", "monitor: check the condition every this many seconds (default 5)."),
    ("schedule_task", "timeout_seconds", "integer", "monitor: give up after this many seconds."),
    ("schedule_task", "action", "object", "The tool call to run when the task triggers."),
    ("cancel_task", "id", "integer", "The task id returned by schedule_task."),
];

/// The parameters that must be given.
pub const REQUIRED: [(&'static str, &'static str); 20] = [
    ("read_file", "filepath"),
    ("create_new_file", "filepath"),
    ("create_new_file", "contents"),
    ("run_terminal_command", "command"),
    ("file_glob_search", "pattern"),
    ("create_rule_block", "name"),
    ("create_rule_block", "rule"),
    ("fetch_url_content", "url"),
    ("request_rule", "name"),
    ("read_skill", "skillName"),
    ("search_web", "query"),
    ("edit_existing_file", "filepath"),
    ("edit_existing_file", "changes"),
    ("single_find_and_replace", "filepath"),
    ("single_find_and_replace", "old_string"),
    ("single_find_and_replace", "new_string"),
    ("grep_search", "query"),
    ("schedule_task", "type"),
    ("schedule_task", "action"),
    ("cancel_task", "id"),
];

/// The values that a parameter can have, where they are limited.
pub const VALUES: [(&'static str, &'static str, &'static str); 3] = [
    ("schedule_task", "type", "delay"),
    ("schedule_task", "type", "schedule"),
    ("schedule_task", "type", "monitor"),
];

/// The fields of parameters that are objects: the tool, the parameter, the name, the type and what it is
/// for.
pub const INNER_PARAMETERS: [(&'static str, &'static str, &'static str, &'static str, &'static str); 6] = [
    ("schedule_task", "condition", "type", "string", "The kind of condition to check."),
    ("schedule_task", "condition", "cmd", "string", "The shell command to run for output_contains / exit_code conditions."),
    ("schedule_task", "condition", "contains", "string", "The text the command output must contain for output_contains."),
    ("schedule_task", "condition", "path", "string", "The file path to watch for file_exists."),
    ("schedule_task", "action", "tool", "string", "The tool to run."),
    ("schedule_task", "action", "arguments", "object", "The arguments for the tool."),
];

/// The fields of parameters that must be given.
pub const INNER_REQUIRED: [(&'static str, &'static str, &'static str); 2] = [
    ("schedule_task", "condition", "type"),
    ("schedule_task", "action", "tool"),
];

/// The values that a field of a parameter can have, where they are limited.
pub const INNER_VALUES: [(&'static str, &'static str, &'static str, &'static str); 3] = [
    ("schedule_task", "condition", "type", "output_contains"),
    ("schedule_task", "condition", "type", "exit_code"),
    ("schedule_task", "condition", "type", "file_exists"),
];

// ---------------------------------------------------------------------------------------------
// Schemas
// ---------------------------------------------------------------------------------------------
/// A text in JSON.
pub open spec fn json_text(s: Seq<char>) -> JsonView {
    JsonView::Text(s)
}

/// A field in JSON.
pub open spec fn json_field(name: Seq<char>, value: JsonView) -> FieldView {
    FieldView { name, value }
}

/// Texts as a list in JSON.
pub open spec fn json_texts(texts: Seq<Seq<char>>) -> JsonView {
    JsonView::List(Seq::new(texts.len(), |i: int| json_text(texts[i])))
}

/// The names of the required parameters of a tool, among the first `n` entries.
pub open spec fn required_of(tool: Seq<char>, n: int) -> Seq<Seq<char>>
    decreases n,
{
    if n <= 0 {
        Seq::empty()
    } else if REQUIRED@[n - 1].0@ == tool {
        required_of(tool, n - 1).push(REQUIRED@[n - 1].1@)
    } else {
        required_of(tool, n - 1)
    }
}

/// The names of the required parameters of a tool.
pub open spec fn all_required(tool: Seq<char>) -> Seq<Seq<char>> {
    required_of(tool, REQUIRED@.len() as int)
}

/// The values of a parameter, among the first `n` entries.
pub open spec fn values_of(tool: Seq<char>, name: Seq<char>, n: int) -> Seq<Seq<char>>
    decreases n,
{
    if n <= 0 {
        Seq::empty()
    } else if VALUES@[n - 1].0@ == tool && VALUES@[n - 1].1@ == name {
        values_of(tool, name, n - 1).push(VALUES@[n - 1].2@)
    } else {
        values_of(tool, name, n - 1)
    }
}

/// The names of the required fields of a parameter, among the first `n` entries.
pub open spec fn inner_required_of(tool: Seq<char>, name: Seq<char>, n: int) -> Seq<Seq<char>>
    decreases n,
{
    if n <= 0 {
        Seq::empty()
    } else if INNER_REQUIRED@[n - 1].0@ == tool && INNER_REQUIRED@[n - 1].1@ == name {
        inner_required_of(tool, name, n - 1).push(INNER_REQUIRED@[n - 1].2@)
    } else {
        inner_required_of(tool, name, n - 1)
    }
}

/// The values of a field of a parameter, among the first `n` entries.
pub open spec fn inner_values_of(tool: Seq<char>, name: Seq<char>, field: Seq<char>, n: int) -> Seq<
    Seq<char>,
>
    decreases n,
{
    if n <= 0 {
        Seq::empty()
    } else if INNER_VALUES@[n - 1].0@ == tool && INNER_VALUES@[n - 1].1@ == name
        && INNER_VALUES@[n - 1].2@ == field {
        inner_values_of(tool, name, field, n - 1).push(INNER_VALUES@[n - 1].3@)
    } else {
        inner_values_of(tool, name, field, n - 1)
    }
}

/// What is said of a parameter: its type, its values where they are limited, what it is for, and its
/// fields where it has any.
pub open spec fn described(
    kind: Seq<char>,
    values: Seq<Seq<char>>,
    about: Seq<char>,
    inner: Seq<FieldView>,
) -> JsonView {
    let limited = if values.len() > 0 {
        seq![json_field("enum"@, json_texts(values))]
    } else {
        Seq::empty()
    };
    JsonView::Object(
        seq![json_field("type"@, json_text(kind))] + limited + seq![
            json_field("description"@, json_text(about)),
        ] + inner,
    )
}

/// The properties and the required names of an object, where it has any.
pub open spec fn members(properties: Seq<FieldView>, required: Seq<Seq<char>>) -> Seq<FieldView> {
    let first = if properties.len() > 0 {
        seq![json_field("properties"@, JsonView::Object(properties))]
    } else {
        Seq::empty()
    };
    let second = if required.len() > 0 {
        seq![json_field("required"@, json_texts(required))]
    } else {
        Seq::empty()
    };
    first + second
}

/// The fields of a parameter, among the first `n` entries.
pub open spec fn inner_properties(tool: Seq<char>, name: Seq<char>, n: int) -> Seq<FieldView>
    decreases n,
{
    if n <= 0 {
        Seq::empty()
    } else {
        let (owner, parameter, field, kind, about) = INNER_PARAMETERS@[n - 1];
        if owner@ == tool && parameter@ == name {
            inner_properties(tool, name, n - 1).push(
                json_field(
                    field@,
                    described(
                        kind@,
                        inner_values_of(tool, name, field@, INNER_VALUES@.len() as int),
                        about@,
                        Seq::empty(),
                    ),
                ),
            )
        } else {
            inner_properties(tool, name, n - 1)
        }
    }
}

/// What is said of the fields of a parameter.
pub open spec fn inner_members(tool: Seq<char>, name: Seq<char>) -> Seq<FieldView> {
    members(
        inner_properties(tool, name, INNER_PARAMETERS@.len() as int),
        inner_required_of(tool, name, INNER_REQUIRED@.len() as int),
    )
}

/// The parameters of a tool, among the first `n` entries.
pub open spec fn properties(tool: Seq<char>, n: int) -> Seq<FieldView>
    decreases n,
{
    if n <= 0 {
        Seq::empty()
    } else {
        let (owner, name, kind, about) = PARAMETERS@[n - 1];
        if owner@ == tool {
            properties(tool, n - 1).push(
                json_field(
                    name@,
                    described(
                        kind@,
                        values_of(tool, name@, VALUES@.len() as int),
                        about@,
                        inner_members(tool, name@),
                    ),
                ),
            )
        } else {
            properties(tool, n - 1)
        }
    }
}

/// The schema of the arguments of a tool.
pub open spec fn schema_of(tool: Seq<char>) -> JsonView {
    JsonView::Object(
        seq![json_field("type"@, json_text("object"@))] + members(
            properties(tool, PARAMETERS@.len() as int),
            all_required(tool),
        ),
    )
}

/// Appends a field.
fn push_field(fields: &mut Vec<(String, Json)>, name: &str, value: Json)
    ensures
        fields_view(final(fields)@) == fields_view(old(fields)@).push(json_field(name@, value@)),
{
    let ghost before = fields_view(fields@);
    fields.push((name.to_owned(), value));
    assert(fields_view(fields@) =~= before.push(json_field(name@, value@)));
}

/// Appends fields.
fn append_fields(fields: &mut Vec<(String, Json)>, more: Vec<(String, Json)>)
    ensures
        fields_view(final(fields)@) == fields_view(old(fields)@) + fields_view(more@),
{
    let ghost start = fields@;
    let ghost all = more@;
    let mut more = more;
    fields.append(&mut more);
    assert(fields@ =~= start + all);
    assert(fields_view(fields@) =~= fields_view(start) + fields_view(all));
}

/// Appends a text.
fn push_name(names: &mut Vec<String>, name: &str)
    ensures
        views(final(names)@) == views(old(names)@).push(name@),
{
    let ghost before = views(names@);
    names.push(name.to_owned());
    assert(views(names@) =~= before.push(name@));
}

/// Texts as a list in JSON.
fn list_of(texts: &Vec<String>) -> (r: Json)
    ensures
        r@ == json_texts(views(texts@)),
{
    let ghost goal = Seq::new(texts@.len(), |i: int| json_text(views(texts@)[i]));
    let mut items: Vec<Json> = Vec::new();
    let mut i: usize = 0;
    assert(json::items_view(items@) =~= goal.take(0));
    while i < texts.len()
        invariant
            i <= texts@.len(),
            goal == Seq::new(texts@.len(), |i: int| json_text(views(texts@)[i])),
            json::items_view(items@) == goal.take(i as int),
        decreases texts@.len() - i,
    {
        let ghost before = json::items_view(items@);
        let item = Json::Text(texts[i].clone());
        items.push(item);
        proof {
            assert(json::items_view(items@) =~= before.push(item@));
            assert(goal.take(i + 1) =~= goal.take(i as int).push(goal[i as int]));
        }
        i += 1;
    }
    assert(goal.take(i as int) =~= goal);
    json::list(items)
}

/// The names of the required parameters of a tool.
pub fn required_parameters(tool: &str) -> (r: Vec<String>)
    ensures
        views(r@) == all_required(tool@),
{
    let mut out: Vec<String> = Vec::new();
    let mut i: usize = 0;
    assert(views(out@) =~= Seq::empty());
    while i < 20
        invariant
            i <= 20,
            views(out@) == required_of(tool@, i as int),
        decreases 20 - i,
    {
        let (owner, name) = REQUIRED[i];
        if text::same(owner, tool) {
            push_name(&mut out, name);
        }
        i += 1;
    }
    out
}

/// The values of a parameter.
fn values_for(tool: &str, name: &str) -> (r: Vec<String>)
    ensures
        views(r@) == values_of(tool@, name@, VALUES@.len() as int),
{
    let mut out: Vec<String> = Vec::new();
    let mut i: usize = 0;
    assert(views(out@) =~= Seq::empty());
    while i < 3
        invariant
            i <= 3,
            views(out@) == values_of(tool@, name@, i as int),
        decreases 3 - i,
    {
        let (owner, parameter, value) = VALUES[i];
        if text::same(owner, tool) && text::same(parameter, name) {
            push_name(&mut out, value);
        }
        i += 1;
    }
    out
}

/// The names of the required fields of a parameter.
fn inner_required_for(tool: &str, name: &str) -> (r: Vec<String>)
    ensures
        views(r@) == inner_required_of(tool@, name@, INNER_REQUIRED@.len() as int),
{
    let mut out: Vec<String> = Vec::new();
    let mut i: usize = 0;
    assert(views(out@) =~= Seq::empty());
    while i < 2
        invariant
            i <= 2,
            views(out@) == inner_required_of(tool@, name@, i as int),
        decreases 2 - i,
    {
        let (owner, parameter, field) = INNER_REQUIRED[i];
        if text::same(owner, tool) && text::same(parameter, name) {
            push_name(&mut out, field);
        }
        i += 1;
    }
    out
}

/// The values of a field of a parameter.
fn inner_values_for(tool: &str, name: &str, field: &str) -> (r: Vec<String>)
    ensures
        views(r@) == inner_values_of(tool@, name@, field@, INNER_VALUES@.len() as int),
{
    let mut out: Vec<String> = Vec::new();
    let mut i: usize = 0;
    assert(views(out@) =~= Seq::empty());
    while i < 3
        invariant
            i <= 3,
            views(out@) == inner_values_of(tool@, name@, field@, i as int),
        decreases 3 - i,
    {
        let (owner, parameter, inner, value) = INNER_VALUES[i];
        if text::same(owner, tool) && text::same(parameter, name) && text::same(inner, field) {
            push_name(&mut out, value);
        }
        i += 1;
    }
    out
}

/// What is said of a parameter.
fn describe(kind: &str, values: &Vec<String>, about: &str, inner: Vec<(String, Json)>) -> (r: Json)
    ensures
        r@ == described(kind@, views(values@), about@, fields_view(inner@)),
{
    let ghost more = fields_view(inner@);
    let mut fields: Vec<(String, Json)> = Vec::new();
    push_field(&mut fields, "type", Json::Text(kind.to_owned()));
    assert(views(values@).len() == values@.len());
    if values.len() > 0 {
        push_field(&mut fields, "enum", list_of(values));
    }
    push_field(&mut fields, "description", Json::Text(about.to_owned()));
    append_fields(&mut fields, inner);
    assert(fields_view(fields@) =~= described(kind@, views(values@), about@, more)->Object_0);
    json::object(fields)
}

/// The properties and the required names of an object, where it has any.
fn members_of(properties: Vec<(String, Json)>, required: &Vec<String>) -> (r: Vec<(String, Json)>)
    ensures
        fields_view(r@) == members(fields_view(properties@), views(required@)),
{
    let ghost all = fields_view(properties@);
    assert(all.len() == properties@.len());
    assert(views(required@).len() == required@.len());
    let mut out: Vec<(String, Json)> = Vec::new();
    if properties.len() > 0 {
        push_field(&mut out, "properties", json::object(properties));
    }
    if required.len() > 0 {
        push_field(&mut out, "required", list_of(required));
    }
    assert(fields_view(out@) =~= members(all, views(required@)));
    out
}

/// What is said of the fields of a parameter.
fn inner_members_of(tool: &str, name: &str) -> (r: Vec<(String, Json)>)
    ensures
        fields_view(r@) == inner_members(tool@, name@),
{
    let mut out: Vec<(String, Json)> = Vec::new();
    let mut i: usize = 0;
    assert(fields_view(out@) =~= Seq::empty());
    while i < 6
        invariant
            i <= 6,
            fields_view(out@) == inner_properties(tool@, name@, i as int),
        decreases 6 - i,
    {
        let (owner, parameter, field, kind, about) = INNER_PARAMETERS[i];
        if text::same(owner, tool) && text::same(parameter, name) {
            let none: Vec<(String, Json)> = Vec::new();
            assert(fields_view(none@) =~= Seq::empty());
            let value = describe(kind, &inner_values_for(tool, name, field), about, none);
            push_field(&mut out, field, value);
        }
        i += 1;
    }
    members_of(out, &inner_required_for(tool, name))
}

/// The schema of the arguments of a tool.
pub fn schema(tool: &str) -> (r: Json)
    ensures
        r@ == schema_of(tool@),
{
    let mut out: Vec<(String, Json)> = Vec::new();
    let mut i: usize = 0;
    assert(fields_view(out@) =~= Seq::empty());
    while i < 35
        invariant
            i <= 35,
            fields_view(out@) == properties(tool@, i as int),
        decreases 35 - i,
    {
        let (owner, name, kind, about) = PARAMETERS[i];
        if text::same(owner, tool) {
            let value = describe(
                kind,
                &values_for(tool, name),
                about,
                inner_members_of(tool, name),
            );
            push_field(&mut out, name, value);
        }
        i += 1;
    }
    let mut fields: Vec<(String, Json)> = Vec::new();
    push_field(&mut fields, "type", Json::Text("object".to_owned()));
    append_fields(&mut fields, members_of(out, &required_parameters(tool)));
    assert(fields_view(fields@) =~= schema_of(tool@)->Object_0);
    json::object(fields)
}

// ---------------------------------------------------------------------------------------------
// Descriptions
// ---------------------------------------------------------------------------------------------
/// A rule or a skill: its name and what it is for.
#[derive(Debug, Clone, PartialEq)]
pub struct Listing {
    pub name: String,
    pub description: String,
}

/// What the descriptions of tools depend on: the machine, the rules and the skills.
pub struct Surroundings {
    pub os: String,
    pub arch: String,
    pub shell: String,
    pub rules: Vec<Listing>,
    pub skills: Vec<Listing>,
}

/// The rules, one in a line.
pub open spec fn rule_lines(rules: Seq<Listing>) -> Seq<Seq<char>> {
    Seq::new(rules.len(), |i: int| rules[i].name@ + ": "@ + rules[i].description@)
}

/// What the tool for rules does.
pub open spec fn rule_description(rules: Seq<Listing>) -> Seq<char> {
    RULE_DESCRIPTION@ + if rules.len() == 0 {
        "No rules available."@
    } else {
        join(rule_lines(rules), "\n"@)
    }
}

/// The first `n` skills, as they are listed.
pub open spec fn skill_lines(skills: Seq<Listing>, n: int) -> Seq<char>
    decreases n,
{
    if n <= 0 {
        Seq::empty()
    } else {
        skill_lines(skills, n - 1) + "\nname: "@ + skills[n - 1].name@ + "\ndescription: "@
            + skills[n - 1].description@ + "\n"@
    }
}

/// What the tool for skills does.
pub open spec fn skill_description(skills: Seq<Listing>) -> Seq<char> {
    SKILL_DESCRIPTION@ + skill_lines(skills, skills.len() as int)
}

/// What the tool for commands does.
pub open spec fn command_description(os: Seq<char>, arch: Seq<char>, shell: Seq<char>) -> Seq<char> {
    COMMAND_DESCRIPTION@ + "Choose terminal commands and scripts optimized for "@ + os + " and "@
        + arch + " and shell "@ + shell + "."@
}

/// The description of a tool in the table, from entry `i` on.
pub open spec fn listed_description(tool: Seq<char>, i: int) -> Option<Seq<char>>
    decreases DESCRIPTIONS@.len() - i,
{
    if i < 0 || i >= DESCRIPTIONS@.len() {
        None
    } else if DESCRIPTIONS@[i].0@ == tool {
        Some(DESCRIPTIONS@[i].1@)
    } else {
        listed_description(tool, i + 1)
    }
}

/// What a tool does; of an unknown one nothing is said.
pub open spec fn description_of(tool: Seq<char>, around: Surroundings) -> Option<Seq<char>> {
    if tool == "run_terminal_command"@ {
        Some(command_description(around.os@, around.arch@, around.shell@))
    } else if tool == "request_rule"@ {
        Some(rule_description(around.rules@))
    } else if tool == "read_skill"@ {
        Some(skill_description(around.skills@))
    } else {
        listed_description(tool, 0)
    }
}

/// What the tool for commands does.
pub fn run_terminal_command_description(os: &str, arch: &str, shell: &str) -> (r: String)
    ensures
        r@ == command_description(os@, arch@, shell@),
{
    let mut out = text::glue3(
        COMMAND_DESCRIPTION,
        "Choose terminal commands and scripts optimized for ",
        os,
    );
    out.append(" and ");
    out.append(arch);
    out.append(" and shell ");
    out.append(shell);
    out.append(".");
    out
}

/// What the tool for rules does.
pub fn request_rule_description(rules: &Vec<Listing>) -> (r: String)
    ensures
        r@ == rule_description(rules@),
{
    if rules.len() == 0 {
        return text::glue(RULE_DESCRIPTION, "No rules available.");
    }
    let ghost goal = rule_lines(rules@);
    let mut lines: Vec<String> = Vec::new();
    let mut i: usize = 0;
    assert(views(lines@) =~= goal.take(0));
    while i < rules.len()
        invariant
            i <= rules@.len(),
            goal == rule_lines(rules@),
            views(lines@) == goal.take(i as int),
        decreases rules@.len() - i,
    {
        let line = text::glue3(rules[i].name.as_str(), ": ", rules[i].description.as_str());
        push_name(&mut lines, line.as_str());
        assert(goal.take(i + 1) =~= goal.take(i as int).push(goal[i as int]));
        i += 1;
    }
    assert(goal.take(i as int) =~= goal);
    text::glue(RULE_DESCRIPTION, text::joined_strings(&lines, "\n").as_str())
}

/// What the tool for skills does.
pub fn read_skill_description(skills: &Vec<Listing>) -> (r: String)
    ensures
        r@ == skill_description(skills@),
{
    let mut out = SKILL_DESCRIPTION.to_owned();
    let mut i: usize = 0;
    assert(SKILL_DESCRIPTION@ + skill_lines(skills@, 0) =~= SKILL_DESCRIPTION@);
    while i < skills.len()
        invariant
            i <= skills@.len(),
            out@ == SKILL_DESCRIPTION@ + skill_lines(skills@, i as int),
        decreases skills@.len() - i,
    {
        out.append("\nname: ");
        out.append(skills[i].name.as_str());
        out.append("\ndescription: ");
        out.append(skills[i].description.as_str());
        out.append("\n");
        assert(out@ =~= SKILL_DESCRIPTION@ + skill_lines(skills@, i + 1));
        i += 1;
    }
    out
}

/// What the model is told about a tool: what it does, and the schema of its arguments.
pub fn tool_spec(name: &str, around: &Surroundings) -> (r: (Option<String>, Json))
    ensures
        opt_text(r.0) == description_of(name@, *around),
        r.1@ == schema_of(name@),
{
    let description = if text::same(name, "run_terminal_command") {
        Some(
            run_terminal_command_description(
                around.os.as_str(),
                around.arch.as_str(),
                around.shell.as_str(),
            ),
        )
    } else if text::same(name, "request_rule") {
        Some(request_rule_description(&around.rules))
    } else if text::same(name, "read_skill") {
        Some(read_skill_description(&around.skills))
    } else {
        find_description(name)
    };
    (description, schema(name))
}

/// The description of a tool in the table.
fn find_description(tool: &str) -> (r: Option<String>)
    ensures
        opt_text(r) == listed_description(tool@, 0),
{
    let mut i: usize = 0;
    while i < 13
        invariant
            i <= 13,
            listed_description(tool@, 0) == listed_description(tool@, i as int),
        decreases 13 - i,
    {
        let (name, description) = DESCRIPTIONS[i];
        if text::same(name, tool) {
            return Some(description.to_owned());
        }
        i += 1;
    }
    None
}

// ---------------------------------------------------------------------------------------------
// Calls
// ---------------------------------------------------------------------------------------------
/// The first of the names, from `i` on, that the arguments do not hold.
pub open spec fn missing_from(names: Seq<Seq<char>>, arguments: JsonView, i: int) -> Option<Seq<char>>
    decreases names.len() - i,
{
    if i < 0 || i >= names.len() {
        None
    } else if arguments.field(names[i]) is None {
        Some(names[i])
    } else {
        missing_from(names, arguments, i + 1)
    }
}

/// The first required parameter of a tool that the arguments do not hold.
pub open spec fn missing_parameter(tool: Seq<char>, arguments: JsonView) -> Option<Seq<char>> {
    missing_from(all_required(tool), arguments, 0)
}

/// The first required parameter of a tool that the arguments do not hold.
pub fn missing_required_argument(name: &str, arguments: &Json) -> (r: Option<String>)
    ensures
        opt_text(r) == missing_parameter(name@, arguments@),
{
    let names = required_parameters(name);
    let ghost all = views(names@);
    let mut i: usize = 0;
    while i < names.len()
        invariant
            i <= names@.len(),
            all == views(names@),
            all == all_required(name@),
            missing_from(all, arguments@, 0) == missing_from(all, arguments@, i as int),
        decreases names@.len() - i,
    {
        assert(all[i as int] == names@[i as int]@);
        if arguments.get(names[i].as_str()).is_none() {
            return Some(names[i].clone());
        }
        i += 1;
    }
    None
}

/// Every default tool is described.
pub proof fn every_tool_is_described(i: int, around: Surroundings)
    requires
        0 <= i < DEFAULT_TOOLS@.len(),
    ensures
        description_of(DEFAULT_TOOLS@[i].0@, around) is Some,
{
    reveal_with_fuel(listed_description, 15);
}

/// Every parameter that must be given is one that the tool has.
pub proof fn required_parameters_exist(i: int)
    requires
        0 <= i < REQUIRED@.len(),
    ensures
        exists|j: int|
            0 <= j < PARAMETERS@.len() && (#[trigger] PARAMETERS@[j]).0@ == REQUIRED@[i].0@
                && PARAMETERS@[j].1@ == REQUIRED@[i].1@,
{
    assert(i == 0 ==> PARAMETERS@[0].0@ == REQUIRED@[i].0@ && PARAMETERS@[0].1@ == REQUIRED@[i].1@);
    assert(i == 1 ==> PARAMETERS@[1].0@ == REQUIRED@[i].0@ && PARAMETERS@[1].1@ == REQUIRED@[i].1@);
    assert(i == 2 ==> PARAMETERS@[2].0@ == REQUIRED@[i].0@ && PARAMETERS@[2].1@ == REQUIRED@[i].1@);
    assert(i == 3 ==> PARAMETERS@[3].0@ == REQUIRED@[i].0@ && PARAMETERS@[3].1@ == REQUIRED@[i].1@);
    assert(i == 4 ==> PARAMETERS@[5].0@ == REQUIRED@[i].0@ && PARAMETERS@[5].1@ == REQUIRED@[i].1@);
    assert(i == 5 ==> PARAMETERS@[8].0@ == REQUIRED@[i].0@ && PARAMETERS@[8].1@ == REQUIRED@[i].1@);
    assert(i == 6 ==> PARAMETERS@[9].0@ == REQUIRED@[i].0@ && PARAMETERS@[9].1@ == REQUIRED@[i].1@);
    assert(i == 7 ==> PARAMETERS@[15].0@ == REQUIRED@[i].0@ && PARAMETERS@[15].1@ == REQUIRED@[i].1@);
    assert(i == 8 ==> PARAMETERS@[16].0@ == REQUIRED@[i].0@ && PARAMETERS@[16].1@ == REQUIRED@[i].1@);
    assert(i == 9 ==> PARAMETERS@[17].0@ == REQUIRED@[i].0@ && PARAMETERS@[17].1@ == REQUIRED@[i].1@);
    assert(i == 10 ==> PARAMETERS@[18].0@ == REQUIRED@[i].0@ && PARAMETERS@[18].1@ == REQUIRED@[i].1@);
    assert(i == 11 ==> PARAMETERS@[19].0@ == REQUIRED@[i].0@ && PARAMETERS@[19].1@ == REQUIRED@[i].1@);
    assert(i == 12 ==> PARAMETERS@[20].0@ == REQUIRED@[i].0@ && PARAMETERS@[20].1@ == REQUIRED@[i].1@);
    assert(i == 13 ==> PARAMETERS@[21].0@ == REQUIRED@[i].0@ && PARAMETERS@[21].1@ == REQUIRED@[i].1@);
    assert(i == 14 ==> PARAMETERS@[22].0@ == REQUIRED@[i].0@ && PARAMETERS@[22].1@ == REQUIRED@[i].1@);
    assert(i == 15 ==> PARAMETERS@[23].0@ == REQUIRED@[i].0@ && PARAMETERS@[23].1@ == REQUIRED@[i].1@);
    assert(i == 16 ==> PARAMETERS@[25].0@ == REQUIRED@[i].0@ && PARAMETERS@[25].1@ == REQUIRED@[i].1@);
    assert(i == 17 ==> PARAMETERS@[26].0@ == REQUIRED@[i].0@ && PARAMETERS@[26].1@ == REQUIRED@[i].1@);
    assert(i == 18 ==> PARAMETERS@[33].0@ == REQUIRED@[i].0@ && PARAMETERS@[33].1@ == REQUIRED@[i].1@);
    assert(i == 19 ==> PARAMETERS@[34].0@ == REQUIRED@[i].0@ && PARAMETERS@[34].1@ == REQUIRED@[i].1@);
}

} // verus!
