//! What the tools are asked to do, as their arguments say it.

use crate::app::scheduler::{
    later, Condition, ConditionView, KindView, Scheduler, TaskAction, TaskActionView, TaskKind,
    TaskView,
};
use crate::json;
use crate::json::{fields_view, Json, JsonView};
use crate::number::Duration;
use crate::text;
use crate::text::{decimal, opt_text, split, unsigned};
use vstd::prelude::*;

verus! {

// ---------------------------------------------------------------------------------------------
// Arguments
// ---------------------------------------------------------------------------------------------
/// A text that must be given, or what is said if it is not.
pub open spec fn text_or_error(args: JsonView, key: Seq<char>) -> Result<Seq<char>, Seq<char>> {
    match args.text_field(key) {
        Some(s) => Ok(s),
        None => Err("missing string argument: "@ + key),
    }
}

/// A truth value that may be given.
pub open spec fn truth_field(args: JsonView, key: Seq<char>) -> Option<bool> {
    match args.field(key) {
        Some(value) => value.truth(),
        None => None,
    }
}

/// A number that may be given.
pub open spec fn natural_field(args: JsonView, key: Seq<char>) -> Option<nat> {
    match args.field(key) {
        Some(value) => value.natural(),
        None => None,
    }
}

/// A text that must be given.
pub fn string_arg(args: &Json, key: &str) -> (r: Result<String, String>)
    ensures
        match r {
            Ok(s) => text_or_error(args@, key@) == Ok::<Seq<char>, Seq<char>>(s@),
            Err(e) => text_or_error(args@, key@) == Err::<Seq<char>, Seq<char>>(e@),
        },
{
    match args.get_str(key) {
        Some(s) => Ok(s),
        None => Err(text::glue("missing string argument: ", key)),
    }
}

/// A text that may be given.
pub fn optional_string_arg(args: &Json, key: &str) -> (r: Option<String>)
    ensures
        opt_text(r) == args@.text_field(key@),
{
    args.get_str(key)
}

/// A truth value that may be given.
pub fn optional_bool_arg(args: &Json, key: &str) -> (r: Option<bool>)
    ensures
        r == truth_field(args@, key@),
{
    match args.get(key) {
        Some(value) => value.as_bool(),
        None => None,
    }
}

/// A number that may be given.
fn optional_u64_arg(args: &Json, key: &str) -> (r: Option<u64>)
    ensures
        match r {
            Some(n) => natural_field(args@, key@) == Some(n as nat),
            None => natural_field(args@, key@) is None,
        },
{
    match args.get(key) {
        Some(value) => value.as_u64(),
        None => None,
    }
}

// ---------------------------------------------------------------------------------------------
// Requests
// ---------------------------------------------------------------------------------------------
/// What a tool is asked to do.
#[derive(Debug)]
pub enum ToolRequest {
    ReadFile { filepath: String },
    CreateNewFile { filepath: String, contents: String },
    RunTerminalCommand { command: String, wait: bool },
    FileGlobSearch { pattern: String },
    ViewDiff,
    Ls { dir_path: Option<String>, recursive: bool },
    CreateRuleBlock {
        name: String,
        rule: String,
        description: Option<String>,
        globs: Option<String>,
        regex: Option<String>,
        always_apply: Option<bool>,
        scope: Option<String>,
    },
    FetchUrlContent { url: String },
    RequestRule { name: String },
    ReadSkill { skill_name: String },
    SearchWeb { query: String },
    EditExistingFile { filepath: String, changes: String },
    SingleFindAndReplace {
        filepath: String,
        old_string: String,
        new_string: String,
        replace_all: bool,
    },
    GrepSearch { query: String },
    ScheduleTask,
    CancelTask { id: u64 },
}

/// A `ToolRequest` with its texts as characters.
pub ghost enum RequestView {
    ReadFile { filepath: Seq<char> },
    CreateNewFile { filepath: Seq<char>, contents: Seq<char> },
    RunTerminalCommand { command: Seq<char>, wait: bool },
    FileGlobSearch { pattern: Seq<char> },
    ViewDiff,
    Ls { dir_path: Option<Seq<char>>, recursive: bool },
    CreateRuleBlock {
        name: Seq<char>,
        rule: Seq<char>,
        description: Option<Seq<char>>,
        globs: Option<Seq<char>>,
        regex: Option<Seq<char>>,
        always_apply: Option<bool>,
        scope: Option<Seq<char>>,
    },
    FetchUrlContent { url: Seq<char> },
    RequestRule { name: Seq<char> },
    ReadSkill { skill_name: Seq<char> },
    SearchWeb { query: Seq<char> },
    EditExistingFile { filepath: Seq<char>, changes: Seq<char> },
    SingleFindAndReplace {
        filepath: Seq<char>,
        old_string: Seq<char>,
        new_string: Seq<char>,
        replace_all: bool,
    },
    GrepSearch { query: Seq<char> },
    ScheduleTask,
    CancelTask { id: nat },
}

impl View for ToolRequest {
    type V = RequestView;

    open spec fn view(&self) -> RequestView {
        match self {
            ToolRequest::ReadFile { filepath } => RequestView::ReadFile { filepath: filepath@ },
            ToolRequest::CreateNewFile { filepath, contents } => RequestView::CreateNewFile {
                filepath: filepath@,
                contents: contents@,
            },
            ToolRequest::RunTerminalCommand { command, wait } => RequestView::RunTerminalCommand {
                command: command@,
                wait: *wait,
            },
            ToolRequest::FileGlobSearch { pattern } => RequestView::FileGlobSearch {
                pattern: pattern@,
            },
            ToolRequest::ViewDiff => RequestView::ViewDiff,
            ToolRequest::Ls { dir_path, recursive } => RequestView::Ls {
                dir_path: opt_text(*dir_path),
                recursive: *recursive,
            },
            ToolRequest::CreateRuleBlock {
                name,
                rule,
                description,
                globs,
                regex,
                always_apply,
                scope,
            } => RequestView::CreateRuleBlock {
                name: name@,
                rule: rule@,
                description: opt_text(*description),
                globs: opt_text(*globs),
                regex: opt_text(*regex),
                always_apply: *always_apply,
                scope: opt_text(*scope),
            },
            ToolRequest::FetchUrlContent { url } => RequestView::FetchUrlContent { url: url@ },
            ToolRequest::RequestRule { name } => RequestView::RequestRule { name: name@ },
            ToolRequest::ReadSkill { skill_name } => RequestView::ReadSkill {
                skill_name: skill_name@,
            },
            ToolRequest::SearchWeb { query } => RequestView::SearchWeb { query: query@ },
            ToolRequest::EditExistingFile { filepath, changes } => RequestView::EditExistingFile {
                filepath: filepath@,
                changes: changes@,
            },
            ToolRequest::SingleFindAndReplace { filepath, old_string, new_string, replace_all } =>
                RequestView::SingleFindAndReplace {
                filepath: filepath@,
                old_string: old_string@,
                new_string: new_string@,
                replace_all: *replace_all,
            },
            ToolRequest::GrepSearch { query } => RequestView::GrepSearch { query: query@ },
            ToolRequest::ScheduleTask => RequestView::ScheduleTask,
            ToolRequest::CancelTask { id } => RequestView::CancelTask { id: *id as nat },
        }
    }
}

/// What a rule is asked to be.
pub open spec fn rule_of(args: JsonView) -> Result<RequestView, Seq<char>> {
    match (text_or_error(args, "name"@), text_or_error(args, "rule"@)) {
        (Err(e), _) => Err(e),
        (_, Err(e)) => Err(e),
        (Ok(name), Ok(rule)) => Ok(
            RequestView::CreateRuleBlock {
                name,
                rule,
                description: args.text_field("description"@),
                globs: args.text_field("globs"@),
                regex: args.text_field("regex"@),
                always_apply: truth_field(args, "alwaysApply"@),
                scope: args.text_field("scope"@),
            },
        ),
    }
}

/// What a replacement is asked to be.
pub open spec fn replacement_of(args: JsonView) -> Result<RequestView, Seq<char>> {
    match (
        text_or_error(args, "filepath"@),
        text_or_error(args, "old_string"@),
        text_or_error(args, "new_string"@),
    ) {
        (Err(e), _, _) => Err(e),
        (_, Err(e), _) => Err(e),
        (_, _, Err(e)) => Err(e),
        (Ok(filepath), Ok(old_string), Ok(new_string)) => Ok(
            RequestView::SingleFindAndReplace {
                filepath,
                old_string,
                new_string,
                replace_all: truth_field(args, "replace_all"@) == Some(true),
            },
        ),
    }
}

/// What a tool is asked to do, or what is said if its arguments are not in order. Of an unknown tool
/// nothing can be asked.
pub open spec fn request_of(tool: Seq<char>, args: JsonView) -> Option<
    Result<RequestView, Seq<char>>,
> {
    if tool == "read_file"@ {
        Some(
            match text_or_error(args, "filepath"@) {
                Ok(filepath) => Ok(RequestView::ReadFile { filepath }),
                Err(e) => Err(e),
            },
        )
    } else if tool == "create_new_file"@ {
        Some(
            match (text_or_error(args, "filepath"@), text_or_error(args, "contents"@)) {
                (Err(e), _) => Err(e),
                (_, Err(e)) => Err(e),
                (Ok(filepath), Ok(contents)) => Ok(
                    RequestView::CreateNewFile { filepath, contents },
                ),
            },
        )
    } else if tool == "run_terminal_command"@ {
        Some(
            match text_or_error(args, "command"@) {
                Ok(command) => Ok(
                    RequestView::RunTerminalCommand {
                        command,
                        wait: truth_field(args, "waitForCompletion"@) != Some(false),
                    },
                ),
                Err(e) => Err(e),
            },
        )
    } else if tool == "file_glob_search"@ {
        Some(
            match text_or_error(args, "pattern"@) {
                Ok(pattern) => Ok(RequestView::FileGlobSearch { pattern }),
                Err(e) => Err(e),
            },
        )
    } else if tool == "view_diff"@ {
        Some(Ok(RequestView::ViewDiff))
    } else if tool == "ls"@ {
        Some(
            Ok(
                RequestView::Ls {
                    dir_path: args.text_field("dirPath"@),
                    recursive: truth_field(args, "recursive"@) == Some(true),
                },
            ),
        )
    } else if tool == "create_rule_block"@ {
        Some(rule_of(args))
    } else if tool == "fetch_url_content"@ {
        Some(
            match text_or_error(args, "url"@) {
                Ok(url) => Ok(RequestView::FetchUrlContent { url }),
                Err(e) => Err(e),
            },
        )
    } else if tool == "request_rule"@ {
        Some(
            match text_or_error(args, "name"@) {
                Ok(name) => Ok(RequestView::RequestRule { name }),
                Err(e) => Err(e),
            },
        )
    } else if tool == "read_skill"@ {
        Some(
            match text_or_error(args, "skillName"@) {
                Ok(skill_name) => Ok(RequestView::ReadSkill { skill_name }),
                Err(e) => Err(e),
            },
        )
    } else if tool == "search_web"@ {
        Some(
            match text_or_error(args, "query"@) {
                Ok(query) => Ok(RequestView::SearchWeb { query }),
                Err(e) => Err(e),
            },
        )
    } else if tool == "edit_existing_file"@ {
        Some(
            match (text_or_error(args, "filepath"@), text_or_error(args, "changes"@)) {
                (Err(e), _) => Err(e),
                (_, Err(e)) => Err(e),
                (Ok(filepath), Ok(changes)) => Ok(
                    RequestView::EditExistingFile { filepath, changes },
                ),
            },
        )
    } else if tool == "single_find_and_replace"@ {
        Some(replacement_of(args))
    } else if tool == "grep_search"@ {
        Some(
            match text_or_error(args, "query"@) {
                Ok(query) => Ok(RequestView::GrepSearch { query }),
                Err(e) => Err(e),
            },
        )
    } else if tool == "schedule_task"@ {
        Some(Ok(RequestView::ScheduleTask))
    } else if tool == "cancel_task"@ {
        Some(
            match natural_field(args, "id"@) {
                Some(id) => Ok(RequestView::CancelTask { id }),
                None => Err("cancel_task: missing id"@),
            },
        )
    } else {
        None
    }
}

/// A result as a contract gives it.
pub open spec fn is_request(
    r: Option<Result<ToolRequest, String>>,
    view: Option<Result<RequestView, Seq<char>>>,
) -> bool {
    match r {
        Some(Ok(request)) => view == Some(Ok::<RequestView, Seq<char>>(request@)),
        Some(Err(e)) => view == Some(Err::<RequestView, Seq<char>>(e@)),
        None => view is None,
    }
}

/// What a rule is asked to be, or what is said if its arguments are not in order.
fn rule_request(args: &Json) -> (r: Result<ToolRequest, String>)
    ensures
        is_request(Some(r), Some(rule_of(args@))),
{
    let name = match string_arg(args, "name") {
        Ok(name) => name,
        Err(e) => return Err(e),
    };
    let rule = match string_arg(args, "rule") {
        Ok(rule) => rule,
        Err(e) => return Err(e),
    };
    Ok(
        ToolRequest::CreateRuleBlock {
            name,
            rule,
            description: optional_string_arg(args, "description"),
            globs: optional_string_arg(args, "globs"),
            regex: optional_string_arg(args, "regex"),
            always_apply: optional_bool_arg(args, "alwaysApply"),
            scope: optional_string_arg(args, "scope"),
        },
    )
}

/// What a replacement is asked to be, or what is said if its arguments are not in order.
fn replace_request(args: &Json) -> (r: Result<ToolRequest, String>)
    ensures
        is_request(Some(r), Some(replacement_of(args@))),
{
    let filepath = match string_arg(args, "filepath") {
        Ok(filepath) => filepath,
        Err(e) => return Err(e),
    };
    let old_string = match string_arg(args, "old_string") {
        Ok(old_string) => old_string,
        Err(e) => return Err(e),
    };
    let new_string = match string_arg(args, "new_string") {
        Ok(new_string) => new_string,
        Err(e) => return Err(e),
    };
    let replace_all = match optional_bool_arg(args, "replace_all") {
        Some(b) => b,
        None => false,
    };
    Ok(ToolRequest::SingleFindAndReplace { filepath, old_string, new_string, replace_all })
}

/// What a tool is asked to do, or what is said if its arguments are not in order. Of an unknown tool
/// nothing can be asked.
pub fn tool_request(name: &str, args: &Json) -> (r: Option<Result<ToolRequest, String>>)
    ensures
        is_request(r, request_of(name@, args@)),
{
    if text::same(name, "read_file") {
        Some(
            match string_arg(args, "filepath") {
                Ok(filepath) => Ok(ToolRequest::ReadFile { filepath }),
                Err(e) => Err(e),
            },
        )
    } else if text::same(name, "create_new_file") {
        let filepath = match string_arg(args, "filepath") {
            Ok(filepath) => filepath,
            Err(e) => return Some(Err(e)),
        };
        match string_arg(args, "contents") {
            Ok(contents) => Some(Ok(ToolRequest::CreateNewFile { filepath, contents })),
            Err(e) => Some(Err(e)),
        }
    } else if text::same(name, "run_terminal_command") {
        let wait = match optional_bool_arg(args, "waitForCompletion") {
            Some(b) => b,
            None => true,
        };
        Some(
            match string_arg(args, "command") {
                Ok(command) => Ok(ToolRequest::RunTerminalCommand { command, wait }),
                Err(e) => Err(e),
            },
        )
    } else if text::same(name, "file_glob_search") {
        Some(
            match string_arg(args, "pattern") {
                Ok(pattern) => Ok(ToolRequest::FileGlobSearch { pattern }),
                Err(e) => Err(e),
            },
        )
    } else if text::same(name, "view_diff") {
        Some(Ok(ToolRequest::ViewDiff))
    } else if text::same(name, "ls") {
        let recursive = match optional_bool_arg(args, "recursive") {
            Some(b) => b,
            None => false,
        };
        Some(Ok(ToolRequest::Ls { dir_path: optional_string_arg(args, "dirPath"), recursive }))
    } else if text::same(name, "create_rule_block") {
        Some(rule_request(args))
    } else if text::same(name, "fetch_url_content") {
        Some(
            match string_arg(args, "url") {
                Ok(url) => Ok(ToolRequest::FetchUrlContent { url }),
                Err(e) => Err(e),
            },
        )
    } else if text::same(name, "request_rule") {
        Some(
            match string_arg(args, "name") {
                Ok(name) => Ok(ToolRequest::RequestRule { name }),
                Err(e) => Err(e),
            },
        )
    } else if text::same(name, "read_skill") {
        Some(
            match string_arg(args, "skillName") {
                Ok(skill_name) => Ok(ToolRequest::ReadSkill { skill_name }),
                Err(e) => Err(e),
            },
        )
    } else if text::same(name, "search_web") {
        Some(
            match string_arg(args, "query") {
                Ok(query) => Ok(ToolRequest::SearchWeb { query }),
                Err(e) => Err(e),
            },
        )
    } else if text::same(name, "edit_existing_file") {
        let filepath = match string_arg(args, "filepath") {
            Ok(filepath) => filepath,
            Err(e) => return Some(Err(e)),
        };
        match string_arg(args, "changes") {
            Ok(changes) => Some(Ok(ToolRequest::EditExistingFile { filepath, changes })),
            Err(e) => Some(Err(e)),
        }
    } else if text::same(name, "single_find_and_replace") {
        Some(replace_request(args))
    } else if text::same(name, "grep_search") {
        Some(
            match string_arg(args, "query") {
                Ok(query) => Ok(ToolRequest::GrepSearch { query }),
                Err(e) => Err(e),
            },
        )
    } else if text::same(name, "schedule_task") {
        Some(Ok(ToolRequest::ScheduleTask))
    } else if text::same(name, "cancel_task") {
        Some(
            match optional_u64_arg(args, "id") {
                Some(id) => Ok(ToolRequest::CancelTask { id }),
                None => Err("cancel_task: missing id".to_owned()),
            },
        )
    } else {
        None
    }
}

// ---------------------------------------------------------------------------------------------
// Tasks
// ---------------------------------------------------------------------------------------------
/// When a task is asked to run.
#[derive(Debug)]
pub enum When {
    After { seconds: u64 },
    At { hour: u32, minute: u32, shown: String },
    Every { seconds: u64 },
    Watch { condition: Condition, check_every: u64, timeout: Option<u64> },
}

/// A `When` with its texts as characters.
pub ghost enum WhenView {
    After { seconds: nat },
    At { hour: nat, minute: nat, shown: Seq<char> },
    Every { seconds: nat },
    Watch { condition: ConditionView, check_every: nat, timeout: Option<nat> },
}

impl View for When {
    type V = WhenView;

    open spec fn view(&self) -> WhenView {
        match self {
            When::After { seconds } => WhenView::After { seconds: *seconds as nat },
            When::At { hour, minute, shown } => WhenView::At {
                hour: *hour as nat,
                minute: *minute as nat,
                shown: shown@,
            },
            When::Every { seconds } => WhenView::Every { seconds: *seconds as nat },
            When::Watch { condition, check_every, timeout } => WhenView::Watch {
                condition: condition@,
                check_every: *check_every as nat,
                timeout: match timeout {
                    Some(t) => Some(*t as nat),
                    None => None,
                },
            },
        }
    }
}

/// The action that a task is asked to run.
pub open spec fn action_of(args: JsonView) -> Result<TaskActionView, Seq<char>> {
    match args.field("action"@) {
        None => Err("task: missing action"@),
        Some(action) => match action.text_field("tool"@) {
            None => Err("task: action.tool missing"@),
            Some(tool) => Ok(
                TaskActionView {
                    tool,
                    arguments: match action.field("arguments"@) {
                        Some(arguments) => arguments,
                        None => JsonView::Object(Seq::empty()),
                    },
                },
            ),
        },
    }
}

/// The action that a task is asked to run.
pub fn parse_action(args: &Json) -> (r: Result<TaskAction, String>)
    ensures
        match r {
            Ok(action) => action_of(args@) == Ok::<TaskActionView, Seq<char>>(action@),
            Err(e) => action_of(args@) == Err::<TaskActionView, Seq<char>>(e@),
        },
{
    let action = match args.get("action") {
        Some(action) => action,
        None => return Err("task: missing action".to_owned()),
    };
    let tool = match action.get_str("tool") {
        Some(tool) => tool,
        None => return Err("task: action.tool missing".to_owned()),
    };
    let arguments = match action.get("arguments") {
        Some(arguments) => arguments.duplicate(),
        None => {
            let none: Vec<(String, Json)> = Vec::new();
            assert(fields_view(none@) =~= Seq::empty());
            json::object(none)
        },
    };
    Ok(TaskAction { tool, arguments })
}

/// The condition that a task waits for.
pub open spec fn condition_of(args: JsonView) -> Result<ConditionView, Seq<char>> {
    match args.field("condition"@) {
        None => Err("task monitor: missing condition"@),
        Some(cond) => match cond.text_field("type"@) {
            None => Err("task monitor: condition.type missing"@),
            Some(kind) => if kind == "output_contains"@ {
                match (cond.text_field("cmd"@), cond.text_field("contains"@)) {
                    (None, _) => Err("task monitor: output_contains needs cmd"@),
                    (_, None) => Err("task monitor: output_contains needs contains"@),
                    (Some(cmd), Some(contains)) => Ok(
                        ConditionView::OutputContains { cmd, contains },
                    ),
                }
            } else if kind == "exit_code"@ {
                match cond.text_field("cmd"@) {
                    None => Err("task monitor: exit_code needs cmd"@),
                    Some(cmd) => Ok(ConditionView::ExitZero { cmd }),
                }
            } else if kind == "file_exists"@ {
                match cond.text_field("path"@) {
                    None => Err("task monitor: file_exists needs path"@),
                    Some(path) => Ok(ConditionView::FileExists { path }),
                }
            } else {
                Err("task monitor: unknown condition type "@ + kind)
            },
        },
    }
}

/// The condition that a task waits for.
pub fn parse_condition(args: &Json) -> (r: Result<Condition, String>)
    ensures
        match r {
            Ok(condition) => condition_of(args@) == Ok::<ConditionView, Seq<char>>(condition@),
            Err(e) => condition_of(args@) == Err::<ConditionView, Seq<char>>(e@),
        },
{
    let cond = match args.get("condition") {
        Some(cond) => cond,
        None => return Err("task monitor: missing condition".to_owned()),
    };
    let kind = match cond.get_str("type") {
        Some(kind) => kind,
        None => return Err("task monitor: condition.type missing".to_owned()),
    };
    if text::same(kind.as_str(), "output_contains") {
        let cmd = match cond.get_str("cmd") {
            Some(cmd) => cmd,
            None => return Err("task monitor: output_contains needs cmd".to_owned()),
        };
        match cond.get_str("contains") {
            Some(contains) => Ok(Condition::OutputContains { cmd, contains }),
            None => Err("task monitor: output_contains needs contains".to_owned()),
        }
    } else if text::same(kind.as_str(), "exit_code") {
        match cond.get_str("cmd") {
            Some(cmd) => Ok(Condition::ExitZero { cmd }),
            None => Err("task monitor: exit_code needs cmd".to_owned()),
        }
    } else if text::same(kind.as_str(), "file_exists") {
        match cond.get_str("path") {
            Some(path) => Ok(Condition::FileExists { path }),
            None => Err("task monitor: file_exists needs path".to_owned()),
        }
    } else {
        Err(text::glue("task monitor: unknown condition type ", kind.as_str()))
    }
}

/// A time of day, as hours and minutes.
pub ghost struct TimeView {
    pub hour: nat,
    pub minute: nat,
}

/// The time of day that a text gives: hours and minutes with a colon between; what follows a second
/// colon is left out.
pub open spec fn time_of(at: Seq<char>) -> Result<TimeView, Seq<char>> {
    let parts = split(at, ':');
    let hour = unsigned(parts[0], u32::MAX as nat);
    let minute = if parts.len() > 1 {
        unsigned(parts[1], u32::MAX as nat)
    } else {
        None
    };
    match (hour, minute) {
        (Some(hour), Some(minute)) => if hour > 23 || minute > 59 {
            Err("task delay: invalid time"@)
        } else {
            Ok(TimeView { hour, minute })
        },
        _ => Err("task delay: invalid at format, use HH:MM"@),
    }
}

/// The time of day that a text gives.
pub fn parse_at(at: &str) -> (r: Result<(u32, u32), String>)
    ensures
        match r {
            Ok((hour, minute)) => time_of(at@) == Ok::<TimeView, Seq<char>>(
                TimeView { hour: hour as nat, minute: minute as nat },
            ) && hour <= 23 && minute <= 59,
            Err(e) => time_of(at@) == Err::<TimeView, Seq<char>>(e@),
        },
{
    let parts = text::pieces(text::chars_of(at).as_slice(), ':');
    let ghost all = text::rows(parts@);
    proof {
        text::split_not_empty(at@, ':');
        assert(all[0] == parts@[0]@);
    }
    let hour = text::parse_unsigned(parts[0].as_slice(), u32::MAX as u64);
    let minute = if parts.len() > 1 {
        assert(all[1] == parts@[1]@);
        text::parse_unsigned(parts[1].as_slice(), u32::MAX as u64)
    } else {
        None
    };
    match (hour, minute) {
        (Some(hour), Some(minute)) => {
            if hour > 23 || minute > 59 {
                Err("task delay: invalid time".to_owned())
            } else {
                Ok((hour as u32, minute as u32))
            }
        },
        _ => Err("task delay: invalid at format, use HH:MM".to_owned()),
    }
}

/// When a task is asked to run.
pub open spec fn when_of(kind: Seq<char>, args: JsonView) -> Result<WhenView, Seq<char>> {
    if kind == "delay"@ {
        match (natural_field(args, "seconds"@), args.text_field("at"@)) {
            (Some(seconds), _) => Ok(WhenView::After { seconds }),
            (None, Some(at)) => match time_of(at) {
                Ok(time) => Ok(
                    WhenView::At { hour: time.hour, minute: time.minute, shown: at },
                ),
                Err(e) => Err(e),
            },
            (None, None) => Err("task delay: provide seconds or at"@),
        }
    } else if kind == "schedule"@ {
        match natural_field(args, "interval_seconds"@) {
            Some(seconds) => Ok(WhenView::Every { seconds }),
            None => Err("task schedule: provide interval_seconds"@),
        }
    } else if kind == "monitor"@ {
        match condition_of(args) {
            Ok(condition) => Ok(
                WhenView::Watch {
                    condition,
                    check_every: match natural_field(args, "check_every_seconds"@) {
                        Some(seconds) => seconds,
                        None => 5,
                    },
                    timeout: natural_field(args, "timeout_seconds"@),
                },
            ),
            Err(e) => Err(e),
        }
    } else {
        Err("task: unknown type "@ + kind)
    }
}

/// A task that is asked for.
#[derive(Debug)]
pub struct TaskRequest {
    pub kind: String,
    pub when: When,
    pub action: TaskAction,
}

/// A `TaskRequest` with its texts as characters.
pub ghost struct TaskRequestView {
    pub kind: Seq<char>,
    pub when: WhenView,
    pub action: TaskActionView,
}

impl View for TaskRequest {
    type V = TaskRequestView;

    open spec fn view(&self) -> TaskRequestView {
        TaskRequestView { kind: self.kind@, when: self.when@, action: self.action@ }
    }
}

/// A task that is asked for, or what is said if the arguments are not in order.
pub open spec fn task_of(args: JsonView) -> Result<TaskRequestView, Seq<char>> {
    match args.text_field("type"@) {
        None => Err("task: missing type (delay|schedule|monitor)"@),
        Some(kind) => match action_of(args) {
            Err(e) => Err(e),
            Ok(action) => match when_of(kind, args) {
                Err(e) => Err(e),
                Ok(when) => Ok(TaskRequestView { kind, when, action }),
            },
        },
    }
}

/// When a task is asked to run.
fn parse_when(kind: &str, args: &Json) -> (r: Result<When, String>)
    ensures
        match r {
            Ok(when) => when_of(kind@, args@) == Ok::<WhenView, Seq<char>>(when@),
            Err(e) => when_of(kind@, args@) == Err::<WhenView, Seq<char>>(e@),
        },
{
    if text::same(kind, "delay") {
        if let Some(seconds) = optional_u64_arg(args, "seconds") {
            return Ok(When::After { seconds });
        }
        match optional_string_arg(args, "at") {
            Some(at) => match parse_at(at.as_str()) {
                Ok((hour, minute)) => Ok(When::At { hour, minute, shown: at }),
                Err(e) => Err(e),
            },
            None => Err("task delay: provide seconds or at".to_owned()),
        }
    } else if text::same(kind, "schedule") {
        match optional_u64_arg(args, "interval_seconds") {
            Some(seconds) => Ok(When::Every { seconds }),
            None => Err("task schedule: provide interval_seconds".to_owned()),
        }
    } else if text::same(kind, "monitor") {
        match parse_condition(args) {
            Ok(condition) => {
                let check_every: u64 = match optional_u64_arg(args, "check_every_seconds") {
                    Some(seconds) => seconds,
                    None => 5,
                };
                let timeout = optional_u64_arg(args, "timeout_seconds");
                Ok(When::Watch { condition, check_every, timeout })
            },
            Err(e) => Err(e),
        }
    } else {
        Err(text::glue("task: unknown type ", kind))
    }
}

/// A task that is asked for, or what is said if the arguments are not in order.
pub fn task_request(args: &Json) -> (r: Result<TaskRequest, String>)
    ensures
        match r {
            Ok(task) => task_of(args@) == Ok::<TaskRequestView, Seq<char>>(task@),
            Err(e) => task_of(args@) == Err::<TaskRequestView, Seq<char>>(e@),
        },
{
    let kind = match args.get_str("type") {
        Some(kind) => kind,
        None => return Err("task: missing type (delay|schedule|monitor)".to_owned()),
    };
    let action = match parse_action(args) {
        Ok(action) => action,
        Err(e) => return Err(e),
    };
    match parse_when(kind.as_str(), args) {
        Ok(when) => Ok(TaskRequest { kind, when, action }),
        Err(e) => Err(e),
    }
}

/// The nanoseconds of a day.
pub const DAY: i128 = 86_400_000_000_000;

/// The time until a time of day comes, given how far today's lies ahead: one that has passed comes
/// again a day later.
pub open spec fn time_until(ahead: int) -> int {
    if ahead <= 0 {
        ahead + DAY
    } else {
        ahead
    }
}

/// Some seconds as a length of time.
pub open spec fn seconds(n: nat) -> Duration {
    Duration { nanos: (n * 1_000_000_000) as u128 }
}

/// When a task runs that is asked for at a moment. `ahead` is how far today's time of day lies ahead,
/// where one was given that the day has.
pub open spec fn kind_at(when: WhenView, now: u128, ahead: Option<i64>) -> Option<KindView> {
    match when {
        WhenView::After { seconds: n } => Some(KindView::Delay { due: later(now, seconds(n)) }),
        WhenView::At { .. } => match ahead {
            Some(ahead) => if time_until(ahead as int) < 0 {
                None
            } else {
                Some(
                    KindView::Delay {
                        due: later(now, Duration { nanos: time_until(ahead as int) as u128 }),
                    },
                )
            },
            None => None,
        },
        WhenView::Every { seconds: n } => Some(
            KindView::Schedule { interval: seconds(n), next: later(now, seconds(n)) },
        ),
        WhenView::Watch { condition, check_every, timeout } => Some(
            KindView::Monitor {
                condition,
                check_every: seconds(check_every),
                deadline: match timeout {
                    Some(n) => Some(later(now, seconds(n))),
                    None => None,
                },
                last_check: None,
                checking: false,
            },
        ),
    }
}

/// When a task runs, in short.
pub open spec fn when_text(when: WhenView) -> Seq<char> {
    match when {
        WhenView::After { seconds } => decimal(seconds) + "s"@,
        WhenView::At { shown, .. } => shown,
        WhenView::Every { seconds } => "every "@ + decimal(seconds) + "s"@,
        WhenView::Watch { .. } => "monitor"@,
    }
}

/// When a task runs that is asked for at a moment.
fn kind_for(when: When, now: u128, ahead: Option<i64>) -> (r: Option<TaskKind>)
    ensures
        match r {
            Some(kind) => kind_at(when@, now, ahead) == Some(kind@),
            None => kind_at(when@, now, ahead) is None,
        },
{
    match when {
        When::After { seconds } => Some(
            TaskKind::Delay { due: now.saturating_add(Duration::from_secs(seconds).nanos) },
        ),
        When::At { .. } => match ahead {
            Some(ahead) => {
                let wait: i128 = if ahead <= 0 {
                    ahead as i128 + DAY
                } else {
                    ahead as i128
                };
                if wait < 0 {
                    None
                } else {
                    Some(TaskKind::Delay { due: now.saturating_add(wait as u128) })
                }
            },
            None => None,
        },
        When::Every { seconds } => {
            let interval = Duration::from_secs(seconds);
            Some(TaskKind::Schedule { interval, next: now.saturating_add(interval.nanos) })
        },
        When::Watch { condition, check_every, timeout } => {
            let deadline = match timeout {
                Some(n) => Some(now.saturating_add(Duration::from_secs(n).nanos)),
                None => None,
            };
            Some(
                TaskKind::Monitor {
                    condition,
                    check_every: Duration::from_secs(check_every),
                    deadline,
                    last_check: None,
                    checking: false,
                },
            )
        },
    }
}

/// What is said of a task that was scheduled.
pub open spec fn scheduled_text(id: u64, request: TaskRequestView) -> Seq<char> {
    "task #"@ + decimal(id as nat) + " scheduled ("@ + request.kind + ", "@ + when_text(
        request.when,
    ) + ")"@
}

/// Whether a task was scheduled at a moment, and what is said of it.
pub open spec fn task_scheduled(
    before: Scheduler,
    after: Scheduler,
    request: TaskRequestView,
    now: u128,
    ahead: Option<i64>,
    r: Result<String, String>,
) -> bool {
    match kind_at(request.when, now, ahead) {
        Some(kind) => {
            let id = before.next();
            &&& r matches Ok(said) && said@ == scheduled_text(id, request)
            &&& after.next() == id + 1
            &&& after.all() == before.all().push(TaskView { id, kind, action: request.action })
        },
        None => {
            &&& r matches Err(e) && e@ == "task delay: invalid time"@
            &&& after == before
        },
    }
}

/// Schedules a task at a moment. `ahead` is how far today's time of day lies ahead, where the request
/// gives one that the day has.
pub fn schedule_task(
    scheduler: &mut Scheduler,
    request: TaskRequest,
    now: u128,
    ahead: Option<i64>,
) -> (r: Result<String, String>)
    requires
        old(scheduler).next() < u64::MAX,
    ensures
        old(scheduler).wf() ==> final(scheduler).wf(),
        task_scheduled(*old(scheduler), *final(scheduler), request@, now, ahead, r),
{
    let detail = match &request.when {
        When::After { seconds } => text::glue(text::number_text(*seconds).as_str(), "s"),
        When::At { shown, .. } => shown.clone(),
        When::Every { seconds } => text::glue3("every ", text::number_text(*seconds).as_str(), "s"),
        When::Watch { .. } => "monitor".to_owned(),
    };
    let kind = match kind_for(request.when, now, ahead) {
        Some(kind) => kind,
        None => return Err("task delay: invalid time".to_owned()),
    };
    let id: u64 = scheduler.register(kind, request.action);
    let mut said = text::glue3("task #", text::number_text(id).as_str(), " scheduled (");
    said.append(request.kind.as_str());
    said.append(", ");
    said.append(detail.as_str());
    said.append(")");
    Ok(said)
}

/// What is said of a task that was to be cancelled.
pub fn cancel_task(scheduler: &mut Scheduler, id: u64) -> (r: String)
    ensures
        final(scheduler).all() == crate::app::scheduler::without_task(old(scheduler).all(), id),
        final(scheduler).next() == old(scheduler).next(),
        old(scheduler).wf() ==> final(scheduler).wf(),
        r@ == if crate::app::scheduler::task_from(old(scheduler).all(), id, 0) is Some {
            "cancelled task #"@ + decimal(id as nat)
        } else {
            "task #"@ + decimal(id as nat) + " not found"@
        },
{
    if scheduler.cancel(id) {
        text::glue("cancelled task #", text::number_text(id).as_str())
    } else {
        text::glue3("task #", text::number_text(id).as_str(), " not found")
    }
}

} // verus!
