//! The supervisor: a second look at every tool call before it runs.

use crate::json;
use crate::json::{json_parsed, json_printed, Json, JsonView};
use crate::text;
use crate::text::{contains, decimal, join, lowercase, opt_text, views};
use crate::util;
use crate::util::object_in;
use vstd::prelude::*;

verus! {

/// A tool call as it is remembered: its name, its arguments and what it gave.
#[derive(Debug, Clone, PartialEq)]
pub struct ToolCallRecord {
    pub name: String,
    pub arguments: String,
    pub output: String,
}

/// A `ToolCallRecord` with its texts as characters.
pub ghost struct RecordView {
    pub name: Seq<char>,
    pub arguments: Seq<char>,
    pub output: Seq<char>,
}

impl View for ToolCallRecord {
    type V = RecordView;

    open spec fn view(&self) -> RecordView {
        RecordView { name: self.name@, arguments: self.arguments@, output: self.output@ }
    }
}

/// The views of remembered tool calls.
pub open spec fn records_view(records: Seq<ToolCallRecord>) -> Seq<RecordView> {
    Seq::new(records.len(), |i: int| records[i]@)
}

/// What the supervisor makes of a tool call: it may run, it must be thought over, or other calls run
/// in its place.
#[derive(Debug)]
pub enum Verdict {
    Allow,
    Regenerate { reason: String },
    Corrected { calls: Vec<ToolCallRecord> },
}

/// A `Verdict` with its texts as characters.
pub ghost enum VerdictView {
    Allow,
    Regenerate { reason: Seq<char> },
    Corrected { calls: Seq<RecordView> },
}

impl View for Verdict {
    type V = VerdictView;

    open spec fn view(&self) -> VerdictView {
        match self {
            Verdict::Allow => VerdictView::Allow,
            Verdict::Regenerate { reason } => VerdictView::Regenerate { reason: reason@ },
            Verdict::Corrected { calls } => VerdictView::Corrected { calls: records_view(calls@) },
        }
    }
}

// ---------------------------------------------------------------------------------------------
// Prompts
// ---------------------------------------------------------------------------------------------
/// What the judge is told.
pub const JUDGE_PROMPT: &'static str = "You are a careful judge that gates every tool call an AI assistant makes.\n\n# Task\nDecide whether the pending tool call is acceptable, based on the user's request, the tools already used, and the pending call.\n\n# Checklist\nJudge each dimension independently. The user's request is the highest authority: when dimensions conflict, the user's request wins.\n1. Tool match: the right tool for the job — file reads (read_file), file creation (create_new_file), file edits (edit_existing_file, single_find_and_replace), content search (grep_search), name search (file_glob_search), directory listing (ls), git diff (view_diff), web search (search_web), URL fetch (fetch_url_content), rules (create_rule_block, request_rule), skills (read_skill), scheduling (schedule_task, cancel_task) — never a shell command (run_terminal_command) when a dedicated tool exists AND can do the job. The dedicated file tools only work inside the project directory; when the target path is outside the project (e.g. ~/Desktop), a shell command is the correct choice, not a violation. Read-only shell inspection (sed/awk/cat on specific line ranges, cat -A for invisible characters) is a legitimate verification use even inside the project: read_file has NO line-range parameters and returns the whole file, so do not correct a line-range inspection into read_file; the hard rule remains: never use shell commands to edit files.\n2. Arguments: well-formed and sufficient — required fields present, values plausible and relevant (e.g. the path names the file the task concerns). Do not invent arguments the tool does not support (read_file accepts only filepath).\n3. Order: the call follows the natural order of the task — gather needed information before acting on it; do not act on information not yet obtained; do not skip a needed preliminary step (e.g. investigate before answering, read before edit, search before read). Do NOT block because a tool output in the trace looks short or truncated — outputs may be truncated and the assistant may have seen the full output. But DO block when the trace shows the required prerequisite never happened: editing a file with no prior read of that file in the trace is a violation even when the user named the file — the assistant must read the file before editing it, UNLESS the user explicitly instructed the direct action (e.g. 'edit directly', 'do not read first', 'just run it'): an explicit user instruction to perform the action directly overrides the order requirement. Acting on information that was never gathered is also a violation. Verification calls that re-check current state are legitimate. Block only when a genuinely required prerequisite is missing.\n4. Goal alignment: stays on the requested task, no scope drift\n5. Safety: no destructive or risky actions beyond what the user asked for\n\n# Output\nReply with JSON only, no other text:\n{\"pass\": true|false, \"reason\": \"...\", \"action\": \"regenerate\"|\"correct\"}\n\n# Rules\n- pass is true unless at least one dimension has a concrete deficiency backed by evidence from the tool log\n- reason names the deficient dimension(s) and cites what you saw; when pass is true, write \"satisfactory\"\n- action is how to fix a failed call: \"correct\" if the call itself can be repaired in place (wrong tool, wrong arguments, missing preceding call); \"regenerate\" if the call should not happen at all (no tool needed, wrong approach) or the plan needs rethinking\n- For calls whose arguments embed large content (full file contents, long code blocks), prefer \"regenerate\" over \"correct\": correcting requires reproducing the whole call verbatim, which is unreliable at scale.\n- Do not invent flaws: if the call is plausible, allow it.";

/// What the editor is told, up to the tools that there are.
pub const CORRECTION_HEAD: &'static str = "You are an editor that repairs an AI assistant's tool call before it runs, so the user's request is served correctly. The judge found a defect in the pending call; your job is to fix the call itself, not the overall plan.\n\n# Task\nFix the pending tool call, given the user's request, the tools already used, the pending call, and the review finding.\n\n# Rules\n- Change only what is wrong: the wrong tool choice, wrong arguments, or a missing preceding call (e.g. read before edit). Everything else stays byte-identical — reproducing correct parts verbatim is what keeps the plan intact.\n- Large content arguments (full file contents, long code blocks in content/old/new) must be copied through unchanged. Do not summarize, truncate, or regenerate them; altering them breaks the edit the user asked for. If the defect is inside such an argument, fix only the small fields around it.\n- Output only the calls that must now run, in order. Do not repeat calls that already ran.\n- Use only the available tools: ";

/// What the editor is told after the tools that there are.
pub const CORRECTION_TAIL: &'static str = ".\n- If the pending call should not run at all (no tool needed, wrong approach), output {\"calls\": []} so the assistant re-plans instead.\n- Do not explain your changes.\n\n# Output\nReply with JSON only, no other text:\n{\"calls\": [{\"tool\": \"<tool name>\", \"arguments\": {<JSON arguments>}}]}";

/// What the judge is told, with what went wrong before.
pub open spec fn judge_text(patterns: Seq<Seq<char>>) -> Seq<char> {
    if patterns.len() == 0 {
        JUDGE_PROMPT@
    } else {
        JUDGE_PROMPT@ + "\n\nKnown failure patterns from history: "@ + join(patterns, "; "@)
    }
}

/// What the editor is told.
pub open spec fn correction_text(tools: Seq<Seq<char>>) -> Seq<char> {
    CORRECTION_HEAD@ + join(tools, ", "@) + CORRECTION_TAIL@
}

/// The first `n` of the tool calls so far, numbered.
pub open spec fn numbered(trace: Seq<RecordView>, n: int) -> Seq<char>
    decreases n,
{
    if n <= 0 {
        Seq::empty()
    } else {
        numbered(trace, n - 1) + "\n"@ + decimal(n as nat) + ". "@ + trace[n - 1].name + "("@
            + trace[n - 1].arguments + ") -> "@ + trace[n - 1].output
    }
}

/// What the judge and the editor are asked about: the request, the tool calls so far, and the one
/// that waits.
pub open spec fn question(input: Seq<char>, trace: Seq<RecordView>, pending: RecordView) -> Seq<char> {
    let head = "User: "@ + input + "\n"@;
    let used = if trace.len() == 0 {
        head
    } else {
        head + "Tools used so far:"@ + numbered(trace, trace.len() as int)
    };
    used + "\nPending tool call: "@ + pending.name + "("@ + pending.arguments + ")"@
}

/// What the judge and the editor are asked about.
pub fn build_user_msg(
    user_input: &str,
    tool_trace: &Vec<ToolCallRecord>,
    pending: &ToolCallRecord,
) -> (r: String)
    ensures
        r@ == question(user_input@, records_view(tool_trace@), pending@),
{
    let mut msg = text::glue3("User: ", user_input, "\n");
    let total: usize = tool_trace.len();
    let ghost all = records_view(tool_trace@);
    if total > 0 {
        msg.append("Tools used so far:");
        let ghost head = msg@;
        let mut i: usize = 0;
        assert(head + numbered(all, 0) =~= head);
        while i < total
            invariant
                i <= total,
                total == tool_trace@.len(),
                all == records_view(tool_trace@),
                msg@ == head + numbered(all, i as int),
            decreases total - i,
        {
            let record = &tool_trace[i];
            assert(all[i as int] == record@);
            msg.append("\n");
            msg.append(text::number_text((i + 1) as u64).as_str());
            msg.append(". ");
            msg.append(record.name.as_str());
            msg.append("(");
            msg.append(record.arguments.as_str());
            msg.append(") -> ");
            msg.append(record.output.as_str());
            assert(msg@ =~= head + numbered(all, i + 1));
            i += 1;
        }
    }
    msg.append("\nPending tool call: ");
    msg.append(pending.name.as_str());
    msg.append("(");
    msg.append(pending.arguments.as_str());
    msg.append(")");
    msg
}

/// What the editor is told.
pub fn correction_prompt(available_tools: &Vec<String>) -> (r: String)
    ensures
        r@ == correction_text(views(available_tools@)),
{
    text::glue3(
        CORRECTION_HEAD,
        text::joined_strings(available_tools, ", ").as_str(),
        CORRECTION_TAIL,
    )
}

// ---------------------------------------------------------------------------------------------
// The guard
// ---------------------------------------------------------------------------------------------
/// Commands that delete too much.
pub const BROAD_TARGETS: [&'static str; 5] = [
    "rm -rf /",
    "rm -rf ~",
    "rm -rf $home",
    "rm -rf .",
    "rm -rf *",
];

/// Commands that change files or the history.
pub const EDITING: [&'static str; 11] = [
    "sed -i",
    "perl -i",
    "awk -i",
    "> ",
    ">> ",
    "mv ",
    "rm ",
    "dd if=",
    "mkfs",
    "git reset --hard",
    "git checkout --",
];

/// Why a command that deletes too much is not run.
pub const BROAD_REASON: &'static str = "the command targets a broad directory with rm -rf; resolve the exact target and confirm it is what the user asked to delete";

/// Why a command that changes files or the history is not run.
pub const EDITING_REASON: &'static str = "the command modifies or deletes files or git state; use edit_existing_file / single_find_and_replace for file edits, and never run destructive git commands without explicit user approval";

/// Whether one of the patterns occurs in a text.
pub open spec fn any_in(patterns: Seq<&'static str>, s: Seq<char>) -> bool {
    exists|i: int| 0 <= i < patterns.len() && contains(s, #[trigger] patterns[i]@)
}

/// Why a command, in lower case, is not run without a second look, if there is a reason.
pub open spec fn command_reason(command: Seq<char>) -> Option<Seq<char>> {
    if any_in(BROAD_TARGETS@, command) {
        Some(BROAD_REASON@)
    } else if any_in(EDITING@, command) {
        Some(EDITING_REASON@)
    } else {
        None
    }
}

/// Why a tool call is not run when the judge cannot be asked, if there is a reason.
pub open spec fn guard_reason(pending: RecordView) -> Option<Seq<char>> {
    if pending.name != "run_terminal_command"@ {
        None
    } else {
        command_reason(lowercase(pending.arguments))
    }
}

/// Whether one of the patterns occurs in a text.
fn has_any(patterns: &[&'static str], s: &[char]) -> (r: bool)
    ensures
        r == any_in(patterns@, s@),
{
    let mut i: usize = 0;
    while i < patterns.len()
        invariant
            i <= patterns@.len(),
            forall|k: int| 0 <= k < i ==> !contains(s@, #[trigger] patterns@[k]@),
        decreases patterns@.len() - i,
    {
        if text::has(s, patterns[i]) {
            assert(contains(s@, patterns@[i as int]@));
            return true;
        }
        i += 1;
    }
    false
}

/// Why a command, in lower case, is not run without a second look, if there is a reason.
pub fn guard_command(command: &str) -> (r: Option<String>)
    ensures
        opt_text(r) == command_reason(command@),
{
    let chars = text::chars_of(command);
    if has_any(BROAD_TARGETS.as_slice(), chars.as_slice()) {
        Some(BROAD_REASON.to_owned())
    } else if has_any(EDITING.as_slice(), chars.as_slice()) {
        Some(EDITING_REASON.to_owned())
    } else {
        None
    }
}

/// Why a tool call is not run when the judge cannot be asked, if there is a reason.
pub fn local_guard_reason(pending: &ToolCallRecord) -> (r: Option<String>)
    ensures
        opt_text(r) == guard_reason(pending@),
{
    if !text::same(pending.name.as_str(), "run_terminal_command") {
        return None;
    }
    guard_command(text::to_lowercase(pending.arguments.as_str()).as_str())
}

/// The verdict when the judge cannot be asked.
pub open spec fn guard_verdict(pending: RecordView) -> VerdictView {
    match guard_reason(pending) {
        Some(reason) => VerdictView::Regenerate { reason },
        None => VerdictView::Allow,
    }
}

/// The verdict when the judge cannot be asked.
pub fn local_guard_verdict(pending: &ToolCallRecord) -> (r: Verdict)
    ensures
        r@ == guard_verdict(pending@),
{
    match local_guard_reason(pending) {
        Some(reason) => Verdict::Regenerate { reason },
        None => Verdict::Allow,
    }
}

/// Only calls of the shell are held back by the guard.
pub proof fn guard_spares_other_tools(pending: RecordView)
    requires
        pending.name != "run_terminal_command"@,
    ensures
        guard_verdict(pending) == VerdictView::Allow,
{
}

// ---------------------------------------------------------------------------------------------
// Replies
// ---------------------------------------------------------------------------------------------
/// What the judge said: whether the call passes, why, and how to mend it.
pub ghost struct ReviewView {
    pub pass: bool,
    pub reason: Seq<char>,
    pub action: Option<Seq<char>>,
}

/// What a judge's reply says.
pub open spec fn review_of(reply: JsonView) -> Option<ReviewView> {
    match reply.field("pass"@) {
        Some(pass) => match pass.truth() {
            Some(pass) => Some(
                ReviewView {
                    pass,
                    reason: text::or_empty(reply.text_field("reason"@)),
                    action: reply.text_field("action"@),
                },
            ),
            None => None,
        },
        None => None,
    }
}

/// What a judge's reply says, which holds a JSON object somewhere.
pub open spec fn review_in(output: Seq<char>) -> Option<ReviewView> {
    match object_in(output) {
        Some(object) => match json_parsed(object) {
            Some(reply) => review_of(reply),
            None => None,
        },
        None => None,
    }
}

/// A review as a reply gives it.
pub open spec fn is_review(r: Option<(bool, String, Option<String>)>, view: Option<ReviewView>) -> bool {
    match r {
        Some((pass, reason, action)) => view == Some(
            ReviewView { pass, reason: reason@, action: opt_text(action) },
        ),
        None => view is None,
    }
}

/// What a judge's reply says.
pub fn read_review(reply: &Json) -> (r: Option<(bool, String, Option<String>)>)
    ensures
        is_review(r, review_of(reply@)),
{
    match reply.get("pass") {
        Some(pass) => match pass.as_bool() {
            Some(pass) => Some(
                (pass, text::unwrap_or_empty(reply.get_str("reason")), reply.get_str("action")),
            ),
            None => None,
        },
        None => None,
    }
}

/// What a judge's reply says, which holds a JSON object somewhere.
pub fn parse_verdict(output: &str) -> (r: Option<(bool, String, Option<String>)>)
    ensures
        is_review(r, review_in(output@)),
{
    match util::extract_json_object(output) {
        Some(object) => match json::parse_json(object.as_str()) {
            Some(reply) => read_review(&reply),
            None => None,
        },
        None => None,
    }
}

/// One of the calls that an editor proposes.
pub open spec fn call_of(item: JsonView) -> Option<RecordView> {
    match item.text_field("tool"@) {
        Some(name) => Some(
            RecordView {
                name,
                arguments: json_printed(
                    match item.field("arguments"@) {
                        Some(arguments) => arguments,
                        None => JsonView::Object(Seq::empty()),
                    },
                ),
                output: Seq::empty(),
            },
        ),
        None => None,
    }
}

/// The first `n` of the calls that an editor proposes, unless one of them names no tool.
pub open spec fn calls_upto(items: Seq<JsonView>, n: int) -> Option<Seq<RecordView>>
    decreases n,
{
    if n <= 0 {
        Some(Seq::empty())
    } else {
        match (calls_upto(items, n - 1), call_of(items[n - 1])) {
            (Some(before), Some(call)) => Some(before.push(call)),
            _ => None,
        }
    }
}

/// The calls that an editor's reply proposes.
pub open spec fn calls_of(reply: JsonView) -> Option<Seq<RecordView>> {
    match reply.field("calls"@) {
        Some(calls) => match calls.items() {
            Some(items) => calls_upto(items, items.len() as int),
            None => None,
        },
        None => None,
    }
}

/// The calls that an editor's reply proposes, which holds a JSON object somewhere.
pub open spec fn calls_in(output: Seq<char>) -> Option<Seq<RecordView>> {
    match object_in(output) {
        Some(object) => match json_parsed(object) {
            Some(reply) => calls_of(reply),
            None => None,
        },
        None => None,
    }
}

proof fn missing_call_stays(items: Seq<JsonView>, i: int, n: int)
    requires
        0 < i <= n,
        call_of(items[i - 1]) is None,
    ensures
        calls_upto(items, n) is None,
    decreases n,
{
    if i < n {
        missing_call_stays(items, i, n - 1);
    }
}

/// One of the calls that an editor proposes.
fn read_call(item: &Json) -> (r: Option<ToolCallRecord>)
    ensures
        match r {
            Some(call) => call_of(item@) == Some(call@),
            None => call_of(item@) is None,
        },
{
    match item.get_str("tool") {
        Some(name) => {
            let arguments = match item.get("arguments") {
                Some(arguments) => json::print_json(arguments),
                None => {
                    let none = Json::Object(Vec::new());
                    assert(none@->Object_0 =~= Seq::empty());
                    json::print_json(&none)
                },
            };
            let output = String::new();
            assert(output@ =~= Seq::<char>::empty());
            Some(ToolCallRecord { name, arguments, output })
        },
        None => None,
    }
}

/// The calls that an editor's reply proposes.
pub fn read_calls(reply: &Json) -> (r: Option<Vec<ToolCallRecord>>)
    ensures
        match r {
            Some(calls) => calls_of(reply@) == Some(records_view(calls@)),
            None => calls_of(reply@) is None,
        },
{
    let items = match reply.get("calls") {
        Some(calls) => match calls {
            Json::List(items) => items,
            _ => return None,
        },
        None => return None,
    };
    let ghost all = reply@.field("calls"@)->0.items()->0;
    let mut records: Vec<ToolCallRecord> = Vec::new();
    let mut i: usize = 0;
    assert(records_view(records@) =~= Seq::empty());
    while i < items.len()
        invariant
            i <= items@.len(),
            reply@.field("calls"@) is Some,
            reply@.field("calls"@)->0.items() == Some(all),
            all.len() == items@.len(),
            forall|k: int| 0 <= k < items@.len() ==> #[trigger] all[k] == items@[k]@,
            calls_upto(all, i as int) == Some(records_view(records@)),
        decreases items@.len() - i,
    {
        assert(all[i as int] == items@[i as int]@);
        match read_call(&items[i]) {
            Some(call) => {
                let ghost before = records_view(records@);
                records.push(call);
                assert(records_view(records@) =~= before.push(call@));
            },
            None => {
                proof {
                    missing_call_stays(all, i + 1, all.len() as int);
                }
                return None;
            },
        }
        i += 1;
    }
    Some(records)
}

/// The calls that an editor's reply proposes, which holds a JSON object somewhere.
pub fn parse_calls(output: &str) -> (r: Option<Vec<ToolCallRecord>>)
    ensures
        match r {
            Some(calls) => calls_in(output@) == Some(records_view(calls@)),
            None => calls_in(output@) is None,
        },
{
    match util::extract_json_object(output) {
        Some(object) => match json::parse_json(object.as_str()) {
            Some(reply) => read_calls(&reply),
            None => None,
        },
        None => None,
    }
}

// ---------------------------------------------------------------------------------------------
// The supervisor
// ---------------------------------------------------------------------------------------------
/// The failures that are remembered at most.
pub const MAX_PATTERNS: usize = 20;

/// A supervisor: whether it is on, and the failures that it remembers.
pub struct Supervisor {
    pub enabled: bool,
    pub failure_patterns: Vec<String>,
}

/// What comes of a review: a verdict, or a correction that must be asked for.
#[derive(Debug)]
pub enum Judged {
    Verdict(Verdict),
    Correct { reason: String },
}

/// A `Judged` with its texts as characters.
pub ghost enum JudgedView {
    Verdict(VerdictView),
    Correct { reason: Seq<char> },
}

impl View for Judged {
    type V = JudgedView;

    open spec fn view(&self) -> JudgedView {
        match self {
            Judged::Verdict(verdict) => JudgedView::Verdict(verdict@),
            Judged::Correct { reason } => JudgedView::Correct { reason: reason@ },
        }
    }
}

/// The failures with one more; the oldest is forgotten when there are too many.
pub open spec fn with_pattern(patterns: Seq<Seq<char>>, reason: Seq<char>) -> Seq<Seq<char>> {
    let more = patterns.push(reason);
    if more.len() > MAX_PATTERNS {
        more.skip(1)
    } else {
        more
    }
}

/// What comes of a judge's reply, or of none.
pub open spec fn judged(review: Option<ReviewView>, pending: RecordView) -> JudgedView {
    match review {
        Some(review) => if review.pass {
            JudgedView::Verdict(VerdictView::Allow)
        } else if review.action == Some("correct"@) {
            JudgedView::Correct { reason: review.reason }
        } else {
            JudgedView::Verdict(VerdictView::Regenerate { reason: review.reason })
        },
        None => JudgedView::Verdict(guard_verdict(pending)),
    }
}

/// The failures that are remembered after a judge's reply, or after none.
pub open spec fn patterns_after(patterns: Seq<Seq<char>>, review: Option<ReviewView>) -> Seq<Seq<char>> {
    match review {
        Some(review) => if review.pass {
            patterns
        } else {
            with_pattern(patterns, review.reason)
        },
        None => patterns,
    }
}

/// The review in a reply, if there was a reply.
pub open spec fn review_from(reply: Option<&str>) -> Option<ReviewView> {
    match reply {
        Some(output) => review_in(output@),
        None => None,
    }
}

/// The verdict after a correction was asked for.
pub open spec fn corrected(calls: Option<Seq<RecordView>>, reason: Seq<char>) -> VerdictView {
    match calls {
        Some(calls) => VerdictView::Corrected { calls },
        None => VerdictView::Regenerate { reason },
    }
}

impl Supervisor {
    /// No more failures are remembered than the limit.
    pub open spec fn wf(self) -> bool {
        self.failure_patterns@.len() <= MAX_PATTERNS
    }

    /// A supervisor that is off.
    pub fn new() -> (r: Self)
        ensures
            !r.enabled,
            r.failure_patterns@.len() == 0,
            r.wf(),
    {
        Supervisor { enabled: false, failure_patterns: Vec::new() }
    }

    /// Switches the supervisor on or off.
    pub fn set_enabled(&mut self, enabled: bool)
        ensures
            *final(self) == (Supervisor { enabled, ..*old(self) }),
    {
        self.enabled = enabled;
    }

    /// Whether the supervisor is on.
    pub fn is_enabled(&self) -> (r: bool)
        ensures
            r == self.enabled,
    {
        self.enabled
    }

    /// The failures that are remembered.
    pub fn failure_patterns(&self) -> (r: &Vec<String>)
        ensures
            *r == self.failure_patterns,
    {
        &self.failure_patterns
    }

    /// What the judge is told.
    pub fn judge_prompt(&self) -> (r: String)
        ensures
            r@ == judge_text(views(self.failure_patterns@)),
    {
        let mut prompt = JUDGE_PROMPT.to_owned();
        if self.failure_patterns.len() > 0 {
            prompt.append("\n\nKnown failure patterns from history: ");
            prompt.append(text::joined_strings(&self.failure_patterns, "; ").as_str());
        }
        prompt
    }

    /// What the judge is told and asked, unless the supervisor is off and lets every call pass.
    pub fn judge(
        &self,
        user_input: &str,
        tool_trace: &Vec<ToolCallRecord>,
        pending: &ToolCallRecord,
    ) -> (r: Option<(String, String)>)
        ensures
            r is Some <==> self.enabled,
            r matches Some((system, user)) ==> system@ == judge_text(
                views(self.failure_patterns@),
            ) && user@ == question(user_input@, records_view(tool_trace@), pending@),
    {
        if !self.enabled {
            return None;
        }
        Some((self.judge_prompt(), build_user_msg(user_input, tool_trace, pending)))
    }

    /// Takes in what the judge said. A reply that cannot be read counts as none.
    pub fn judged(&mut self, reply: Option<&str>, pending: &ToolCallRecord) -> (r: Judged)
        ensures
            r@ == judged(review_from(reply), pending@),
            final(self).enabled == old(self).enabled,
            views(final(self).failure_patterns@) == patterns_after(
                views(old(self).failure_patterns@),
                review_from(reply),
            ),
            old(self).wf() ==> final(self).wf(),
    {
        let review = match reply {
            Some(output) => parse_verdict(output),
            None => None,
        };
        match review {
            Some((pass, reason, action)) => {
                if pass {
                    return Judged::Verdict(Verdict::Allow);
                }
                self.note_failure(reason.clone());
                match action {
                    Some(action) => if text::same(action.as_str(), "correct") {
                        Judged::Correct { reason }
                    } else {
                        Judged::Verdict(Verdict::Regenerate { reason })
                    },
                    None => Judged::Verdict(Verdict::Regenerate { reason }),
                }
            },
            None => Judged::Verdict(local_guard_verdict(pending)),
        }
    }

    /// Remembers a failure.
    fn note_failure(&mut self, reason: String)
        ensures
            final(self).enabled == old(self).enabled,
            views(final(self).failure_patterns@) == with_pattern(
                views(old(self).failure_patterns@),
                reason@,
            ),
            old(self).wf() ==> final(self).wf(),
    {
        let ghost before = views(self.failure_patterns@);
        self.failure_patterns.push(reason);
        assert(views(self.failure_patterns@) =~= before.push(reason@));
        if self.failure_patterns.len() > MAX_PATTERNS {
            let ghost more = views(self.failure_patterns@);
            let _ = self.failure_patterns.remove(0);
            assert(views(self.failure_patterns@) =~= more.skip(1));
        }
    }
}

/// What the editor is told and asked.
pub fn correct(
    user_input: &str,
    tool_trace: &Vec<ToolCallRecord>,
    pending: &ToolCallRecord,
    available_tools: &Vec<String>,
    reason: &str,
) -> (r: (String, String))
    ensures
        r.0@ == correction_text(views(available_tools@)),
        r.1@ == question(user_input@, records_view(tool_trace@), pending@) + "\nReview finding: "@
            + reason@,
{
    (
        correction_prompt(available_tools),
        text::glue3(
            build_user_msg(user_input, tool_trace, pending).as_str(),
            "\nReview finding: ",
            reason,
        ),
    )
}

/// The calls in a reply, if there was a reply.
pub open spec fn calls_from(reply: Option<&str>) -> Option<Seq<RecordView>> {
    match reply {
        Some(output) => calls_in(output@),
        None => None,
    }
}

/// The verdict after the editor was asked. A reply that cannot be read counts as none.
pub fn correction_verdict(reply: Option<&str>, reason: String) -> (r: Verdict)
    ensures
        r@ == corrected(calls_from(reply), reason@),
{
    let calls = match reply {
        Some(output) => parse_calls(output),
        None => None,
    };
    match calls {
        Some(calls) => Verdict::Corrected { calls },
        None => Verdict::Regenerate { reason },
    }
}

} // verus!
