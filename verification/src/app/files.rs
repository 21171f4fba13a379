//! What the tools for files and commands say.

use crate::app::diff;
use crate::app::diff::diff_text;
use crate::encoding;
use crate::encoding::{lossy, unescaped};
use crate::text;
use crate::text::{decimal, has_prefix, join, lines, rows, trim, trim_end, views};
use vstd::prelude::*;
use vstd::utf8::encode_utf8;

verus! {

/// The entries of a directory that are listed at most.
pub const LS_MAX_LINES: usize = 200;

/// The lines of a difference that are shown at most.
pub const DIFF_MAX_LINES: usize = 5000;

// ---------------------------------------------------------------------------------------------
// Paths
// ---------------------------------------------------------------------------------------------
/// A requested path with what it abbreviates written out: a URL of a file, or the home directory.
pub open spec fn expanded(requested: Seq<char>, home: Seq<char>) -> Seq<char> {
    if has_prefix(requested, "file://"@) {
        let path = lossy(unescaped(encode_utf8(requested.skip(7))));
        if path.len() > 0 && path[0] == '/' {
            path
        } else {
            "/"@ + path
        }
    } else if has_prefix(requested, "~/"@) && home.len() > 0 {
        home + "/"@ + requested.skip(2)
    } else {
        requested
    }
}

/// A requested path with what it abbreviates written out. `home` is empty where there is no home
/// directory.
pub fn expand_requested(requested: &str, home: &str) -> (r: String)
    ensures
        r@ == expanded(requested@, home@),
{
    let chars = text::chars_of(requested);
    let total: usize = chars.len();
    if text::starts_with(chars.as_slice(), "file://") {
        proof {
            reveal_strlit("file://");
        }
        let rest = text::part(chars.as_slice(), 7, total);
        assert(rest@ =~= requested@.skip(7));
        let path = encoding::percent_decode(text::string_of(rest.as_slice()).as_str());
        let decoded = text::chars_of(path.as_str());
        if decoded.len() > 0 && decoded[0] == '/' {
            path
        } else {
            text::glue("/", path.as_str())
        }
    } else if text::starts_with(chars.as_slice(), "~/") && !home.is_empty() {
        proof {
            reveal_strlit("~/");
        }
        let rest = text::part(chars.as_slice(), 2, total);
        assert(rest@ =~= requested@.skip(2));
        text::glue3(home, "/", text::string_of(rest.as_slice()).as_str())
    } else {
        requested.to_owned()
    }
}

/// Whether a path lies in a directory, or is the directory; both are absolute, without links, dots and
/// slashes at the end.
pub open spec fn lies_in(root: Seq<char>, path: Seq<char>) -> bool {
    path == root || root == "/"@ || has_prefix(path, root + "/"@)
}

/// The path to which a request leads, if it lies in the project. `root` and `resolved` are absolute
/// paths, without links, dots and slashes at the end.
pub fn resolve_path(root: &str, resolved: &str, requested: &str) -> (r: Result<String, String>)
    ensures
        match r {
            Ok(path) => lies_in(root@, resolved@) && path@ == resolved@,
            Err(e) => !lies_in(root@, resolved@) && e@ == "path outside project directory: "@
                + requested@,
        },
{
    let prefix = text::glue(root, "/");
    if text::same(resolved, root) || text::same(root, "/") || text::starts_with(
        text::chars_of(resolved).as_slice(),
        prefix.as_str(),
    ) {
        Ok(resolved.to_owned())
    } else {
        Err(text::glue("path outside project directory: ", requested))
    }
}

// ---------------------------------------------------------------------------------------------
// Files
// ---------------------------------------------------------------------------------------------
/// What is said of a file that cannot be read.
pub open spec fn unreadable(filepath: Seq<char>) -> Seq<char> {
    "File \""@ + filepath
        + "\" does not exist or is not accessible. You might want to check the path and try again."@
}

/// What the tool that reads a file says; `contents` are missing where the file could not be read.
pub fn read_file(filepath: &str, contents: Option<String>) -> (r: Result<String, String>)
    ensures
        match contents {
            Some(contents) => r == Ok::<String, String>(contents),
            None => r matches Err(e) && e@ == unreadable(filepath@),
        },
{
    match contents {
        Some(contents) => Ok(contents),
        None => Err(
            text::glue3(
                "File \"",
                filepath,
                "\" does not exist or is not accessible. You might want to check the path and try again.",
            ),
        ),
    }
}

/// What the tool that creates a file says, before it is written: what it will say once it is, or why it
/// must not be.
pub fn create_new_file(filepath: &str, contents: &str, exists: bool) -> (r: Result<String, String>)
    ensures
        match r {
            Ok(said) => !exists && said@ == "File created successfully\n"@ + diff_text(
                Seq::empty(),
                contents@,
            ),
            Err(e) => exists && e@ == "File "@ + filepath@
                + " already exists. Use the edit tool to edit this file"@,
        },
{
    if exists {
        return Err(
            text::glue3(
                "File ",
                filepath,
                " already exists. Use the edit tool to edit this file",
            ),
        );
    }
    proof {
        reveal_strlit("");
        assert(""@ =~= Seq::<char>::empty());
    }
    Ok(text::glue("File created successfully\n", diff::unified_diff("", contents).as_str()))
}

/// What the tool that lists a directory says; `shown` is the directory as it is written.
pub open spec fn listing(shown: Seq<char>, entries: Seq<Seq<char>>, recursive: bool) -> Seq<char> {
    if entries.len() == 0 {
        "No files/folders found in "@ + shown
    } else if entries.len() <= LS_MAX_LINES {
        join(entries, "\n"@)
    } else {
        join(entries.take(LS_MAX_LINES as int), "\n"@) + "\n\n"@ + decimal(entries.len())
            + " ls entries were truncated"@ + (if recursive {
            ". Try using a non-recursive search"@
        } else {
            Seq::empty()
        })
    }
}

/// What the tool that lists a directory says. The entries stand in the order of the walk.
pub fn ls_dir(shown: &str, entries: Vec<String>, recursive: bool) -> (r: String)
    ensures
        r@ == listing(shown@, views(entries@), recursive),
{
    let ghost all = views(entries@);
    let mut entries = entries;
    let total: usize = entries.len();
    assert(all.len() == total);
    if total == 0 {
        return text::glue("No files/folders found in ", shown);
    }
    if total <= LS_MAX_LINES {
        return text::joined_strings(&entries, "\n");
    }
    entries.truncate(LS_MAX_LINES);
    assert(views(entries@) =~= all.take(LS_MAX_LINES as int));
    let mut out = text::joined_strings(&entries, "\n");
    out.append("\n\n");
    out.append(text::number_text(total as u64).as_str());
    out.append(" ls entries were truncated");
    let ghost before = out@;
    if recursive {
        out.append(". Try using a non-recursive search");
    } else {
        assert(before + Seq::<char>::empty() =~= before);
    }
    out
}

/// What is said of a directory that cannot be listed.
pub fn no_directory(requested: &str) -> (r: String)
    ensures
        r@ == "Directory "@ + requested@
            + " not found or is not accessible. You can use absolute paths, relative paths, or paths starting with ~"@,
{
    text::glue3(
        "Directory ",
        requested,
        " not found or is not accessible. You can use absolute paths, relative paths, or paths starting with ~",
    )
}

// ---------------------------------------------------------------------------------------------
// Differences
// ---------------------------------------------------------------------------------------------
/// How a run of git ended.
#[derive(Debug)]
pub enum GitRun {
    Done { stdout: Vec<u8> },
    Failed { stderr: Vec<u8> },
    Missing,
    Broken { reason: String },
}

/// What one run of git adds: a part, nothing, or the reason to stop.
pub ghost enum GitStep {
    Part(Seq<char>),
    Nothing,
    Stop(Seq<char>),
}

/// The first line of a text without space around it.
pub open spec fn first_line(s: Seq<char>) -> Seq<char> {
    let ls = lines(trim(s));
    if ls.len() > 0 {
        ls[0]
    } else {
        "unknown error"@
    }
}

/// What one run of git adds.
pub open spec fn git_step(run: GitRun) -> GitStep {
    match run {
        GitRun::Done { stdout } => if trim(lossy(stdout@)).len() > 0 {
            GitStep::Part(trim_end(lossy(stdout@)))
        } else {
            GitStep::Nothing
        },
        GitRun::Failed { stderr } => GitStep::Stop(
            "git diff failed: "@ + first_line(lossy(stderr@)),
        ),
        GitRun::Missing => GitStep::Stop("git is not installed or not in PATH"@),
        GitRun::Broken { reason } => GitStep::Stop("git diff failed: "@ + reason@),
    }
}

/// The parts of the first `n` runs of git, or the reason why one of them failed.
pub open spec fn git_parts(runs: Seq<GitRun>, n: int) -> Result<Seq<Seq<char>>, Seq<char>>
    decreases n,
{
    if n <= 0 {
        Ok(Seq::empty())
    } else {
        match git_parts(runs, n - 1) {
            Err(reason) => Err(reason),
            Ok(parts) => match git_step(runs[n - 1]) {
                GitStep::Part(part) => Ok(parts.push(part)),
                GitStep::Nothing => Ok(parts),
                GitStep::Stop(reason) => Err(reason),
            },
        }
    }
}

/// What is shown of differences.
pub open spec fn shown_diff(parts: Seq<Seq<char>>) -> Seq<char> {
    let combined = join(parts, "\n"@);
    let ls = lines(combined);
    if trim(combined).len() == 0 {
        "The current diff is empty"@
    } else if ls.len() > DIFF_MAX_LINES {
        join(ls.take(DIFF_MAX_LINES as int), "\n"@)
            + "\n\nThe git diff was truncated because it exceeded 5000 lines. Consider viewing specific files or focusing on smaller changes."@
    } else {
        combined
    }
}

/// What is said after some runs of git.
pub open spec fn git_report(runs: Seq<GitRun>) -> Seq<char> {
    match git_parts(runs, runs.len() as int) {
        Ok(parts) => shown_diff(parts),
        Err(reason) => reason,
    }
}

/// What one run of git adds.
fn take_run(run: &GitRun) -> (r: Result<Option<String>, String>)
    ensures
        match git_step(*run) {
            GitStep::Part(part) => r matches Ok(Some(added)) && added@ == part,
            GitStep::Nothing => r matches Ok(None),
            GitStep::Stop(reason) => r matches Err(e) && e@ == reason,
        },
{
    match run {
        GitRun::Done { stdout } => {
            let said = text::chars_of(encoding::from_utf8_lossy(stdout.as_slice()).as_str());
            if text::trimmed(said.as_slice()).len() > 0 {
                let part = text::trimmed_end(said.as_slice());
                Ok(Some(text::string_of(part.as_slice())))
            } else {
                Ok(None)
            }
        },
        GitRun::Failed { stderr } => {
            let said = text::chars_of(encoding::from_utf8_lossy(stderr.as_slice()).as_str());
            let trimmed = text::trimmed(said.as_slice());
            let ls = text::lines_of(trimmed.as_slice());
            assert(rows(ls@).len() == ls@.len());
            if ls.len() > 0 {
                assert(rows(ls@)[0] == ls@[0]@);
                let line = text::string_of(ls[0].as_slice());
                Err(text::glue("git diff failed: ", line.as_str()))
            } else {
                Err(text::glue("git diff failed: ", "unknown error"))
            }
        },
        GitRun::Missing => Err("git is not installed or not in PATH".to_owned()),
        GitRun::Broken { reason } => Err(text::glue("git diff failed: ", reason.as_str())),
    }
}

/// What the tool that views differences says after some runs of git.
pub fn view_diff(runs: &Vec<GitRun>) -> (r: String)
    ensures
        r@ == git_report(runs@),
{
    let mut parts: Vec<String> = Vec::new();
    let mut i: usize = 0;
    assert(views(parts@) =~= Seq::empty());
    while i < runs.len()
        invariant
            i <= runs@.len(),
            git_parts(runs@, i as int) == Ok::<Seq<Seq<char>>, Seq<char>>(views(parts@)),
        decreases runs@.len() - i,
    {
        match take_run(&runs[i]) {
            Ok(Some(part)) => {
                let ghost before = views(parts@);
                let ghost view = part@;
                parts.push(part);
                assert(views(parts@) =~= before.push(view));
            },
            Ok(None) => {},
            Err(reason) => {
                proof {
                    failures_stay(runs@, i + 1, runs@.len() as int);
                }
                return reason;
            },
        }
        i += 1;
    }
    show_diff(&parts)
}

/// Once a run of git failed, the later ones do not matter.
proof fn failures_stay(runs: Seq<GitRun>, i: int, n: int)
    requires
        0 <= i <= n,
        git_parts(runs, i) is Err,
    ensures
        git_parts(runs, n) == git_parts(runs, i),
    decreases n - i,
{
    if i < n {
        failures_stay(runs, i, n - 1);
    }
}

/// What is shown of differences.
fn show_diff(parts: &Vec<String>) -> (r: String)
    ensures
        r@ == shown_diff(views(parts@)),
{
    let combined = text::joined_strings(parts, "\n");
    let chars = text::chars_of(combined.as_str());
    if text::trimmed(chars.as_slice()).len() == 0 {
        return "The current diff is empty".to_owned();
    }
    let mut ls = text::lines_of(chars.as_slice());
    let ghost all = lines(combined@);
    assert(rows(ls@).len() == ls@.len());
    if ls.len() > DIFF_MAX_LINES {
        ls.truncate(DIFF_MAX_LINES);
        assert(rows(ls@) =~= all.take(DIFF_MAX_LINES as int));
        let sep = text::chars_of("\n");
        let cut = text::joined(&ls, sep.as_slice());
        return text::glue(
            text::string_of(cut.as_slice()).as_str(),
            "\n\nThe git diff was truncated because it exceeded 5000 lines. Consider viewing specific files or focusing on smaller changes.",
        );
    }
    combined
}

// ---------------------------------------------------------------------------------------------
// Commands
// ---------------------------------------------------------------------------------------------
/// What a command wrote, to one of its outputs.
#[derive(Debug)]
pub struct OutputChunk {
    pub stderr: bool,
    pub bytes: Vec<u8>,
}

/// How a command ended.
#[derive(Debug, Clone, Copy, PartialEq, Eq, Structural)]
pub enum CommandEnd {
    Exited(Option<i32>),
    TimedOut,
}

/// The milliseconds after which a command is stopped.
pub const COMMAND_TIMEOUT: u64 = 120_000;

/// What is done about a command that was started: it has ended, it is stopped, or it is waited for.
#[derive(Debug, Clone, Copy, PartialEq, Eq, Structural)]
pub enum CommandStep {
    End,
    Kill,
    Wait,
}

/// What is done about a command that was started some milliseconds ago: one that has ended is left
/// alone, one that takes too long is stopped, and another is waited for.
pub fn command_step(exited: bool, elapsed_ms: u64) -> (r: CommandStep)
    ensures
        r == if exited {
            CommandStep::End
        } else if elapsed_ms >= COMMAND_TIMEOUT {
            CommandStep::Kill
        } else {
            CommandStep::Wait
        },
{
    if exited {
        CommandStep::End
    } else if elapsed_ms >= COMMAND_TIMEOUT {
        CommandStep::Kill
    } else {
        CommandStep::Wait
    }
}

/// What a command wrote, as it is shown.
pub open spec fn chunk_text(chunk: OutputChunk) -> Seq<char> {
    let said = lossy(chunk.bytes@);
    if chunk.stderr && said.len() > 0 {
        "\n[stderr] "@ + said
    } else {
        said
    }
}

/// What a command wrote in the first `n` chunks, as it is shown.
pub open spec fn chunks_text(chunks: Seq<OutputChunk>, n: int) -> Seq<char>
    decreases n,
{
    if n <= 0 {
        Seq::empty()
    } else {
        chunks_text(chunks, n - 1) + chunk_text(chunks[n - 1])
    }
}

/// A number in decimal digits, with its sign if it is negative.
pub open spec fn signed(n: int) -> Seq<char> {
    if n < 0 {
        "-"@ + decimal((-n) as nat)
    } else {
        decimal(n as nat)
    }
}

/// What is said of a command that ended.
pub open spec fn command_text(said: Seq<char>, end: CommandEnd) -> Seq<char> {
    match end {
        CommandEnd::TimedOut => "\n[Timeout: process killed after 2 minutes]\n"@ + said,
        CommandEnd::Exited(code) => if trim(said).len() == 0 {
            "(exit "@ + signed(
                match code {
                    Some(code) => code as int,
                    None => -1,
                },
            ) + ")"@
        } else {
            said
        },
    }
}

/// A number in decimal digits, with its sign if it is negative.
fn signed_text(n: i32) -> (r: String)
    ensures
        r@ == signed(n as int),
{
    if n < 0 {
        let size: i64 = -(n as i64);
        text::glue("-", text::number_text(size as u64).as_str())
    } else {
        text::number_text(n as u64)
    }
}

/// What is said of a command that ended, where it wrote `said`.
pub fn report_command(said: String, end: CommandEnd) -> (r: String)
    ensures
        r@ == command_text(said@, end),
{
    match end {
        CommandEnd::TimedOut => text::glue(
            "\n[Timeout: process killed after 2 minutes]\n",
            said.as_str(),
        ),
        CommandEnd::Exited(code) => {
            if text::trimmed(text::chars_of(said.as_str()).as_slice()).len() == 0 {
                let number: i32 = match code {
                    Some(code) => code,
                    None => -1,
                };
                text::glue3("(exit ", signed_text(number).as_str(), ")")
            } else {
                said
            }
        },
    }
}

/// What the tool that runs commands says of one that ended.
pub fn run_terminal_command(chunks: &Vec<OutputChunk>, end: CommandEnd) -> (r: String)
    ensures
        r@ == command_text(chunks_text(chunks@, chunks@.len() as int), end),
{
    let mut said = String::new();
    let mut i: usize = 0;
    assert(said@ =~= Seq::<char>::empty());
    while i < chunks.len()
        invariant
            i <= chunks@.len(),
            said@ == chunks_text(chunks@, i as int),
        decreases chunks@.len() - i,
    {
        let ghost before = said@;
        let chunk = encoding::from_utf8_lossy(chunks[i].bytes.as_slice());
        if chunks[i].stderr && !chunk.as_str().is_empty() {
            said.append("\n[stderr] ");
        }
        said.append(chunk.as_str());
        assert(said@ =~= before + chunk_text(chunks@[i as int]));
        i += 1;
    }
    report_command(said, end)
}

// ---------------------------------------------------------------------------------------------
// Directories
// ---------------------------------------------------------------------------------------------
/// A name below a directory.
pub open spec fn below(dir: Seq<char>, name: Seq<char>) -> Seq<char> {
    if dir.len() == 0 {
        name
    } else if dir.last() == '/' {
        dir + name
    } else {
        dir + "/"@ + name
    }
}

/// A text that may be missing.
pub open spec fn maybe(s: Option<&str>) -> Option<Seq<char>> {
    match s {
        Some(s) => Some(s@),
        None => None,
    }
}

/// The first text that is there.
pub open spec fn first_of(a: Option<Seq<char>>, b: Option<Seq<char>>) -> Option<Seq<char>> {
    match a {
        Some(_) => a,
        None => b,
    }
}

/// A name below a directory.
pub fn path_in(dir: &str, name: &str) -> (r: String)
    ensures
        r@ == below(dir@, name@),
{
    let chars = text::chars_of(dir);
    if chars.len() == 0 {
        name.to_owned()
    } else if chars[chars.len() - 1] == '/' {
        text::glue(dir, name)
    } else {
        text::glue3(dir, "/", name)
    }
}

/// The directory for what holds for all projects: the one that is set, or else one in the home
/// directory; none where there is no home directory.
pub open spec fn config_dir(set: Option<Seq<char>>, home: Option<Seq<char>>) -> Seq<char> {
    match set {
        Some(dir) => dir,
        None => match home {
            Some(home) => below(home, ".prognosis"@),
            None => Seq::empty(),
        },
    }
}

/// The directory for what holds for all projects. The home directory may be named in two ways.
pub fn global_config_dir(set: Option<&str>, home: Option<&str>, profile: Option<&str>) -> (r: String)
    ensures
        r@ == config_dir(maybe(set), first_of(maybe(home), maybe(profile))),
{
    if let Some(dir) = set {
        return dir.to_owned();
    }
    let home = match home {
        Some(home) => Some(home),
        None => profile,
    };
    match home {
        Some(home) => path_in(home, ".prognosis"),
        None => {
            let none = String::new();
            assert(none@ =~= Seq::<char>::empty());
            none
        },
    }
}

/// The directories for skills that hold for all projects.
pub open spec fn skill_dirs(home: Option<Seq<char>>) -> Seq<Seq<char>> {
    match home {
        Some(home) => seq![
            below(below(home, ".agents"@), "skills"@),
            below(below(below(home, ".config"@), "agents"@), "skills"@),
        ],
        None => Seq::empty(),
    }
}

/// The directories for skills that hold for all projects. The home directory may be named in three
/// ways.
pub fn skills_global_dirs(set: Option<&str>, home: Option<&str>, profile: Option<&str>) -> (r: Vec<
    String,
>)
    ensures
        views(r@) == skill_dirs(first_of(maybe(set), first_of(maybe(home), maybe(profile)))),
{
    let home = match set {
        Some(set) => Some(set),
        None => match home {
            Some(home) => Some(home),
            None => profile,
        },
    };
    let mut out: Vec<String> = Vec::new();
    if let Some(home) = home {
        let agents = path_in(home, ".agents");
        out.push(path_in(agents.as_str(), "skills"));
        let config = path_in(path_in(home, ".config").as_str(), "agents");
        out.push(path_in(config.as_str(), "skills"));
    }
    assert(views(out@) =~= skill_dirs(
        match home {
            Some(home) => Some(home@),
            None => None,
        },
    ));
    out
}

} // verus!
