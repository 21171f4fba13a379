//! Looking for files: in which order a directory is walked, which names match, and which lines.

use crate::order;
use crate::order::{ints, order_of};
use crate::pattern;
use crate::pattern::{is_meta, literal, pattern_fault, pattern_found};
use crate::text;
use crate::text::{find_last, has_suffix, join, lines, rows, trim, views};
use vstd::prelude::*;
use vstd::utf8::encode_utf8;

verus! {

/// The files that are listed at most.
pub const GLOB_MAX_RESULTS: usize = 100;

/// The lines that are found at most.
pub const GREP_MAX_RESULTS: usize = 100;

/// The bytes that are shown, at most, before the last line.
pub const GREP_MAX_CHARS: usize = 7500;

/// The directories that are passed over.
pub const IGNORED_DIRS: [&'static str; 24] = [
    ".git",
    ".svn",
    "node_modules",
    "dist",
    "build",
    "Build",
    "target",
    "out",
    "bin",
    ".pytest_cache",
    ".vscode-test",
    "__pycache__",
    "site-packages",
    ".gradle",
    ".mvn",
    ".cache",
    "gems",
    "vendor",
    ".venv",
    "venv",
    ".vscode",
    ".idea",
    ".vs",
    ".prognosis",
];

/// The endings of the files that are passed over.
pub const IGNORED_ENDINGS: [&'static str; 57] = [
    ".png",
    ".jpg",
    ".jpeg",
    ".gif",
    ".mp4",
    ".svg",
    ".ico",
    ".pdf",
    ".zip",
    ".gz",
    ".tar",
    ".dmg",
    ".tgz",
    ".rar",
    ".7z",
    ".exe",
    ".dll",
    ".obj",
    ".o",
    ".o.d",
    ".a",
    ".lib",
    ".so",
    ".dylib",
    ".ncb",
    ".sdf",
    ".woff",
    ".woff2",
    ".eot",
    ".cur",
    ".avi",
    ".mpg",
    ".mpeg",
    ".mov",
    ".mp3",
    ".mkv",
    ".webm",
    ".jar",
    ".onnx",
    ".parquet",
    ".pqt",
    ".wav",
    ".webp",
    ".wasm",
    ".plist",
    ".profraw",
    ".gcda",
    ".gcno",
    ".gitignore",
    ".gitkeep",
    ".csv",
    ".uasset",
    ".pdb",
    ".bin",
    ".pag",
    ".swp",
    ".jsonl",
];

// ---------------------------------------------------------------------------------------------
// Walking
// ---------------------------------------------------------------------------------------------
/// What an entry of a directory is.
#[derive(Debug, Clone, Copy, PartialEq, Eq, Structural)]
pub enum EntryKind {
    Dir,
    File,
    Other,
}

/// An entry of a directory.
#[derive(Debug)]
pub struct DirEntry {
    pub name: String,
    pub kind: EntryKind,
}

/// A `DirEntry` with its name as characters.
pub ghost struct DirView {
    pub name: Seq<char>,
    pub kind: EntryKind,
}

impl View for DirEntry {
    type V = DirView;

    open spec fn view(&self) -> DirView {
        DirView { name: self.name@, kind: self.kind }
    }
}

/// The views of entries.
pub open spec fn dir_view(entries: Seq<DirEntry>) -> Seq<DirView> {
    Seq::new(entries.len(), |i: int| entries[i]@)
}

/// The names of entries.
pub open spec fn dir_names(entries: Seq<DirView>) -> Seq<Seq<char>> {
    Seq::new(entries.len(), |i: int| entries[i].name)
}

/// Whether a directory is passed over.
pub open spec fn dir_ignored(name: Seq<char>) -> bool {
    exists|i: int| 0 <= i < 24 && #[trigger] IGNORED_DIRS@[i]@ == name
}

/// Whether a file is passed over.
pub open spec fn file_ignored(name: Seq<char>) -> bool {
    name == "go.sum"@ || exists|i: int| 0 <= i < 57 && has_suffix(name, #[trigger] IGNORED_ENDINGS@[i]@)
}

/// Whether a directory is passed over.
pub fn ignored_dir_name(name: &str) -> (r: bool)
    ensures
        r == dir_ignored(name@),
{
    let mut i: usize = 0;
    while i < 24
        invariant
            i <= 24,
            forall|k: int| 0 <= k < i ==> #[trigger] IGNORED_DIRS@[k]@ != name@,
        decreases 24 - i,
    {
        let dir = IGNORED_DIRS[i];
        if text::same(dir, name) {
            assert(IGNORED_DIRS@[i as int]@ == name@);
            return true;
        }
        i += 1;
    }
    false
}

/// Whether a file is passed over.
pub fn ignored_file_name(name: &str) -> (r: bool)
    ensures
        r == file_ignored(name@),
{
    if text::same(name, "go.sum") {
        return true;
    }
    let chars = text::chars_of(name);
    let mut i: usize = 0;
    while i < 57
        invariant
            i <= 57,
            chars@ == name@,
            forall|k: int| 0 <= k < i ==> !has_suffix(name@, #[trigger] IGNORED_ENDINGS@[k]@),
        decreases 57 - i,
    {
        let ending = IGNORED_ENDINGS[i];
        if text::ends_with(chars.as_slice(), ending) {
            assert(has_suffix(name@, IGNORED_ENDINGS@[i as int]@));
            return true;
        }
        i += 1;
    }
    false
}

/// Whether an entry is walked when some are passed over.
pub open spec fn is_walked(entry: DirView) -> bool {
    match entry.kind {
        EntryKind::Dir => !dir_ignored(entry.name),
        EntryKind::File => !file_ignored(entry.name),
        EntryKind::Other => false,
    }
}

/// The path of an entry below a prefix.
pub open spec fn path_below(prefix: Seq<char>, name: Seq<char>) -> Seq<char> {
    if prefix.len() == 0 {
        name
    } else {
        prefix + "/"@ + name
    }
}

/// The entries of a directory that are walked, the first `n` in the order of their names, each by its
/// path below a prefix.
pub open spec fn walked(
    entries: Seq<DirView>,
    prefix: Seq<char>,
    everything: bool,
    n: int,
) -> Seq<DirView>
    decreases n,
{
    if n <= 0 {
        Seq::empty()
    } else {
        let before = walked(entries, prefix, everything, n - 1);
        let entry = entries[order_of(dir_names(entries), entries.len() as int)[n - 1]];
        if everything || is_walked(entry) {
            before.push(DirView { name: path_below(prefix, entry.name), kind: entry.kind })
        } else {
            before
        }
    }
}

/// The entries of a directory that are walked, in the order of their names, each by its path below a
/// prefix. What is passed over in a search is left out, unless everything is asked for.
pub fn walk_dir(entries: &Vec<DirEntry>, prefix: &str, everything: bool) -> (r: Vec<DirEntry>)
    ensures
        dir_view(r@) == walked(dir_view(entries@), prefix@, everything, entries@.len() as int),
{
    let ghost all = dir_view(entries@);
    let ghost names_view = dir_names(all);
    let mut names: Vec<String> = Vec::new();
    let mut i: usize = 0;
    assert(views(names@) =~= names_view.take(0));
    while i < entries.len()
        invariant
            i <= entries@.len(),
            all == dir_view(entries@),
            names_view == dir_names(all),
            names@.len() == i,
            views(names@) == names_view.take(i as int),
        decreases entries@.len() - i,
    {
        let ghost before = views(names@);
        let name = entries[i].name.clone();
        names.push(name);
        proof {
            assert(views(names@) =~= before.push(name@));
            assert(names_view.take(i + 1) =~= names_view.take(i as int).push(names_view[i as int]));
        }
        i += 1;
    }
    assert(names_view.take(i as int) =~= names_view);
    let order = order::sort_names(&names);
    let ghost order_view = order_of(names_view, all.len() as int);
    let mut out: Vec<DirEntry> = Vec::new();
    let mut k: usize = 0;
    assert(dir_view(out@) =~= Seq::empty());
    while k < order.len()
        invariant
            k <= order@.len() == entries@.len(),
            all == dir_view(entries@),
            order_view == ints(order@),
            order_view == order_of(dir_names(all), all.len() as int),
            forall|j: int| 0 <= j < order@.len() ==> #[trigger] order@[j] < entries@.len(),
            dir_view(out@) == walked(all, prefix@, everything, k as int),
        decreases order@.len() - k,
    {
        let entry = &entries[order[k]];
        proof {
            assert(order_view[k as int] == order@[k as int] as int);
            assert(all[order_view[k as int]] == entry@);
        }
        let keep = everything || match entry.kind {
            EntryKind::Dir => !ignored_dir_name(entry.name.as_str()),
            EntryKind::File => !ignored_file_name(entry.name.as_str()),
            EntryKind::Other => false,
        };
        if keep {
            let ghost before = dir_view(out@);
            let path = if prefix.is_empty() {
                entry.name.clone()
            } else {
                text::glue3(prefix, "/", entry.name.as_str())
            };
            let item = DirEntry { name: path, kind: entry.kind };
            out.push(item);
            assert(dir_view(out@) =~= before.push(item@));
        }
        k += 1;
    }
    out
}

// ---------------------------------------------------------------------------------------------
// File names
// ---------------------------------------------------------------------------------------------
/// The pattern for a glob from position `i` on.
pub open spec fn glob_from(s: Seq<char>, i: int) -> Seq<char>
    decreases s.len() - i,
{
    if i < 0 || i >= s.len() {
        Seq::empty()
    } else if s[i] == '*' && i + 2 < s.len() && s[i + 1] == '*' && s[i + 2] == '/' {
        "(?:[^/]*/)*"@ + glob_from(s, i + 3)
    } else if s[i] == '*' && i + 1 < s.len() && s[i + 1] == '*' {
        ".*"@ + glob_from(s, i + 2)
    } else if s[i] == '*' {
        "[^/]*"@ + glob_from(s, i + 1)
    } else if s[i] == '?' {
        "[^/]"@ + glob_from(s, i + 1)
    } else {
        literal(seq![s[i]]) + glob_from(s, i + 1)
    }
}

/// The pattern for a glob: two stars and a slash match any directories, two stars match anything, one
/// star anything without a slash, and a question mark any one character but a slash.
pub fn glob_to_regex(glob: &str) -> (r: String)
    ensures
        r@ == glob_from(glob@, 0),
{
    let s = text::chars_of(glob);
    let total: usize = s.len();
    let mut out = String::new();
    let mut i: usize = 0;
    assert(out@ + glob_from(s@, 0) =~= glob_from(glob@, 0));
    while i < total
        invariant
            i <= total,
            total == s@.len(),
            out@ + glob_from(s@, i as int) == glob_from(glob@, 0),
        decreases total - i,
    {
        let ghost before = out@;
        let ghost at = i as int;
        if s[i] == '*' {
            if total - i > 1 && s[i + 1] == '*' {
                if total - i > 2 && s[i + 2] == '/' {
                    out.append("(?:[^/]*/)*");
                    i += 3;
                } else {
                    out.append(".*");
                    i += 2;
                }
            } else {
                out.append("[^/]*");
                i += 1;
            }
        } else if s[i] == '?' {
            out.append("[^/]");
            i += 1;
        } else {
            let one: [char; 1] = [s[i]];
            assert(one@ =~= seq![s@[at]]);
            out.append(pattern::escape(text::string_of(one.as_slice()).as_str()).as_str());
            i += 1;
        }
        assert(out@ + glob_from(s@, i as int) =~= before + glob_from(s@, at));
    }
    assert(out@ =~= glob_from(glob@, 0));
    out
}

/// The part of a path behind the last slash.
pub open spec fn base_name(path: Seq<char>) -> Seq<char> {
    match find_last(path, seq!['/'], path.len() as int - 1) {
        Some(at) => path.skip(at + 1),
        None => path,
    }
}

/// What a glob is held against: the name alone if it has no slash, and else the whole path.
pub open spec fn glob_target(glob: Seq<char>, path: Seq<char>) -> Seq<char> {
    if glob.contains('/') {
        path
    } else {
        base_name(path)
    }
}

/// The whole pattern for a glob.
pub open spec fn glob_pattern(glob: Seq<char>) -> Seq<char> {
    "^"@ + glob_from(glob, 0) + "$"@
}

/// The first `n` paths that match, given which of them do; no more than the limit.
pub open spec fn first_hits(paths: Seq<Seq<char>>, found: Seq<bool>, n: int) -> Seq<Seq<char>>
    decreases n,
{
    if n <= 0 {
        Seq::empty()
    } else {
        let before = first_hits(paths, found, n - 1);
        if before.len() < GLOB_MAX_RESULTS && found[n - 1] {
            before.push(paths[n - 1])
        } else {
            before
        }
    }
}

/// What is said of the paths that were found.
pub open spec fn glob_report(hits: Seq<Seq<char>>) -> Seq<char> {
    if hits.len() == 0 {
        "The glob search returned no results."@
    } else if hits.len() == GLOB_MAX_RESULTS {
        join(hits, "\n"@)
            + "\n\nWarning: the results above were truncated to the first 100 files. If the results are not satisfactory, refine your search pattern"@
    } else {
        join(hits, "\n"@)
    }
}

/// Which of some paths match a glob.
pub open spec fn glob_found(glob: Seq<char>, paths: Seq<Seq<char>>) -> Seq<bool> {
    Seq::new(
        paths.len(),
        |i: int| pattern_found(glob_pattern(glob), false, glob_target(glob, paths[i])),
    )
}

/// What is said of the paths that match a glob.
pub open spec fn glob_search_text(glob: Seq<char>, paths: Seq<Seq<char>>) -> Seq<char> {
    if trim(glob).len() == 0 {
        "empty search pattern"@
    } else {
        match pattern_fault(glob_pattern(glob), false) {
            Some(fault) => "invalid glob pattern: invalid glob pattern: "@ + fault,
            None => glob_report(first_hits(paths, glob_found(glob, paths), paths.len() as int)),
        }
    }
}

/// The part of a path behind the last slash.
fn base_name_of(path: &str) -> (r: String)
    ensures
        r@ == base_name(path@),
{
    let chars = text::chars_of(path);
    let total: usize = chars.len();
    let slash: [char; 1] = ['/'];
    assert(slash@ =~= seq!['/']);
    match text::rfind(chars.as_slice(), slash.as_slice()) {
        Some(at) => {
            let rest = text::part(chars.as_slice(), at + 1, total);
            assert(rest@ =~= path@.skip(at + 1));
            text::string_of(rest.as_slice())
        },
        None => path.to_owned(),
    }
}

/// Whether a character stands in a text.
fn has_char(s: &[char], c: char) -> (r: bool)
    ensures
        r == s@.contains(c),
{
    let mut i: usize = 0;
    while i < s.len()
        invariant
            i <= s@.len(),
            forall|k: int| 0 <= k < i ==> s@[k] != c,
        decreases s@.len() - i,
    {
        if s[i] == c {
            return true;
        }
        i += 1;
    }
    false
}

/// Which of some paths match a glob; the error says why the glob cannot be used.
pub fn glob_matches(glob: &str, paths: &Vec<String>) -> (r: Result<Vec<bool>, String>)
    ensures
        match r {
            Ok(found) => pattern_fault(glob_pattern(glob@), false) is None && found@ == glob_found(
                glob@,
                views(paths@),
            ),
            Err(e) => match pattern_fault(glob_pattern(glob@), false) {
                Some(fault) => e@ == "invalid glob pattern: "@ + fault,
                None => false,
            },
        },
{
    let whole = has_char(text::chars_of(glob).as_slice(), '/');
    let source = text::glue3("^", glob_to_regex(glob).as_str(), "$");
    let ghost all = views(paths@);
    let mut targets: Vec<String> = Vec::new();
    let mut i: usize = 0;
    while i < paths.len()
        invariant
            i <= paths@.len(),
            all == views(paths@),
            whole == glob@.contains('/'),
            targets@.len() == i,
            forall|k: int| 0 <= k < i ==> #[trigger] targets@[k]@ == glob_target(glob@, all[k]),
        decreases paths@.len() - i,
    {
        assert(all[i as int] == paths@[i as int]@);
        let target = if whole {
            paths[i].clone()
        } else {
            base_name_of(paths[i].as_str())
        };
        targets.push(target);
        i += 1;
    }
    match pattern::matches_in(source.as_str(), false, &targets) {
        Ok(found) => {
            assert(found@ =~= glob_found(glob@, all));
            Ok(found)
        },
        Err(fault) => Err(text::glue("invalid glob pattern: ", fault.as_str())),
    }
}

/// What is said of the paths that were found, given which of them match.
pub fn report_glob(paths: &Vec<String>, found: &Vec<bool>) -> (r: String)
    requires
        paths@.len() == found@.len(),
    ensures
        r@ == glob_report(first_hits(views(paths@), found@, paths@.len() as int)),
{
    let ghost all = views(paths@);
    let mut hits: Vec<String> = Vec::new();
    let mut i: usize = 0;
    assert(views(hits@) =~= Seq::empty());
    while i < paths.len()
        invariant
            i <= paths@.len() == found@.len(),
            all == views(paths@),
            views(hits@) == first_hits(all, found@, i as int),
        decreases paths@.len() - i,
    {
        assert(views(hits@).len() == hits@.len());
        if hits.len() < GLOB_MAX_RESULTS && found[i] {
            let ghost before = views(hits@);
            let path = paths[i].clone();
            hits.push(path);
            assert(views(hits@) =~= before.push(path@));
            assert(all[i as int] == path@);
        }
        i += 1;
    }
    assert(views(hits@).len() == hits@.len());
    if hits.len() == 0 {
        return "The glob search returned no results.".to_owned();
    }
    let mut out = text::joined_strings(&hits, "\n");
    if hits.len() == GLOB_MAX_RESULTS {
        out.append(
            "\n\nWarning: the results above were truncated to the first 100 files. If the results are not satisfactory, refine your search pattern",
        );
    }
    out
}

/// What is said of the paths, in the order of the walk, that match a glob.
pub fn file_glob_search(glob: &str, paths: &Vec<String>) -> (r: String)
    ensures
        r@ == glob_search_text(glob@, views(paths@)),
{
    if text::trimmed(text::chars_of(glob).as_slice()).len() == 0 {
        return "empty search pattern".to_owned();
    }
    match glob_matches(glob, paths) {
        Ok(found) => {
            assert(views(paths@).len() == paths@.len());
            report_glob(paths, &found)
        },
        Err(fault) => {
            let out = text::glue("invalid glob pattern: ", fault.as_str());
            proof {
                reveal_strlit("invalid glob pattern: ");
                reveal_strlit("invalid glob pattern: invalid glob pattern: ");
                assert("invalid glob pattern: "@ + "invalid glob pattern: "@
                    =~= "invalid glob pattern: invalid glob pattern: "@);
                assert(out@ =~= "invalid glob pattern: invalid glob pattern: "@ + pattern_fault(
                    glob_pattern(glob@),
                    false,
                )->0);
            }
            out
        },
    }
}

/// A glob without wildcards and other signs is its own pattern.
pub proof fn plain_globs_are_literal(s: Seq<char>, i: int)
    requires
        0 <= i <= s.len(),
        forall|k: int| 0 <= k < s.len() ==> !is_meta(#[trigger] s[k]),
    ensures
        glob_from(s, i) == s.skip(i),
    decreases s.len() - i,
{
    if i < s.len() {
        plain_globs_are_literal(s, i + 1);
        reveal_with_fuel(literal, 2);
        assert(!is_meta(s[i]));
        let one = seq![s[i]];
        assert(one.drop_last() =~= Seq::<char>::empty());
        assert(literal(one) =~= one);
        assert(one + s.skip(i + 1) =~= s.skip(i));
    } else {
        assert(s.skip(i) =~= Seq::empty());
    }
}

// ---------------------------------------------------------------------------------------------
// Lines
// ---------------------------------------------------------------------------------------------
/// The lines of a file from `from` to before `to`, as they are shown.
pub open spec fn shown_lines(ls: Seq<Seq<char>>, from: int, to: int) -> Seq<char>
    decreases to - from,
{
    if from >= to {
        Seq::empty()
    } else {
        shown_lines(ls, from, to - 1) + "\n  "@ + ls[to - 1]
    }
}

/// How far a search has come: what is shown, how many lines were found, whether it stopped, and, in the
/// file at hand, whether its name is shown and which line is the next to be shown.
pub ghost struct GrepView {
    pub out: Seq<char>,
    pub hits: nat,
    pub stopped: bool,
    pub opened: bool,
    pub next: int,
}

/// The first line that is shown with line `i`: two before it, but none that is shown already.
pub open spec fn context_start(next: int, i: int) -> int {
    if next > i - 2 && next > 0 {
        next
    } else if i > 2 {
        i - 2
    } else {
        0
    }
}

/// The end of what is shown with line `i`: two lines after it.
pub open spec fn context_end(len: nat, i: int) -> int {
    if i + 3 < len {
        i + 3
    } else {
        len as int
    }
}

/// Takes in that line `i` of a file matches.
pub open spec fn grep_hit(grep: GrepView, name: Seq<char>, ls: Seq<Seq<char>>, i: int) -> GrepView {
    let head = if grep.opened {
        grep.out
    } else if grep.out.len() > 0 {
        grep.out + "\n--\n"@ + "./"@ + name
    } else {
        "./"@ + name
    };
    let start = context_start(
        if grep.opened {
            grep.next
        } else {
            0
        },
        i,
    );
    let end = context_end(ls.len(), i);
    let out = head + shown_lines(ls, start, end);
    GrepView {
        out,
        hits: grep.hits + 1,
        stopped: grep.hits + 1 >= GREP_MAX_RESULTS || encode_utf8(out).len() >= GREP_MAX_CHARS,
        opened: true,
        next: if end > start {
            end
        } else {
            start
        },
    }
}

/// Takes in the first `n` lines of a file, given which of them match.
pub open spec fn grep_lines(
    grep: GrepView,
    name: Seq<char>,
    ls: Seq<Seq<char>>,
    found: Seq<bool>,
    n: int,
) -> GrepView
    decreases n,
{
    if n <= 0 {
        GrepView { opened: false, next: 0, ..grep }
    } else {
        let before = grep_lines(grep, name, ls, found, n - 1);
        if before.stopped || !found[n - 1] {
            before
        } else {
            grep_hit(before, name, ls, n - 1)
        }
    }
}

/// Which lines match a query.
pub open spec fn found_lines(query: Seq<char>, ls: Seq<Seq<char>>) -> Seq<bool> {
    Seq::new(ls.len(), |i: int| pattern_found(query, true, ls[i]))
}

/// What is said of a query that cannot be used.
pub open spec fn query_fault(query: Seq<char>, fault: Seq<char>) -> Seq<char> {
    "The search failed due to an invalid regex pattern.\n\nOriginal query: "@ + query
        + "\n\nError: "@ + fault
        + "\n\nTip: If you're searching for literal text with special characters, the query was automatically escaped. If you need regex patterns, ensure they use proper regex syntax."@
}

/// What is said at the end of a search.
pub open spec fn grep_report(out: Seq<char>, hits: nat, stopped: bool) -> Seq<char> {
    if hits == 0 {
        "The search returned no results."@
    } else if stopped {
        out + "\n\nThe above search results were truncated because "@ + (if hits
            >= GREP_MAX_RESULTS {
            "the number of results exceeded 100"@
        } else {
            "the number of characters exceeded 7500"@
        }) + ". If the results are not satisfactory, try refining your search query."@
    } else {
        out
    }
}

/// A search through files.
#[derive(Debug)]
pub struct Grep {
    pub query: String,
    pub out: String,
    pub hits: usize,
    pub stopped: bool,
}

impl Grep {
    /// How far the search has come, between two files.
    pub open spec fn so_far(self) -> GrepView {
        GrepView {
            out: self.out@,
            hits: self.hits as nat,
            stopped: self.stopped,
            opened: false,
            next: 0,
        }
    }

    /// A search that goes on has found fewer lines than the limit.
    pub open spec fn wf(self) -> bool {
        &&& pattern_fault(self.query@, true) is None
        &&& !self.stopped ==> self.hits < GREP_MAX_RESULTS
    }

    /// A search that has not begun; the error says why the query cannot be used.
    pub fn new(query: &str) -> (r: Result<Grep, String>)
        ensures
            match r {
                Ok(grep) => {
                    &&& pattern_fault(query@, true) is None
                    &&& grep.query@ == query@
                    &&& grep.so_far() == (GrepView {
                        out: Seq::empty(),
                        hits: 0,
                        stopped: false,
                        opened: false,
                        next: 0,
                    })
                    &&& grep.wf()
                },
                Err(e) => match pattern_fault(query@, true) {
                    Some(fault) => e@ == query_fault(query@, fault),
                    None => false,
                },
            },
    {
        let none: Vec<String> = Vec::new();
        match pattern::matches_in(query, true, &none) {
            Ok(_) => {
                let out = String::new();
                assert(out@ =~= Seq::<char>::empty());
                Ok(Grep { query: query.to_owned(), out, hits: 0, stopped: false })
            },
            Err(fault) => {
                let mut said = text::glue3(
                    "The search failed due to an invalid regex pattern.\n\nOriginal query: ",
                    query,
                    "\n\nError: ",
                );
                said.append(fault.as_str());
                said.append(
                    "\n\nTip: If you're searching for literal text with special characters, the query was automatically escaped. If you need regex patterns, ensure they use proper regex syntax.",
                );
                Err(said)
            },
        }
    }

    /// Looks through a file, and says whether the search goes on.
    pub fn visit(&mut self, name: &str, content: &str) -> (r: bool)
        requires
            old(self).wf(),
            !old(self).stopped,
        ensures
            final(self).wf(),
            final(self).query@ == old(self).query@,
            r == !final(self).stopped,
            ({
                let ls = lines(content@);
                let after = grep_lines(
                    old(self).so_far(),
                    name@,
                    ls,
                    found_lines(old(self).query@, ls),
                    ls.len() as int,
                );
                final(self).so_far() == (GrepView { opened: false, next: 0, ..after })
            }),
    {
        let chars = text::chars_of(content);
        let ls = text::lines_of(chars.as_slice());
        let ghost all = lines(content@);
        let mut texts: Vec<String> = Vec::new();
        let mut i: usize = 0;
        assert(rows(ls@).len() == ls@.len());
        while i < ls.len()
            invariant
                i <= ls@.len(),
                all == rows(ls@),
                texts@.len() == i,
                forall|k: int| 0 <= k < i ==> #[trigger] texts@[k]@ == all[k],
            decreases ls@.len() - i,
        {
            assert(all[i as int] == ls@[i as int]@);
            texts.push(text::string_of(ls[i].as_slice()));
            i += 1;
        }
        match pattern::matches_in(self.query.as_str(), true, &texts) {
            Ok(found) => {
                assert(found@ =~= found_lines(self.query@, all));
                assert(views(texts@) =~= all);
                self.take_in(name, &texts, &found)
            },
            Err(_) => true,
        }
    }

    /// Takes in the lines of a file, given which of them match, and says whether the search goes on.
    pub fn take_in(&mut self, name: &str, ls: &Vec<String>, found: &Vec<bool>) -> (r: bool)
        requires
            old(self).wf(),
            !old(self).stopped,
            ls@.len() == found@.len(),
        ensures
            final(self).wf(),
            final(self).query == old(self).query,
            r == !final(self).stopped,
            final(self).so_far() == (GrepView {
                opened: false,
                next: 0,
                ..grep_lines(
                    old(self).so_far(),
                    name@,
                    views(ls@),
                    found@,
                    ls@.len() as int,
                )
            }),
    {
        let ghost all = views(ls@);
        let ghost start = self.so_far();
        let total: usize = ls.len();
        let mut opened = false;
        let mut next: usize = 0;
        let mut i: usize = 0;
        while i < total
            invariant
                i <= total,
                total == ls@.len() == found@.len(),
                all == views(ls@),
                self.query == old(self).query,
                self.wf(),
                next <= total,
                !opened ==> next == 0,
                grep_lines(start, name@, all, found@, i as int) == (GrepView {
                    opened,
                    next: next as int,
                    ..self.so_far()
                }),
            decreases total - i,
        {
            if !self.stopped && found[i] {
                let ghost before = grep_lines(start, name@, all, found@, i as int);
                if !opened {
                    if !self.out.as_str().is_empty() {
                        self.out.append("\n--\n");
                    }
                    self.out.append("./");
                    self.out.append(name);
                    opened = true;
                }
                let ghost head = self.out@;
                let from: usize = if next > 0 && (i < 2 || next > i - 2) {
                    next
                } else if i > 2 {
                    i - 2
                } else {
                    0
                };
                let to: usize = if total - i > 3 {
                    i + 3
                } else {
                    total
                };
                let mut k: usize = from;
                assert(head + shown_lines(all, from as int, from as int) =~= head);
                while k < to
                    invariant
                        from <= k,
                        k <= to || k == from,
                        to <= total == ls@.len(),
                        all == views(ls@),
                        self.out@ == head + shown_lines(all, from as int, k as int),
                        self.query == old(self).query,
                        self.hits < GREP_MAX_RESULTS,
                        !self.stopped,
                        self.hits == before.hits,
                        pattern_fault(self.query@, true) is None,
                    decreases to - k,
                {
                    assert(all[k as int] == ls@[k as int]@);
                    self.out.append("\n  ");
                    self.out.append(ls[k].as_str());
                    proof {
                        assert(self.out@ =~= head + shown_lines(all, from as int, k + 1));
                    }
                    k += 1;
                }
                proof {
                    if from >= to {
                        assert(head + shown_lines(all, from as int, to as int) =~= head);
                    }
                }
                next = if to > from {
                    to
                } else {
                    from
                };
                self.hits = self.hits + 1;
                if self.hits >= GREP_MAX_RESULTS || self.out.as_str().as_bytes().len()
                    >= GREP_MAX_CHARS {
                    self.stopped = true;
                }
                proof {
                    let after = grep_hit(before, name@, all, i as int);
                    assert(after.out == self.out@);
                }
            }
            i += 1;
        }
        !self.stopped
    }

    /// What is said at the end of the search.
    pub fn finish(self) -> (r: String)
        ensures
            r@ == grep_report(self.out@, self.hits as nat, self.stopped),
    {
        if self.hits == 0 {
            return "The search returned no results.".to_owned();
        }
        if !self.stopped {
            return self.out;
        }
        let mut out = self.out;
        out.append("\n\nThe above search results were truncated because ");
        if self.hits >= GREP_MAX_RESULTS {
            out.append("the number of results exceeded 100");
        } else {
            out.append("the number of characters exceeded 7500");
        }
        out.append(". If the results are not satisfactory, try refining your search query.");
        out
    }
}

} // verus!
