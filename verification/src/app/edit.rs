//! Editing a file by showing its changed parts.
//!
//! The changes name lines of the file and lines to take in. Lines that the file holds anchor the
//! changes; the others replace a similar line between two anchors or are inserted there. A line such
//! as `// ... existing code ...` stands for what is left as it is.

use crate::app::diff;
use crate::app::diff::diff_text;
use crate::number::DOUBLE_ONE;
use crate::text;
use crate::text::{
    contains, count_of, decimal, find_from, find_last, has_prefix, has_suffix, join, lines,
    opt_text, replaced, rows, trim, trim_end, trim_end_char, white,
};
use vstd::prelude::*;

verus! {

// ---------------------------------------------------------------------------------------------
// Placeholders and fences
// ---------------------------------------------------------------------------------------------
/// Whether a text holds dots and white space only.
pub open spec fn only_dots(s: Seq<char>) -> bool {
    forall|i: int| 0 <= i < s.len() ==> (#[trigger] s[i] == '.' || white(s[i]))
}

/// The signs that begin a comment, in the order in which they are tried.
pub open spec fn comment_prefixes() -> Seq<&'static str> {
    seq!["//", "#", "--", "/*", "*/", "<!--", "-->", ";", "'", "*"]
}

/// The signs that end a comment, in the order in which they are tried.
pub open spec fn comment_suffixes() -> Seq<&'static str> {
    seq!["*/", "-->", "/"]
}

/// `s` without the first of the prefixes that it begins with.
pub open spec fn without_prefix(s: Seq<char>, prefixes: Seq<&str>) -> Seq<char>
    decreases prefixes.len(),
{
    if prefixes.len() == 0 {
        s
    } else if has_prefix(s, prefixes[0]@) {
        s.skip(prefixes[0]@.len() as int)
    } else {
        without_prefix(s, prefixes.drop_first())
    }
}

/// `s` without the first of the suffixes that it ends with.
pub open spec fn without_suffix(s: Seq<char>, suffixes: Seq<&str>) -> Seq<char>
    decreases suffixes.len(),
{
    if suffixes.len() == 0 {
        s
    } else if has_suffix(s, suffixes[0]@) {
        s.take(s.len() - suffixes[0]@.len())
    } else {
        without_suffix(s, suffixes.drop_first())
    }
}

/// The text of a comment line.
pub open spec fn comment_text(s: Seq<char>) -> Seq<char> {
    trim(without_suffix(without_prefix(s, comment_prefixes()), comment_suffixes()))
}

/// Whether a line stands for lines that are left as they are: dots, or a comment that holds dots only
/// or begins and ends with them.
pub open spec fn placeholder(line: Seq<char>) -> bool {
    let s = trim(line);
    let comment = comment_text(s);
    s.len() > 0 && {
        ||| only_dots(s) && contains(s, "..."@)
        ||| only_dots(comment) && contains(comment, "..."@)
        ||| has_prefix(comment, "..."@) && has_suffix(comment, "..."@)
    }
}

/// The changes without the fence of a code block around them.
pub open spec fn unfenced(changes: Seq<char>) -> Seq<char> {
    let s = trim(changes);
    if !has_prefix(s, "```"@) {
        s
    } else {
        let rest = s.skip(3);
        match find_from(rest, "\n"@, 0) {
            None => s,
            Some(newline) => {
                let body = rest.skip(newline + 1);
                match find_last(body, "```"@, body.len() - 3) {
                    Some(end) => trim_end_char(body.take(end), '\n'),
                    None => s,
                }
            },
        }
    }
}

/// Whether a text holds dots and white space only.
pub fn is_dots(s: &[char]) -> (r: bool)
    ensures
        r == only_dots(s@),
{
    let mut i: usize = 0;
    while i < s.len()
        invariant
            i <= s.len(),
            forall|k: int| 0 <= k < i ==> (#[trigger] s@[k] == '.' || white(s@[k])),
        decreases s.len() - i,
    {
        if s[i] != '.' && !s[i].is_whitespace() {
            assert(!(s@[i as int] == '.' || white(s@[i as int])));
            return false;
        }
        i += 1;
    }
    true
}

/// The line without the sign that begins a comment.
pub fn strip_comment_prefix(line: &[char]) -> (r: Vec<char>)
    ensures
        r@ == without_prefix(line@, comment_prefixes()),
{
    let prefixes: [&str; 10] = ["//", "#", "--", "/*", "*/", "<!--", "-->", ";", "'", "*"];
    assert(prefixes@ =~= comment_prefixes());
    let mut i: usize = 0;
    assert(comment_prefixes().skip(0) =~= comment_prefixes());
    while i < 10
        invariant
            i <= 10,
            prefixes@ == comment_prefixes(),
            without_prefix(line@, comment_prefixes()) == without_prefix(
                line@,
                comment_prefixes().skip(i as int),
            ),
        decreases 10 - i,
    {
        let prefix = prefixes[i];
        assert(comment_prefixes().skip(i as int).drop_first() =~= comment_prefixes().skip(i + 1));
        if text::starts_with(line, prefix) {
            let n: usize = text::chars_of(prefix).len();
            assert(line@.skip(n as int) =~= line@.subrange(n as int, line@.len() as int));
            return text::part(line, n, line.len());
        }
        i += 1;
    }
    assert(line@.subrange(0, line@.len() as int) =~= line@);
    text::part(line, 0, line.len())
}

/// The line without the sign that ends a comment.
pub fn strip_comment_suffix(line: &[char]) -> (r: Vec<char>)
    ensures
        r@ == without_suffix(line@, comment_suffixes()),
{
    let suffixes: [&str; 3] = ["*/", "-->", "/"];
    assert(suffixes@ =~= comment_suffixes());
    let mut i: usize = 0;
    assert(comment_suffixes().skip(0) =~= comment_suffixes());
    while i < 3
        invariant
            i <= 3,
            suffixes@ == comment_suffixes(),
            without_suffix(line@, comment_suffixes()) == without_suffix(
                line@,
                comment_suffixes().skip(i as int),
            ),
        decreases 3 - i,
    {
        let suffix = suffixes[i];
        assert(comment_suffixes().skip(i as int).drop_first() =~= comment_suffixes().skip(i + 1));
        if text::ends_with(line, suffix) {
            let n: usize = text::chars_of(suffix).len();
            assert(line@.take(line@.len() - n) =~= line@.subrange(0, line@.len() - n));
            return text::part(line, 0, line.len() - n);
        }
        i += 1;
    }
    assert(line@.subrange(0, line@.len() as int) =~= line@);
    text::part(line, 0, line.len())
}

/// Whether a line stands for lines that are left as they are.
pub fn is_placeholder(line: &str) -> (r: bool)
    ensures
        r == placeholder(line@),
{
    placeholder_line(text::chars_of(line).as_slice())
}

fn placeholder_line(line: &[char]) -> (r: bool)
    ensures
        r == placeholder(line@),
{
    let trimmed = text::trimmed(line);
    if trimmed.len() == 0 {
        return false;
    }
    if is_dots(trimmed.as_slice()) && text::has(trimmed.as_slice(), "...") {
        return true;
    }
    let bare = strip_comment_prefix(trimmed.as_slice());
    let stripped = text::trimmed(strip_comment_suffix(bare.as_slice()).as_slice());
    if is_dots(stripped.as_slice()) && text::has(stripped.as_slice(), "...") {
        return true;
    }
    text::starts_with(stripped.as_slice(), "...") && text::ends_with(stripped.as_slice(), "...")
}

/// The changes without the fence of a code block around them.
pub fn strip_codeblock(changes: &[char]) -> (r: Vec<char>)
    ensures
        r@ == unfenced(changes@),
{
    let trimmed = text::trimmed(changes);
    if !text::starts_with(trimmed.as_slice(), "```") {
        return trimmed;
    }
    proof {
        reveal_strlit("```");
        reveal_strlit("\n");
        assert(trimmed@.skip(3) =~= trimmed@.subrange(3, trimmed@.len() as int));
    }
    let rest = text::part(trimmed.as_slice(), 3, trimmed.len());
    match text::find(rest.as_slice(), text::chars_of("\n").as_slice(), 0) {
        None => trimmed,
        Some(newline) => {
            assert(rest@.skip(newline + 1) =~= rest@.subrange(newline + 1, rest@.len() as int));
            let body = text::part(rest.as_slice(), newline + 1, rest.len());
            match text::rfind(body.as_slice(), text::chars_of("```").as_slice()) {
                Some(end) => {
                    assert(body@.take(end as int) =~= body@.subrange(0, end as int));
                    text::trimmed_end_char(text::part(body.as_slice(), 0, end).as_slice(), '\n')
                },
                None => trimmed,
            }
        },
    }
}

// ---------------------------------------------------------------------------------------------
// Anchors
// ---------------------------------------------------------------------------------------------
/// The first line from `from` on that equals `line` but for white space at the end.
pub open spec fn match_from(fs: Seq<Seq<char>>, line: Seq<char>, from: int) -> Option<int>
    decreases fs.len() - from,
{
    if from < 0 || from >= fs.len() {
        None
    } else if trim_end(fs[from]) == trim_end(line) {
        Some(from)
    } else {
        match_from(fs, line, from + 1)
    }
}

/// Where the search for the next anchor begins after the first `n` lines of the changes.
pub open spec fn search_from(cs: Seq<Seq<char>>, fs: Seq<Seq<char>>, n: int) -> int
    decreases n,
{
    if n <= 0 {
        0
    } else {
        match anchor_at(cs, fs, n - 1, search_from(cs, fs, n - 1)) {
            Some(k) => k + 1,
            None => search_from(cs, fs, n - 1),
        }
    }
}

/// The file line that anchors line `i` of the changes, searched from `from` on.
pub open spec fn anchor_at(cs: Seq<Seq<char>>, fs: Seq<Seq<char>>, i: int, from: int) -> Option<int> {
    if placeholder(cs[i]) {
        None
    } else {
        match_from(fs, cs[i], from)
    }
}

/// For each line of the changes the file line that anchors it. Anchors follow each other in the file
/// as they do in the changes.
pub open spec fn anchors(cs: Seq<Seq<char>>, fs: Seq<Seq<char>>) -> Seq<Option<int>> {
    Seq::new(cs.len(), |i: int| anchor_at(cs, fs, i, search_from(cs, fs, i)))
}

/// The last entry that holds a line.
pub open spec fn last_some(ps: Seq<Option<int>>) -> Option<int>
    decreases ps.len(),
{
    if ps.len() == 0 {
        None
    } else if ps.last() is Some {
        ps.last()
    } else {
        last_some(ps.drop_last())
    }
}

/// The first entry that holds a line.
pub open spec fn first_some(ps: Seq<Option<int>>) -> Option<int>
    decreases ps.len(),
{
    if ps.len() == 0 {
        None
    } else if ps[0] is Some {
        ps[0]
    } else {
        first_some(ps.drop_first())
    }
}

/// The nearest anchor before line `i` of the changes.
pub open spec fn anchor_before(ps: Seq<Option<int>>, i: int) -> Option<int> {
    last_some(ps.take(i))
}

/// The nearest anchor after line `i` of the changes.
pub open spec fn anchor_after(ps: Seq<Option<int>>, i: int) -> Option<int> {
    first_some(ps.skip(i + 1))
}

/// The Sørensen-Dice similarity of two lines, as the bits of a double-precision number between 0 and
/// 1. Such numbers are ordered as their bits are.
pub uninterp spec fn similarity(a: Seq<char>, b: Seq<char>) -> u64;

/// `strsim::sorensen_dice` depends on the two texts alone. Its value lies between 0 and 1, and is
/// handed on by its bits.
#[verifier::external_body]
fn similarity_of(a: &str, b: &str) -> (r: u64)
    ensures
        r == similarity(a@, b@),
        r <= DOUBLE_ONE,
{
    strsim::sorensen_dice(a, b).to_bits()
}

/// The similarity from which on a line is taken for a changed version of another: nine tenths.
pub const SIMILAR: u64 = 0x3FEC_CCCC_CCCC_CCCD;

/// Among the file lines from `start` to `end` that anchor nothing, the first of those most similar to
/// `line`, with its similarity.
pub open spec fn most_similar(
    line: Seq<char>,
    fs: Seq<Seq<char>>,
    ps: Seq<Option<int>>,
    start: int,
    end: int,
) -> Option<(int, u64)>
    decreases end - start,
{
    if end <= start {
        None
    } else {
        let best = most_similar(line, fs, ps, start, end - 1);
        let sim = similarity(trim_end(line), trim_end(fs[end - 1]));
        if ps.contains(Some(end - 1)) || (best is Some && sim <= (best->0).1) {
            best
        } else {
            Some((end - 1, sim))
        }
    }
}

/// The file line that line `i` of the changes is a changed version of: the most similar one between
/// the anchors around it, if it is similar enough.
pub open spec fn replacement(
    cs: Seq<Seq<char>>,
    fs: Seq<Seq<char>>,
    ps: Seq<Option<int>>,
    i: int,
) -> Option<int> {
    if ps[i] is Some || placeholder(cs[i]) {
        None
    } else {
        let start = match anchor_before(ps, i) {
            Some(p) => p + 1,
            None => 0,
        };
        let end = match anchor_after(ps, i) {
            Some(p) => p,
            None => fs.len() as int,
        };
        match most_similar(cs[i], fs, ps, start, end) {
            Some((j, sim)) => if sim >= SIMILAR {
                Some(j)
            } else {
                None
            },
            None => None,
        }
    }
}

/// For each line of the changes the file line that it is a changed version of.
pub open spec fn replacements(
    cs: Seq<Seq<char>>,
    fs: Seq<Seq<char>>,
    ps: Seq<Option<int>>,
) -> Seq<Option<int>> {
    Seq::new(cs.len(), |i: int| replacement(cs, fs, ps, i))
}

/// The one file line between the anchors around line `i` of the changes, if there is exactly one.
pub open spec fn only_between(ps: Seq<Option<int>>, i: int) -> Option<int> {
    match (anchor_before(ps, i), anchor_after(ps, i)) {
        (Some(before), Some(after)) => if after == before + 2 {
            Some(before + 1)
        } else {
            None
        },
        _ => None,
    }
}

// ---------------------------------------------------------------------------------------------
// Building the new file
// ---------------------------------------------------------------------------------------------
/// What becomes of a line of the changes.
pub ghost enum Place {
    /// It takes the place of a file line.
    Replace(int),
    /// It goes in before a file line.
    Insert(int),
    /// Nothing that follows says where it belongs.
    Nowhere,
}

/// The file line of the first line of the changes, from line `i` on, that is an anchor or a changed
/// version of a file line.
pub open spec fn placed_from(ps: Seq<Option<int>>, rs: Seq<Option<int>>, i: int) -> Option<int>
    decreases ps.len() - i,
{
    if i < 0 || i >= ps.len() {
        None
    } else if ps[i] is Some {
        ps[i]
    } else if rs[i] is Some {
        rs[i]
    } else {
        placed_from(ps, rs, i + 1)
    }
}

/// What becomes of line `i` of the changes.
pub open spec fn place(ps: Seq<Option<int>>, rs: Seq<Option<int>>, i: int) -> Place {
    if ps[i] is Some {
        Place::Replace(ps[i]->0)
    } else if rs[i] is Some {
        Place::Replace(rs[i]->0)
    } else if only_between(ps, i) is Some {
        Place::Replace(only_between(ps, i)->0)
    } else {
        match placed_from(ps, rs, i + 1) {
            Some(next) => Place::Insert(next),
            None => Place::Nowhere,
        }
    }
}

/// How far the new file has been built.
pub ghost enum Progress {
    /// The new lines so far, and the number of file lines that they account for.
    Built(Seq<Seq<char>>, int),
    /// A line of the changes belongs nowhere.
    Unanchored(int),
    /// A line of the changes belongs before file lines that are already accounted for.
    Crossed(int),
}

/// The new file once a line stands in it. The line goes in before file line `upto`, and file lines up
/// to `next` are accounted for then. A file line that was accounted for last may become several lines.
pub open spec fn step(
    built: Seq<Seq<char>>,
    consumed: int,
    fs: Seq<Seq<char>>,
    line: Seq<char>,
    upto: int,
    next: int,
) -> Option<(Seq<Seq<char>>, int)> {
    if consumed <= upto {
        Some(((built + fs.subrange(consumed, upto)).push(line), next))
    } else if consumed == upto + 1 {
        Some((built.push(line), consumed))
    } else {
        None
    }
}

/// The new file after the first `n` lines of the changes.
pub open spec fn build(
    cs: Seq<Seq<char>>,
    fs: Seq<Seq<char>>,
    ps: Seq<Option<int>>,
    rs: Seq<Option<int>>,
    n: int,
) -> Progress
    decreases n,
{
    if n <= 0 {
        Progress::Built(Seq::empty(), 0)
    } else {
        match build(cs, fs, ps, rs, n - 1) {
            Progress::Built(built, consumed) => if placeholder(cs[n - 1]) {
                Progress::Built(built, consumed)
            } else {
                let put = match place(ps, rs, n - 1) {
                    Place::Replace(p) => Some(step(built, consumed, fs, cs[n - 1], p, p + 1)),
                    Place::Insert(p) => Some(step(built, consumed, fs, cs[n - 1], p, p)),
                    Place::Nowhere => None,
                };
                match put {
                    Some(Some((now, upto))) => Progress::Built(now, upto),
                    Some(None) => Progress::Crossed(n - 1),
                    None => Progress::Unanchored(n - 1),
                }
            },
            other => other,
        }
    }
}

/// Whether lines stand among others, in the same order.
pub open spec fn in_order(part: Seq<Seq<char>>, whole: Seq<Seq<char>>) -> bool
    decreases whole.len(),
{
    ||| part.len() == 0
    ||| whole.len() > 0 && part.last() == whole.last() && in_order(
        part.drop_last(),
        whole.drop_last(),
    )
    ||| whole.len() > 0 && in_order(part, whole.drop_last())
}

/// The first `n` lines of the changes without the placeholders.
pub open spec fn given_lines(cs: Seq<Seq<char>>, n: int) -> Seq<Seq<char>>
    decreases n,
{
    if n <= 0 {
        Seq::empty()
    } else if placeholder(cs[n - 1]) {
        given_lines(cs, n - 1)
    } else {
        given_lines(cs, n - 1).push(cs[n - 1])
    }
}

/// Lines that stand among others also stand among those with more behind them.
proof fn in_order_in_more(part: Seq<Seq<char>>, whole: Seq<Seq<char>>, more: Seq<Seq<char>>)
    requires
        in_order(part, whole),
    ensures
        in_order(part, whole + more),
    decreases more.len(),
{
    if more.len() == 0 {
        assert(whole + more =~= whole);
    } else {
        in_order_in_more(part, whole, more.drop_last());
        assert((whole + more).drop_last() =~= whole + more.drop_last());
    }
}

/// An edit that is made puts all lines of the changes but the placeholders into the new file, in their
/// order.
pub proof fn edits_keep_the_given_lines(
    cs: Seq<Seq<char>>,
    fs: Seq<Seq<char>>,
    ps: Seq<Option<int>>,
    rs: Seq<Option<int>>,
    n: int,
)
    ensures
        build(cs, fs, ps, rs, n) matches Progress::Built(built, consumed) ==> in_order(
            given_lines(cs, n),
            built + fs.skip(consumed),
        ),
{
    given_lines_are_built(cs, fs, ps, rs, n);
    if let Progress::Built(built, consumed) = build(cs, fs, ps, rs, n) {
        in_order_in_more(given_lines(cs, n), built, fs.skip(consumed));
    }
}

/// The lines of the changes but the placeholders stand in what has been built.
proof fn given_lines_are_built(
    cs: Seq<Seq<char>>,
    fs: Seq<Seq<char>>,
    ps: Seq<Option<int>>,
    rs: Seq<Option<int>>,
    n: int,
)
    ensures
        build(cs, fs, ps, rs, n) matches Progress::Built(built, _) ==> in_order(
            given_lines(cs, n),
            built,
        ),
    decreases n,
{
    if n > 0 {
        given_lines_are_built(cs, fs, ps, rs, n - 1);
        match (build(cs, fs, ps, rs, n - 1), build(cs, fs, ps, rs, n)) {
            (Progress::Built(before, consumed), Progress::Built(now, _)) => {
                if !placeholder(cs[n - 1]) {
                    let front = given_lines(cs, n - 1);
                    let line = cs[n - 1];
                    let upto = match place(ps, rs, n - 1) {
                        Place::Replace(p) => p,
                        Place::Insert(p) => p,
                        Place::Nowhere => 0,
                    };
                    in_order_in_more(front, before, fs.subrange(consumed, upto));
                    assert(front.push(line).drop_last() =~= front);
                    assert(now.drop_last() =~= before || now.drop_last() =~= before + fs.subrange(
                        consumed,
                        upto,
                    ));
                }
            },
            _ => {},
        }
    }
}

/// Whether a line of the changes is code: not blank, and no placeholder.
pub open spec fn is_code(line: Seq<char>) -> bool {
    !placeholder(line) && trim(line).len() > 0
}

/// Whether the first line of code in the changes has no anchor.
pub open spec fn first_unanchored(cs: Seq<Seq<char>>, ps: Seq<Option<int>>) -> bool {
    exists|i: int|
        0 <= i < cs.len() && is_code(#[trigger] cs[i]) && ps[i] is None && forall|k: int|
            0 <= k < i ==> !is_code(#[trigger] cs[k])
}

/// Whether the last line of code in the changes has no anchor.
pub open spec fn last_unanchored(cs: Seq<Seq<char>>, ps: Seq<Option<int>>) -> bool {
    exists|i: int|
        0 <= i < cs.len() && is_code(#[trigger] cs[i]) && ps[i] is None && forall|k: int|
            i < k < cs.len() ==> !is_code(#[trigger] cs[k])
}

/// What becomes of an edit.
pub ghost enum EditOutcome {
    /// The file's new contents.
    Edited(Seq<char>),
    /// Why the changes do not apply.
    Refused(Seq<char>),
}

/// Why changes do not apply, as far as the anchors tell.
pub open spec fn refused_at_once(cs: Seq<Seq<char>>, ps: Seq<Option<int>>) -> Option<Seq<char>> {
    if cs.len() == 0 {
        Some("changes must contain code to apply"@)
    } else if forall|i: int| 0 <= i < ps.len() ==> (#[trigger] ps[i]) is None {
        Some(
            "Could not apply the changes: none of the provided code matched the file contents. Read the file again and provide changes that match the current contents."@,
        )
    } else if first_unanchored(cs, ps) {
        Some(
            "Could not apply the changes: the first line of the changes does not match the file contents. Read the file again and provide changes that match its current contents."@,
        )
    } else if last_unanchored(cs, ps) {
        Some(
            "Could not apply the changes: the last line of the changes does not match the file contents. Read the file again and provide changes that match its current contents."@,
        )
    } else {
        None
    }
}

/// What becomes of a file with the lines `fs`, built from the changes `cs`.
pub open spec fn built_outcome(
    content: Seq<char>,
    cs: Seq<Seq<char>>,
    fs: Seq<Seq<char>>,
    ps: Seq<Option<int>>,
    rs: Seq<Option<int>>,
) -> EditOutcome {
    match build(cs, fs, ps, rs, cs.len() as int) {
        Progress::Built(built, consumed) => {
            let text = join(built + fs.skip(consumed), "\n"@) + if has_suffix(content, "\n"@) {
                "\n"@
            } else {
                Seq::empty()
            };
            if text == content {
                EditOutcome::Refused(
                    "The changes did not modify the file: the provided code already matches the file contents."@,
                )
            } else {
                EditOutcome::Edited(text)
            }
        },
        Progress::Unanchored(i) => EditOutcome::Refused(
            "Could not apply the changes: line "@ + decimal((i + 1) as nat)
                + " of the changes does not match the file contents and has no following anchor line. Read the file again and provide changes that match its current contents."@,
        ),
        Progress::Crossed(i) => EditOutcome::Refused(
            "Could not apply the changes: line "@ + decimal((i + 1) as nat)
                + " of the changes stands in another order than the file contents. Read the file again and provide changes that match its current contents."@,
        ),
    }
}

/// What becomes of the file with the given contents under the given changes, where `rs` says for each
/// line of the changes which file line it is a changed version of.
pub open spec fn outcome_with(
    content: Seq<char>,
    changes: Seq<char>,
    rs: Seq<Option<int>>,
) -> EditOutcome {
    let cs = lines(unfenced(changes));
    let fs = lines(content);
    let ps = anchors(cs, fs);
    match refused_at_once(cs, ps) {
        Some(why) => EditOutcome::Refused(why),
        None => built_outcome(content, cs, fs, ps, rs),
    }
}

/// What becomes of the file with the given contents under the given changes.
pub open spec fn edit_outcome(content: Seq<char>, changes: Seq<char>) -> EditOutcome {
    let cs = lines(unfenced(changes));
    let fs = lines(content);
    outcome_with(content, changes, replacements(cs, fs, anchors(cs, fs)))
}

/// Whether all file lines that are named stand in a file of `total` lines.
pub open spec fn stand_in(rs: Seq<Option<int>>, total: nat) -> bool {
    forall|i: int| 0 <= i < rs.len() ==> ((#[trigger] rs[i]) matches Some(j) ==> 0 <= j < total)
}

/// A file line as an integer.
pub open spec fn opt(v: Option<usize>) -> Option<int> {
    match v {
        Some(k) => Some(k as int),
        None => None,
    }
}

/// File lines as integers.
pub open spec fn opts(v: Seq<Option<usize>>) -> Seq<Option<int>> {
    Seq::new(v.len(), |i: int| opt(v[i]))
}

pub(crate) proof fn match_bounds(fs: Seq<Seq<char>>, line: Seq<char>, from: int)
    ensures
        match_from(fs, line, from) matches Some(k) ==> from <= k < fs.len(),
    decreases fs.len() - from,
{
    if 0 <= from < fs.len() && trim_end(fs[from]) != trim_end(line) {
        match_bounds(fs, line, from + 1);
    }
}

pub(crate) proof fn search_grows(cs: Seq<Seq<char>>, fs: Seq<Seq<char>>, i: int, k: int)
    requires
        0 <= i <= k,
    ensures
        0 <= search_from(cs, fs, i) <= search_from(cs, fs, k),
        search_from(cs, fs, k) <= fs.len(),
    decreases k,
{
    if k > 0 {
        match_bounds(fs, cs[k - 1], search_from(cs, fs, k - 1));
        search_grows(cs, fs, if i < k { i } else { k - 1 }, k - 1);
    }
}

/// Anchors follow each other in the file as they do in the changes.
pub proof fn anchors_increase(cs: Seq<Seq<char>>, fs: Seq<Seq<char>>, i: int, k: int)
    requires
        0 <= i < k < cs.len(),
        anchors(cs, fs)[i] is Some,
        anchors(cs, fs)[k] is Some,
    ensures
        0 <= anchors(cs, fs)[i]->0 < anchors(cs, fs)[k]->0 < fs.len(),
{
    search_grows(cs, fs, i + 1, k);
    search_grows(cs, fs, i, i);
    match_bounds(fs, cs[i], search_from(cs, fs, i));
    match_bounds(fs, cs[k], search_from(cs, fs, k));
}

pub(crate) proof fn anchor_bounds(cs: Seq<Seq<char>>, fs: Seq<Seq<char>>, i: int)
    requires
        0 <= i < cs.len(),
    ensures
        anchors(cs, fs)[i] matches Some(k) ==> 0 <= k < fs.len(),
{
    search_grows(cs, fs, i, i);
    match_bounds(fs, cs[i], search_from(cs, fs, i));
}

proof fn last_some_stands(ps: Seq<Option<int>>)
    ensures
        last_some(ps) is Some ==> exists|k: int| 0 <= k < ps.len() && #[trigger] ps[k] == last_some(ps),
    decreases ps.len(),
{
    if ps.len() > 0 && ps.last() is None {
        last_some_stands(ps.drop_last());
        if last_some(ps) is Some {
            let k = choose|k: int|
                0 <= k < ps.drop_last().len() && #[trigger] ps.drop_last()[k] == last_some(
                    ps.drop_last(),
                );
            assert(ps[k] == last_some(ps));
        }
    } else if ps.len() > 0 {
        assert(ps[ps.len() - 1] == last_some(ps));
    }
}

proof fn first_some_stands(ps: Seq<Option<int>>)
    ensures
        first_some(ps) is Some ==> exists|k: int|
            0 <= k < ps.len() && #[trigger] ps[k] == first_some(ps),
    decreases ps.len(),
{
    if ps.len() > 0 && ps[0] is None {
        first_some_stands(ps.drop_first());
        if first_some(ps) is Some {
            let k = choose|k: int|
                0 <= k < ps.drop_first().len() && #[trigger] ps.drop_first()[k] == first_some(
                    ps.drop_first(),
                );
            assert(ps[k + 1] == first_some(ps));
        }
    }
}

/// The anchors around a line of the changes stand in the file, the one before it first.
pub(crate) proof fn around(cs: Seq<Seq<char>>, fs: Seq<Seq<char>>, i: int)
    requires
        0 <= i < cs.len(),
    ensures
        anchor_before(anchors(cs, fs), i) matches Some(p) ==> 0 <= p < fs.len(),
        anchor_after(anchors(cs, fs), i) matches Some(q) ==> 0 <= q < fs.len(),
        anchor_before(anchors(cs, fs), i) is Some && anchor_after(anchors(cs, fs), i) is Some ==> (
        anchor_before(anchors(cs, fs), i)->0 < anchor_after(anchors(cs, fs), i)->0),
{
    let ps = anchors(cs, fs);
    let head = ps.take(i);
    let tail = ps.skip(i + 1);
    last_some_stands(head);
    first_some_stands(tail);
    if last_some(head) is Some {
        let a = choose|a: int| 0 <= a < head.len() && #[trigger] head[a] == last_some(head);
        assert(ps[a] == last_some(head));
        anchor_bounds(cs, fs, a);
        if first_some(tail) is Some {
            let b = choose|b: int| 0 <= b < tail.len() && #[trigger] tail[b] == first_some(tail);
            assert(ps[b + i + 1] == first_some(tail));
            anchors_increase(cs, fs, a, b + i + 1);
        }
    }
    if first_some(tail) is Some {
        let b = choose|b: int| 0 <= b < tail.len() && #[trigger] tail[b] == first_some(tail);
        assert(ps[b + i + 1] == first_some(tail));
        anchor_bounds(cs, fs, b + i + 1);
    }
}

proof fn most_similar_bounds(
    line: Seq<char>,
    fs: Seq<Seq<char>>,
    ps: Seq<Option<int>>,
    start: int,
    end: int,
)
    ensures
        most_similar(line, fs, ps, start, end) matches Some((j, sim)) ==> start <= j < end,
    decreases end - start,
{
    if start < end {
        most_similar_bounds(line, fs, ps, start, end - 1);
    }
}

pub(crate) proof fn replacement_bounds(cs: Seq<Seq<char>>, fs: Seq<Seq<char>>, i: int)
    requires
        0 <= i < cs.len(),
    ensures
        replacements(cs, fs, anchors(cs, fs))[i] matches Some(j) ==> 0 <= j < fs.len(),
{
    let ps = anchors(cs, fs);
    around(cs, fs, i);
    let start = match anchor_before(ps, i) {
        Some(p) => p + 1,
        None => 0,
    };
    let end = match anchor_after(ps, i) {
        Some(p) => p,
        None => fs.len() as int,
    };
    most_similar_bounds(cs[i], fs, ps, start, end);
}

/// The first line from `from` on that equals `line` but for white space at the end.
fn matching_line(fs: &Vec<Vec<char>>, line: &[char], from: usize) -> (r: Option<usize>)
    ensures
        opt(r) == match_from(rows(fs@), line@, from as int),
{
    let wanted = text::trimmed_end(line);
    let mut k: usize = from;
    while k < fs.len()
        invariant
            wanted@ == trim_end(line@),
            match_from(rows(fs@), line@, from as int) == match_from(rows(fs@), line@, k as int),
        decreases fs@.len() - k,
    {
        assert(rows(fs@)[k as int] == fs@[k as int]@);
        if text::same_chars(text::trimmed_end(fs[k].as_slice()).as_slice(), wanted.as_slice()) {
            return Some(k);
        }
        k += 1;
    }
    None
}

/// For each line of the changes the file line that anchors it.
fn find_anchors(cs: &Vec<Vec<char>>, fs: &Vec<Vec<char>>) -> (r: Vec<Option<usize>>)
    ensures
        opts(r@) == anchors(rows(cs@), rows(fs@)),
        r@.len() == cs@.len(),
{
    let ghost c = rows(cs@);
    let ghost f = rows(fs@);
    let total: usize = fs.len();
    let mut out: Vec<Option<usize>> = Vec::new();
    let mut from: usize = 0;
    let mut i: usize = 0;
    while i < cs.len()
        invariant
            c == rows(cs@),
            f == rows(fs@),
            total == f.len(),
            i <= cs@.len(),
            from == search_from(c, f, i as int),
            out@.len() == i,
            opts(out@) == anchors(c, f).take(i as int),
        decreases cs@.len() - i,
    {
        assert(c[i as int] == cs@[i as int]@);
        proof {
            match_bounds(f, c[i as int], from as int);
        }
        let ghost before = opts(out@);
        let found = if placeholder_line(cs[i].as_slice()) {
            None
        } else {
            matching_line(fs, cs[i].as_slice(), from)
        };
        out.push(found);
        proof {
            assert(opts(out@) =~= before.push(opt(found)));
            assert(anchors(c, f).take(i + 1) =~= anchors(c, f).take(i as int).push(
                anchors(c, f)[i as int],
            ));
        }
        if let Some(k) = found {
            from = k + 1;
        }
        i += 1;
    }
    assert(anchors(c, f).take(i as int) =~= anchors(c, f));
    out
}

/// The last entry before `i` that holds a line.
fn some_before(ps: &Vec<Option<usize>>, i: usize) -> (r: Option<usize>)
    requires
        i <= ps@.len(),
    ensures
        opt(r) == anchor_before(opts(ps@), i as int),
{
    let ghost all = opts(ps@);
    let mut k: usize = i;
    while k > 0
        invariant
            k <= i <= ps@.len(),
            all == opts(ps@),
            last_some(all.take(i as int)) == last_some(all.take(k as int)),
        decreases k,
    {
        assert(all.take(k as int).drop_last() =~= all.take(k - 1));
        assert(all.take(k as int).last() == opt(ps@[k - 1]));
        if ps[k - 1].is_some() {
            return ps[k - 1];
        }
        k -= 1;
    }
    None
}

/// The first entry from `i` on that holds a line.
fn some_from(ps: &Vec<Option<usize>>, i: usize) -> (r: Option<usize>)
    requires
        i <= ps@.len(),
    ensures
        opt(r) == first_some(opts(ps@).skip(i as int)),
{
    let ghost all = opts(ps@);
    let mut k: usize = i;
    while k < ps.len()
        invariant
            i <= k <= ps@.len(),
            all == opts(ps@),
            first_some(all.skip(i as int)) == first_some(all.skip(k as int)),
        decreases ps@.len() - k,
    {
        assert(all.skip(k as int).drop_first() =~= all.skip(k + 1));
        assert(all.skip(k as int)[0] == opt(ps@[k as int]));
        if ps[k].is_some() {
            return ps[k];
        }
        k += 1;
    }
    None
}

/// Whether a file line anchors a line of the changes.
fn is_anchor(ps: &Vec<Option<usize>>, j: usize) -> (r: bool)
    ensures
        r == opts(ps@).contains(Some(j as int)),
{
    let mut k: usize = 0;
    while k < ps.len()
        invariant
            k <= ps@.len(),
            forall|x: int| 0 <= x < k ==> #[trigger] opts(ps@)[x] != Some(j as int),
        decreases ps@.len() - k,
    {
        if let Some(p) = ps[k] {
            if p == j {
                assert(opts(ps@)[k as int] == Some(j as int));
                return true;
            }
        }
        assert(opts(ps@)[k as int] != Some(j as int));
        k += 1;
    }
    false
}

/// The closer of two lines: the best so far, with its similarity, unless the next is more similar.
pub fn closer(best: Option<(usize, u64)>, next: usize, similarity: u64) -> (r: Option<(usize, u64)>)
    ensures
        r == if best matches Some((_, most)) && similarity <= most {
            best
        } else {
            Some((next, similarity))
        },
{
    match best {
        Some((_, most)) => if similarity > most {
            Some((next, similarity))
        } else {
            best
        },
        None => Some((next, similarity)),
    }
}

/// The best line, if it is similar enough to be taken for an older version.
pub fn close_enough(best: Option<(usize, u64)>) -> (r: Option<usize>)
    ensures
        r == match best {
            Some((line, most)) => if most >= SIMILAR {
                Some(line)
            } else {
                None
            },
            None => None::<usize>,
        },
{
    match best {
        Some((line, most)) => if most >= SIMILAR {
            Some(line)
        } else {
            None
        },
        None => None,
    }
}

/// The most similar of the file lines from `start` to `end` that anchor nothing.
fn find_similar(
    line: &[char],
    fs: &Vec<Vec<char>>,
    ps: &Vec<Option<usize>>,
    start: usize,
    end: usize,
) -> (r: Option<(usize, u64)>)
    requires
        start <= end <= fs@.len(),
    ensures
        match r {
            Some((j, sim)) => most_similar(
                line@,
                rows(fs@),
                opts(ps@),
                start as int,
                end as int,
            ) == Some((j as int, sim)),
            None => most_similar(line@, rows(fs@), opts(ps@), start as int, end as int) is None,
        },
{
    let wanted = text::string_of(text::trimmed_end(line).as_slice());
    let mut best: Option<(usize, u64)> = None;
    let mut j: usize = start;
    while j < end
        invariant
            start <= j <= end <= fs@.len(),
            wanted@ == trim_end(line@),
            match best {
                Some((k, sim)) => most_similar(
                    line@,
                    rows(fs@),
                    opts(ps@),
                    start as int,
                    j as int,
                ) == Some((k as int, sim)),
                None => most_similar(line@, rows(fs@), opts(ps@), start as int, j as int) is None,
            },
        decreases end - j,
    {
        assert(rows(fs@)[j as int] == fs@[j as int]@);
        if !is_anchor(ps, j) {
            let other = text::string_of(text::trimmed_end(fs[j].as_slice()).as_slice());
            let sim: u64 = similarity_of(wanted.as_str(), other.as_str());
            best = closer(best, j, sim);
        }
        j += 1;
    }
    best
}

/// For each line of the changes the file line that it is a changed version of.
fn find_replacements(cs: &Vec<Vec<char>>, fs: &Vec<Vec<char>>, ps: &Vec<Option<usize>>) -> (r: Vec<
    Option<usize>,
>)
    requires
        opts(ps@) == anchors(rows(cs@), rows(fs@)),
        ps@.len() == cs@.len(),
    ensures
        opts(r@) == replacements(rows(cs@), rows(fs@), opts(ps@)),
        r@.len() == cs@.len(),
        stand_in(opts(r@), fs@.len()),
{
    let ghost c = rows(cs@);
    let ghost f = rows(fs@);
    let ghost all = replacements(c, f, opts(ps@));
    let total: usize = fs.len();
    let mut out: Vec<Option<usize>> = Vec::new();
    let mut i: usize = 0;
    while i < cs.len()
        invariant
            c == rows(cs@),
            f == rows(fs@),
            total == f.len(),
            opts(ps@) == anchors(c, f),
            ps@.len() == cs@.len(),
            all == replacements(c, f, opts(ps@)),
            i <= cs@.len(),
            out@.len() == i,
            opts(out@) == all.take(i as int),
        decreases cs@.len() - i,
    {
        assert(c[i as int] == cs@[i as int]@);
        assert(opts(ps@)[i as int] == opt(ps@[i as int]));
        proof {
            around(c, f, i as int);
        }
        let ghost before = opts(out@);
        let found: Option<usize> = if ps[i].is_some() || placeholder_line(cs[i].as_slice()) {
            None
        } else {
            let start: usize = match some_before(ps, i) {
                Some(p) => p + 1,
                None => 0,
            };
            let end: usize = match some_from(ps, i + 1) {
                Some(p) => p,
                None => fs.len(),
            };
            close_enough(find_similar(cs[i].as_slice(), fs, ps, start, end))
        };
        assert(opt(found) == all[i as int]);
        out.push(found);
        proof {
            assert(opts(out@) =~= before.push(opt(found)));
            assert(all.take(i + 1) =~= all.take(i as int).push(all[i as int]));
        }
        i += 1;
    }
    assert(all.take(i as int) =~= all);
    assert forall|k: int| 0 <= k < opts(out@).len() implies ((#[trigger] opts(out@)[k]) matches Some(
        j,
    ) ==> 0 <= j < fs@.len()) by {
        replacement_bounds(c, f, k);
    }
    out
}

/// The one file line between the anchors around line `idx` of the changes, if there is exactly one.
pub fn unique_interval_target(positions: &Vec<Option<usize>>, idx: usize) -> (r: Option<usize>)
    requires
        idx < positions@.len(),
    ensures
        opt(r) == only_between(opts(positions@), idx as int),
{
    let count: usize = positions.len();
    assert(idx < count);
    match (some_before(positions, idx), some_from(positions, idx + 1)) {
        (Some(before), Some(after)) => if after >= before && after - before == 2 {
            Some(before + 1)
        } else {
            None
        },
        _ => None,
    }
}

/// Whether a line of the changes is code.
fn code_line(line: &[char]) -> (r: bool)
    ensures
        r == is_code(line@),
{
    !placeholder_line(line) && text::trimmed(line).len() > 0
}

/// Whether the first line of code in the changes has no anchor.
fn lacks_first(cs: &Vec<Vec<char>>, ps: &Vec<Option<usize>>) -> (r: bool)
    requires
        ps@.len() == cs@.len(),
    ensures
        r == first_unanchored(rows(cs@), opts(ps@)),
{
    let ghost c = rows(cs@);
    let mut i: usize = 0;
    while i < cs.len()
        invariant
            i <= cs@.len(),
            ps@.len() == cs@.len(),
            c == rows(cs@),
            forall|k: int| 0 <= k < i ==> !is_code(#[trigger] c[k]),
        decreases cs@.len() - i,
    {
        assert(c[i as int] == cs@[i as int]@);
        assert(opts(ps@)[i as int] == opt(ps@[i as int]));
        if code_line(cs[i].as_slice()) {
            if ps[i].is_none() {
                assert(is_code(c[i as int]));
                return true;
            }
            assert forall|j: int|
                0 <= j < c.len() && is_code(#[trigger] c[j]) && opts(ps@)[j] is None implies exists|
                k: int,
            | 0 <= k < j && is_code(#[trigger] c[k]) by {
                if j < i {
                } else {
                    assert(is_code(c[i as int]));
                }
            }
            return false;
        }
        i += 1;
    }
    false
}

/// Whether the last line of code in the changes has no anchor.
fn lacks_last(cs: &Vec<Vec<char>>, ps: &Vec<Option<usize>>) -> (r: bool)
    requires
        ps@.len() == cs@.len(),
    ensures
        r == last_unanchored(rows(cs@), opts(ps@)),
{
    let ghost c = rows(cs@);
    let mut i: usize = cs.len();
    while i > 0
        invariant
            i <= cs@.len(),
            ps@.len() == cs@.len(),
            c == rows(cs@),
            forall|k: int| i <= k < c.len() ==> !is_code(#[trigger] c[k]),
        decreases i,
    {
        i -= 1;
        assert(c[i as int] == cs@[i as int]@);
        assert(opts(ps@)[i as int] == opt(ps@[i as int]));
        if code_line(cs[i].as_slice()) {
            if ps[i].is_none() {
                assert(is_code(c[i as int]));
                return true;
            }
            assert forall|j: int|
                0 <= j < c.len() && is_code(#[trigger] c[j]) && opts(ps@)[j] is None implies exists|
                k: int,
            | j < k < c.len() && is_code(#[trigger] c[k]) by {
                assert(is_code(c[i as int]));
            }
            return false;
        }
    }
    false
}

/// Whether no line of the changes has an anchor.
fn lacks_all(ps: &Vec<Option<usize>>) -> (r: bool)
    ensures
        r == (forall|i: int| 0 <= i < ps@.len() ==> (#[trigger] opts(ps@)[i]) is None),
{
    let mut i: usize = 0;
    while i < ps.len()
        invariant
            i <= ps@.len(),
            forall|k: int| 0 <= k < i ==> (#[trigger] opts(ps@)[k]) is None,
        decreases ps@.len() - i,
    {
        assert(opts(ps@)[i as int] == opt(ps@[i as int]));
        if ps[i].is_some() {
            return false;
        }
        i += 1;
    }
    true
}

/// What becomes of a line of the changes.
enum Target {
    Replace(usize),
    Insert(usize),
    Nowhere,
}

/// What becomes of line `i` of the changes.
fn target_of(ps: &Vec<Option<usize>>, rs: &Vec<Option<usize>>, i: usize) -> (r: Target)
    requires
        i < ps@.len(),
        ps@.len() == rs@.len(),
    ensures
        place(opts(ps@), opts(rs@), i as int) == match r {
            Target::Replace(p) => Place::Replace(p as int),
            Target::Insert(n) => Place::Insert(n as int),
            Target::Nowhere => Place::Nowhere,
        },
{
    let count: usize = ps.len();
    let ghost a = opts(ps@);
    let ghost b = opts(rs@);
    assert(a[i as int] == opt(ps@[i as int]) && b[i as int] == opt(rs@[i as int]));
    if let Some(p) = ps[i] {
        return Target::Replace(p);
    }
    if let Some(p) = rs[i] {
        return Target::Replace(p);
    }
    if let Some(p) = unique_interval_target(ps, i) {
        return Target::Replace(p);
    }
    assert(i < count);
    match placed_after(ps, rs, i + 1) {
        Some(next) => Target::Insert(next),
        None => Target::Nowhere,
    }
}

/// The file line of the first line of the changes, from line `from` on, that has one.
fn placed_after(ps: &Vec<Option<usize>>, rs: &Vec<Option<usize>>, from: usize) -> (r: Option<usize>)
    requires
        from <= ps@.len(),
        ps@.len() == rs@.len(),
    ensures
        opt(r) == placed_from(opts(ps@), opts(rs@), from as int),
{
    let ghost a = opts(ps@);
    let ghost b = opts(rs@);
    let mut i: usize = from;
    while i < ps.len()
        invariant
            i <= ps@.len(),
            ps@.len() == rs@.len(),
            a == opts(ps@),
            b == opts(rs@),
            placed_from(a, b, from as int) == placed_from(a, b, i as int),
        decreases ps@.len() - i,
    {
        assert(a[i as int] == opt(ps@[i as int]) && b[i as int] == opt(rs@[i as int]));
        if ps[i].is_some() {
            return ps[i];
        }
        if rs[i].is_some() {
            return rs[i];
        }
        i += 1;
    }
    None
}

/// The file line of the first line of the changes that has one stands in the file.
proof fn placed_stands(cs: Seq<Seq<char>>, fs: Seq<Seq<char>>, rs: Seq<Option<int>>, i: int)
    requires
        0 <= i <= cs.len(),
        rs.len() == cs.len(),
        stand_in(rs, fs.len()),
    ensures
        placed_from(anchors(cs, fs), rs, i) matches Some(p) ==> 0 <= p < fs.len(),
    decreases cs.len() - i,
{
    if i < cs.len() {
        assert(rs[i] == rs[i]);
        anchor_bounds(cs, fs, i);
        placed_stands(cs, fs, rs, i + 1);
    }
}

/// The file lines that a line of the changes refers to stand in the file.
pub(crate) proof fn place_bounds(cs: Seq<Seq<char>>, fs: Seq<Seq<char>>, rs: Seq<Option<int>>, i: int)
    requires
        0 <= i < cs.len(),
        rs.len() == cs.len(),
        stand_in(rs, fs.len()),
    ensures
        match place(anchors(cs, fs), rs, i) {
            Place::Replace(p) => 0 <= p < fs.len(),
            Place::Insert(p) => 0 <= p < fs.len(),
            Place::Nowhere => true,
        },
{
    let ps = anchors(cs, fs);
    assert(rs[i] == rs[i]);
    anchor_bounds(cs, fs, i);
    around(cs, fs, i);
    placed_stands(cs, fs, rs, i + 1);
}

/// Appends copies of the file lines from `from` to `to`.
fn copy_lines(out: &mut Vec<Vec<char>>, fs: &Vec<Vec<char>>, from: usize, to: usize)
    requires
        from <= to <= fs@.len(),
    ensures
        rows(final(out)@) == rows(old(out)@) + rows(fs@).subrange(from as int, to as int),
{
    let ghost before = rows(out@);
    let ghost all = rows(fs@);
    let mut i: usize = from;
    assert(before + all.subrange(from as int, from as int) =~= before);
    while i < to
        invariant
            from <= i <= to <= fs@.len(),
            all == rows(fs@),
            rows(out@) == before + all.subrange(from as int, i as int),
        decreases to - i,
    {
        let ghost now = rows(out@);
        let line = text::part(fs[i].as_slice(), 0, fs[i].len());
        assert(line@ =~= fs@[i as int]@);
        out.push(line);
        assert(rows(out@) =~= now.push(all[i as int]));
        assert(before + all.subrange(from as int, i + 1) =~= now.push(all[i as int]));
        i += 1;
    }
}

/// How far the new file has been built.
enum Built {
    Lines(Vec<Vec<char>>, usize),
    Unanchored(usize),
    Crossed(usize),
}

/// The new file after all lines of the changes.
fn build_lines(
    cs: &Vec<Vec<char>>,
    fs: &Vec<Vec<char>>,
    ps: &Vec<Option<usize>>,
    rs: &Vec<Option<usize>>,
) -> (r: Built)
    requires
        opts(ps@) == anchors(rows(cs@), rows(fs@)),
        stand_in(opts(rs@), fs@.len()),
        ps@.len() == cs@.len(),
        rs@.len() == cs@.len(),
    ensures
        build(rows(cs@), rows(fs@), opts(ps@), opts(rs@), cs@.len() as int) == match r {
            Built::Lines(built, consumed) => Progress::Built(rows(built@), consumed as int),
            Built::Unanchored(i) => Progress::Unanchored(i as int),
            Built::Crossed(i) => Progress::Crossed(i as int),
        },
        r matches Built::Lines(built, consumed) ==> consumed <= fs@.len(),
        r matches Built::Unanchored(i) ==> i < cs@.len(),
        r matches Built::Crossed(i) ==> i < cs@.len(),
{
    let ghost c = rows(cs@);
    let ghost f = rows(fs@);
    let ghost p = opts(ps@);
    let ghost q = opts(rs@);
    let total: usize = fs.len();
    let mut out: Vec<Vec<char>> = Vec::new();
    let mut consumed: usize = 0;
    let mut i: usize = 0;
    assert(rows(out@) =~= Seq::empty());
    while i < cs.len()
        invariant
            c == rows(cs@),
            f == rows(fs@),
            p == opts(ps@),
            q == opts(rs@),
            p == anchors(c, f),
            stand_in(q, f.len()),
            ps@.len() == cs@.len(),
            rs@.len() == cs@.len(),
            total == f.len(),
            i <= cs@.len(),
            consumed <= total,
            build(c, f, p, q, i as int) == Progress::Built(rows(out@), consumed as int),
        decreases cs@.len() - i,
    {
        assert(c[i as int] == cs@[i as int]@);
        let ghost so_far = rows(out@);
        proof {
            place_bounds(c, f, q, i as int);
        }
        if !placeholder_line(cs[i].as_slice()) {
            let (upto, next) = match target_of(ps, rs, i) {
                Target::Replace(at) => (at, at + 1),
                Target::Insert(at) => (at, at),
                Target::Nowhere => {
                    proof {
                        build_stops(c, f, p, q, i + 1, c.len() as int);
                    }
                    return Built::Unanchored(i);
                },
            };
            if upto < consumed && consumed - upto > 1 {
                proof {
                    build_stops(c, f, p, q, i + 1, c.len() as int);
                }
                return Built::Crossed(i);
            }
            if consumed <= upto {
                copy_lines(&mut out, fs, consumed, upto);
                consumed = next;
            }
            let ghost copied = rows(out@);
            let line = text::part(cs[i].as_slice(), 0, cs[i].len());
            assert(line@ =~= c[i as int]);
            out.push(line);
            assert(rows(out@) =~= copied.push(c[i as int]));
        }
        i += 1;
    }
    Built::Lines(out, consumed)
}

/// Once the building has stopped, no further line changes the outcome.
proof fn build_stops(
    cs: Seq<Seq<char>>,
    fs: Seq<Seq<char>>,
    ps: Seq<Option<int>>,
    rs: Seq<Option<int>>,
    n: int,
    m: int,
)
    requires
        0 <= n <= m,
        !(build(cs, fs, ps, rs, n) is Built),
    ensures
        build(cs, fs, ps, rs, m) == build(cs, fs, ps, rs, n),
    decreases m - n,
{
    if n < m {
        build_stops(cs, fs, ps, rs, n, m - 1);
    }
}

/// Why changes do not apply, as far as the anchors tell.
fn refusal(cs: &Vec<Vec<char>>, ps: &Vec<Option<usize>>) -> (r: Option<String>)
    requires
        ps@.len() == cs@.len(),
    ensures
        opt_text(r) == refused_at_once(rows(cs@), opts(ps@)),
{
    assert(rows(cs@).len() == cs@.len() && opts(ps@).len() == ps@.len());
    if cs.len() == 0 {
        return Some("changes must contain code to apply".to_owned());
    }
    if lacks_all(ps) {
        return Some(
            "Could not apply the changes: none of the provided code matched the file contents. Read the file again and provide changes that match the current contents.".to_owned(),
        );
    }
    if lacks_first(cs, ps) {
        return Some(
            "Could not apply the changes: the first line of the changes does not match the file contents. Read the file again and provide changes that match its current contents.".to_owned(),
        );
    }
    if lacks_last(cs, ps) {
        return Some(
            "Could not apply the changes: the last line of the changes does not match the file contents. Read the file again and provide changes that match its current contents.".to_owned(),
        );
    }
    None
}

/// What an edit gives: the new contents, or the reason why the changes do not apply.
pub open spec fn is_outcome(r: Result<String, String>, outcome: EditOutcome) -> bool {
    match outcome {
        EditOutcome::Edited(text) => r matches Ok(new) && new@ == text,
        EditOutcome::Refused(why) => r matches Err(message) && message@ == why,
    }
}

/// The reason that is given for line `i` of the changes.
fn line_refusal(i: usize, reason: &str) -> (r: String)
    requires
        i < usize::MAX,
    ensures
        r@ == "Could not apply the changes: line "@ + decimal((i + 1) as nat) + reason@,
{
    let mut message = text::glue(
        "Could not apply the changes: line ",
        text::number_text(i as u64 + 1).as_str(),
    );
    message.append(reason);
    message
}

/// Builds the new contents from changes that are not refused.
fn finish_edit(
    content: &Vec<char>,
    cs: &Vec<Vec<char>>,
    fs: &Vec<Vec<char>>,
    ps: &Vec<Option<usize>>,
    rs: &Vec<Option<usize>>,
) -> (r: Result<String, String>)
    requires
        rows(fs@) == lines(content@),
        opts(ps@) == anchors(rows(cs@), rows(fs@)),
        stand_in(opts(rs@), fs@.len()),
        ps@.len() == cs@.len(),
        rs@.len() == cs@.len(),
    ensures
        is_outcome(
            r,
            built_outcome(content@, rows(cs@), lines(content@), opts(ps@), opts(rs@)),
        ),
{
    let ghost f = rows(fs@);
    assert(f.len() == fs@.len() && rows(cs@).len() == cs@.len());
    match build_lines(cs, fs, ps, rs) {
        Built::Lines(built, consumed) => {
            let mut out = built;
            copy_lines(&mut out, fs, consumed, fs.len());
            assert(f.subrange(consumed as int, f.len() as int) =~= f.skip(consumed as int));
            let mut joined = text::joined(&out, text::chars_of("\n").as_slice());
            let ghost body = joined@;
            if text::ends_with(content.as_slice(), "\n") {
                text::push_str(&mut joined, "\n");
            } else {
                assert(body + Seq::<char>::empty() =~= body);
            }
            if text::same_chars(joined.as_slice(), content.as_slice()) {
                return Err(
                    "The changes did not modify the file: the provided code already matches the file contents.".to_owned(),
                );
            }
            Ok(text::string_of(joined.as_slice()))
        },
        Built::Unanchored(i) => {
            assert(i < cs.len());
            Err(
                line_refusal(
                    i,
                    " of the changes does not match the file contents and has no following anchor line. Read the file again and provide changes that match its current contents.",
                ),
            )
        },
        Built::Crossed(i) => {
            assert(i < cs.len());
            Err(
                line_refusal(
                    i,
                    " of the changes stands in another order than the file contents. Read the file again and provide changes that match its current contents.",
                ),
            )
        },
    }
}

/// Applies changes to the contents of a file, where `similar` says for each line of the changes which
/// file line it is a changed version of.
pub fn edit_with(content: &str, changes: &str, similar: &Vec<Option<usize>>) -> (r: Result<
    String,
    String,
>)
    requires
        similar@.len() == lines(unfenced(changes@)).len(),
        stand_in(opts(similar@), lines(content@).len()),
    ensures
        is_outcome(r, outcome_with(content@, changes@, opts(similar@))),
{
    let chars = text::chars_of(content);
    let cs = text::lines_of(strip_codeblock(text::chars_of(changes).as_slice()).as_slice());
    let fs = text::lines_of(chars.as_slice());
    assert(rows(cs@).len() == cs@.len() && rows(fs@).len() == fs@.len());
    let ps = find_anchors(&cs, &fs);
    match refusal(&cs, &ps) {
        Some(why) => Err(why),
        None => finish_edit(&chars, &cs, &fs, &ps, similar),
    }
}

/// Applies changes to the contents of a file. The result is the new contents, or the reason why the
/// changes do not apply.
pub fn edit_existing_file(content: &str, changes: &str) -> (r: Result<String, String>)
    ensures
        is_outcome(r, edit_outcome(content@, changes@)),
{
    let chars = text::chars_of(content);
    let cs = text::lines_of(strip_codeblock(text::chars_of(changes).as_slice()).as_slice());
    let fs = text::lines_of(chars.as_slice());
    assert(rows(cs@).len() == cs@.len() && rows(fs@).len() == fs@.len());
    let ps = find_anchors(&cs, &fs);
    match refusal(&cs, &ps) {
        Some(why) => Err(why),
        None => {
            let rs = find_replacements(&cs, &fs, &ps);
            finish_edit(&chars, &cs, &fs, &ps, &rs)
        },
    }
}

// ---------------------------------------------------------------------------------------------
// Find and replace
// ---------------------------------------------------------------------------------------------
/// The reply to an edit that was made.
pub open spec fn edited_text(filepath: Seq<char>, content: Seq<char>, new: Seq<char>) -> Seq<char> {
    "Edited "@ + filepath + "\n"@ + diff_text(content, new)
}

/// The reply to an edit that was made: the file and what changed in it.
pub fn edited_message(filepath: &str, content: &str, new: &str) -> (r: String)
    ensures
        r@ == edited_text(filepath@, content@, new@),
{
    let mut out = text::glue3("Edited ", filepath, "\n");
    out.append(diff::unified_diff(content, new).as_str());
    out
}

/// Why a request to replace one text by another makes no sense, whatever the file holds.
pub open spec fn replacement_refusal(old_string: Seq<char>, new_string: Seq<char>) -> Option<
    Seq<char>,
> {
    if old_string.len() == 0 {
        Some("old_string must not be empty"@)
    } else if old_string == new_string {
        Some("new_string MUST be different from old_string"@)
    } else {
        None
    }
}

/// The contents of a file after one text in it is replaced by another, or why it is not.
pub open spec fn replace_outcome(
    filepath: Seq<char>,
    content: Seq<char>,
    old_string: Seq<char>,
    new_string: Seq<char>,
    replace_all: bool,
) -> Result<Seq<char>, Seq<char>> {
    let count = count_of(content, old_string);
    if replacement_refusal(old_string, new_string) is Some {
        Err(replacement_refusal(old_string, new_string)->0)
    } else if count == 0 {
        Err(
            "old_string not found in "@ + filepath
                + ". Read the file and provide an exact match."@,
        )
    } else if count > 1 && !replace_all {
        Err(
            "old_string is not unique in the file (appears "@ + decimal(count)
                + " times). Provide a larger string with more surrounding context or use replace_all."@,
        )
    } else if replace_all {
        Ok(replaced(content, old_string, new_string))
    } else {
        let at = find_from(content, old_string, 0)->0;
        Ok(content.take(at) + new_string + content.skip(at + old_string.len()))
    }
}

/// Why a request to replace one text by another makes no sense, whatever the file holds.
pub fn check_replacement(old_string: &str, new_string: &str) -> (r: Result<(), String>)
    ensures
        match replacement_refusal(old_string@, new_string@) {
            Some(why) => r matches Err(message) && message@ == why,
            None => r is Ok,
        },
{
    if old_string.is_empty() {
        Err("old_string must not be empty".to_owned())
    } else if text::same(old_string, new_string) {
        Err("new_string MUST be different from old_string".to_owned())
    } else {
        Ok(())
    }
}

/// Replaces `old_string` by `new_string` in the contents of a file: everywhere, or where it occurs if
/// that is one place.
pub fn single_find_and_replace(
    filepath: &str,
    content: &str,
    old_string: &str,
    new_string: &str,
    replace_all: bool,
) -> (r: Result<String, String>)
    ensures
        match replace_outcome(filepath@, content@, old_string@, new_string@, replace_all) {
            Ok(text) => r matches Ok(new) && new@ == text,
            Err(why) => r matches Err(message) && message@ == why,
        },
{
    match check_replacement(old_string, new_string) {
        Err(message) => {
            return Err(message);
        },
        Ok(()) => {},
    }
    let chars = text::chars_of(content);
    let old_chars = text::chars_of(old_string);
    let new_chars = text::chars_of(new_string);
    let count: usize = text::count(chars.as_slice(), old_chars.as_slice());
    if count == 0 {
        return Err(
            text::glue3(
                "old_string not found in ",
                filepath,
                ". Read the file and provide an exact match.",
            ),
        );
    }
    if count > 1 && !replace_all {
        return Err(
            text::glue3(
                "old_string is not unique in the file (appears ",
                text::number_text(count as u64).as_str(),
                " times). Provide a larger string with more surrounding context or use replace_all.",
            ),
        );
    }
    if replace_all {
        let new = text::replace(chars.as_slice(), old_chars.as_slice(), new_chars.as_slice());
        return Ok(text::string_of(new.as_slice()));
    }
    match text::find(chars.as_slice(), old_chars.as_slice(), 0) {
        Some(at) => {
            let mut new = text::part(chars.as_slice(), 0, at);
            text::push_all(&mut new, new_chars.as_slice());
            let total: usize = chars.len();
            assert(at + old_chars@.len() <= total);
            let rest: usize = at + old_chars.len();
            text::push_all(&mut new, text::part(chars.as_slice(), rest, chars.len()).as_slice());
            proof {
                assert(content@.take(at as int) =~= content@.subrange(0, at as int));
                assert(content@.skip(rest as int) =~= content@.subrange(
                    rest as int,
                    content@.len() as int,
                ));
            }
            Ok(text::string_of(new.as_slice()))
        },
        None => {
            assert(false);
            Ok(String::new())
        },
    }
}

/// A replacement fails for want of the old text exactly where the file does not hold it.
pub proof fn not_found_iff_absent(content: Seq<char>, old_string: Seq<char>)
    requires
        old_string.len() > 0,
    ensures
        count_of(content, old_string) == 0 <==> !contains(content, old_string),
{
    text::find_is_first(content, old_string, 0);
}

} // verus!
