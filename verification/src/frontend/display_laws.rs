//! Laws of the conversation as it is shown: messages, tool calls, differences and commands.

use crate::frontend::commands::{command, commands_for, matching, CommandView, COMMANDS};
use crate::frontend::input::normalized;
use crate::frontend::state::{
    diff_upto, finished_index, finished_messages, streamed, with_file, DiffView, MessageView,
    ToolStatus,
};
use crate::text;
use crate::text::{count_of, find_from, find_is_first, has_prefix, join, occurs_at, replaced};
use crate::text_laws::replacing_joins_the_pieces;
use vstd::prelude::*;

verus! {

// ---------------------------------------------------------------------------------------------
// Messages
// ---------------------------------------------------------------------------------------------
/// Pieces of an answer come together in one message, one behind the other, and leave the other messages
/// as they are.
pub proof fn streamed_pieces_come_together(
    messages: Seq<MessageView>,
    first: Seq<char>,
    thought: Seq<char>,
    second: Seq<char>,
    more: Seq<char>,
)
    requires
        messages.len() < usize::MAX,
    ensures
        ({
            let begun = streamed(messages, None, first, thought);
            let at = messages.len() as usize;
            &&& begun.len() == messages.len() + 1
            &&& begun.drop_last() == messages
            &&& begun.last() == (MessageView::Assistant { content: first, reasoning: thought })
            &&& streamed(begun, Some(at), second, more) == streamed(
                messages,
                None,
                first + second,
                thought + more,
            )
        }),
{
    let begun = streamed(messages, None, first, thought);
    let at = messages.len() as usize;
    assert(begun.drop_last() =~= messages);
    assert(streamed(begun, Some(at), second, more) =~= streamed(
        messages,
        None,
        first + second,
        thought + more,
    ));
}

proof fn call_is_found(messages: Seq<MessageView>, id: Seq<char>, last: Option<usize>, from: int, k: int)
    requires
        0 <= from <= k < messages.len(),
        messages[k] matches MessageView::ToolCall(call) && call.tool_call_id == id,
    ensures
        finished_index(messages, id, last, from) matches Some(i) && from <= i <= k && (messages[i] matches MessageView::ToolCall(
            call,
        ) && call.tool_call_id == id),
    decreases k - from,
{
    match messages[from] {
        MessageView::ToolCall(call) => {
            if call.tool_call_id != id {
                call_is_found(messages, id, last, from + 1, k);
            }
        },
        _ => {
            call_is_found(messages, id, last, from + 1, k);
        },
    }
}

/// The end of a tool call is shown with the call that has its id: with its status, its summary and its
/// output. The call keeps its id and its name, and all other messages stay as they are.
pub proof fn ends_are_shown_with_their_call(
    messages: Seq<MessageView>,
    id: Seq<char>,
    last: Option<usize>,
    summary: Seq<char>,
    output: Seq<char>,
    status: ToolStatus,
    verdict: Option<Seq<char>>,
    now: u64,
    k: int,
)
    requires
        0 <= k < messages.len(),
        messages[k] matches MessageView::ToolCall(call) && call.tool_call_id == id,
        forall|j: int|
            0 <= j < messages.len() && j != k ==> !((#[trigger] messages[j]) matches MessageView::ToolCall(
                call,
            ) && call.tool_call_id == id),
    ensures
        ({
            let after = finished_messages(messages, id, last, summary, output, status, verdict, now);
            &&& after.len() == messages.len()
            &&& forall|j: int| 0 <= j < messages.len() && j != k ==> after[j] == messages[j]
            &&& after[k] matches MessageView::ToolCall(call) && {
                &&& call.tool_call_id == id
                &&& call.name == messages[k]->ToolCall_0.name
                &&& call.status == status
                &&& call.summary == summary
                &&& call.output == output
                &&& call.verdict == verdict
            }
        }),
{
    call_is_found(messages, id, last, 0, k);
    let i = finished_index(messages, id, last, 0)->0;
    if i != k {
        assert(messages[i] matches MessageView::ToolCall(call) && call.tool_call_id == id);
    }
}

/// The files of a turn are those that were named, each once, in the order in which they came.
pub proof fn files_are_named_once(files: Seq<Seq<char>>, path: Seq<char>, other: Seq<char>)
    requires
        files.no_duplicates(),
    ensures
        with_file(files, Some(path)).no_duplicates(),
        with_file(files, Some(path)).contains(path),
        with_file(files, Some(path)).contains(other) <==> files.contains(other) || other == path,
        with_file(files, Some(path)).take(files.len() as int) == files,
{
    let now = with_file(files, Some(path));
    assert(now.take(files.len() as int) =~= files);
    if !files.contains(path) {
        assert(now[files.len() as int] == path);
        if files.contains(other) {
            let i = choose|i: int| 0 <= i < files.len() && files[i] == other;
            assert(now[i] == other);
        }
        if now.contains(other) {
            let i = choose|i: int| 0 <= i < now.len() && now[i] == other;
            if i < files.len() {
                assert(files[i] == other);
            }
        }
        assert forall|i: int, j: int| 0 <= i < now.len() && 0 <= j < now.len() && i != j implies now[i]
            != now[j] by {
            if i < files.len() {
                assert(files.contains(files[i]));
            }
            if j < files.len() {
                assert(files.contains(files[j]));
            }
        }
    }
}

// ---------------------------------------------------------------------------------------------
// Differences
// ---------------------------------------------------------------------------------------------
/// Whether a line of a difference is marked as added or removed: it begins with the mark, holds more,
/// and is no heading.
pub open spec fn is_marked(line: Seq<char>, mark: char) -> bool {
    &&& line.len() > 1
    &&& line[0] == mark
    &&& !has_prefix(line, "+++"@)
    &&& !has_prefix(line, "---"@)
}

/// The texts of the rows of one kind.
pub open spec fn rows_of(found: Seq<DiffView>, mark: char) -> Seq<Seq<char>> {
    found.filter(|row: DiffView| row.kind == mark).map_values(|row: DiffView| row.text)
}

/// The lines with a mark, without it.
pub open spec fn lines_with(ls: Seq<Seq<char>>, mark: char) -> Seq<Seq<char>> {
    ls.filter(|line: Seq<char>| is_marked(line, mark)).map_values(|line: Seq<char>| line.skip(1))
}

proof fn one_more_row(found: Seq<DiffView>, row: DiffView, mark: char)
    ensures
        rows_of(found.push(row), mark) == if row.kind == mark {
            rows_of(found, mark).push(row.text)
        } else {
            rows_of(found, mark)
        },
{
    reveal(Seq::filter);
    let of_kind = |row: DiffView| row.kind == mark;
    let text = |row: DiffView| row.text;
    assert(found.push(row).drop_last() =~= found);
    if row.kind == mark {
        assert(found.push(row).filter(of_kind) == found.filter(of_kind).push(row));
        assert(found.filter(of_kind).push(row).map_values(text) =~= found.filter(
            of_kind,
        ).map_values(text).push(row.text));
    } else {
        assert(found.push(row).filter(of_kind) == found.filter(of_kind));
    }
}

proof fn one_more_line(ls: Seq<Seq<char>>, n: int, mark: char)
    requires
        0 < n <= ls.len(),
    ensures
        lines_with(ls.take(n), mark) == if is_marked(ls[n - 1], mark) {
            lines_with(ls.take(n - 1), mark).push(ls[n - 1].skip(1))
        } else {
            lines_with(ls.take(n - 1), mark)
        },
{
    reveal(Seq::filter);
    let marked = |line: Seq<char>| is_marked(line, mark);
    let bare = |line: Seq<char>| line.skip(1);
    assert(ls.take(n).drop_last() =~= ls.take(n - 1));
    assert(ls.take(n).last() == ls[n - 1]);
    let before = ls.take(n - 1).filter(marked);
    if is_marked(ls[n - 1], mark) {
        assert(ls.take(n).filter(marked) == before.push(ls[n - 1]));
        assert(before.push(ls[n - 1]).map_values(bare) =~= before.map_values(bare).push(
            bare(ls[n - 1]),
        ));
    } else {
        assert(ls.take(n).filter(marked) == before);
    }
}

proof fn rows_so_far(ls: Seq<Seq<char>>, n: int, mark: char)
    requires
        0 <= n <= ls.len(),
        mark == '+' || mark == '-',
        diff_upto(ls, n).found.len() < 40,
    ensures
        rows_of(diff_upto(ls, n).found, mark) == lines_with(ls.take(n), mark),
    decreases n,
{
    reveal(Seq::filter);
    if n == 0 {
        assert(rows_of(diff_upto(ls, 0).found, mark) =~= Seq::empty());
        assert(lines_with(ls.take(0), mark) =~= Seq::empty());
    } else {
        reveal_strlit("+++");
        reveal_strlit("---");
        reveal_strlit("diff --git");
        reveal_strlit("@@");
        let before = diff_upto(ls, n - 1);
        let now = diff_upto(ls, n);
        let line = ls[n - 1];
        assert(before.found.len() <= now.found.len());
        rows_so_far(ls, n - 1, mark);
        one_more_line(ls, n, mark);
        if has_prefix(line, "diff --git"@) {
            assert(line.take(10)[0] == line[0]);
        }
        if has_prefix(line, "@@"@) {
            assert(line.take(2)[0] == line[0]);
        }
        if now.found.len() > before.found.len() {
            let row = now.found.last();
            assert(now.found =~= before.found.push(row));
            one_more_row(before.found, row, mark);
        } else {
            assert(now.found == before.found);
        }
    }
}

/// As long as there are fewer than forty rows, every added line of a difference is shown as added and
/// every removed line as removed, in order and without the mark.
pub proof fn changed_lines_are_shown(ls: Seq<Seq<char>>, mark: char)
    requires
        mark == '+' || mark == '-',
        diff_upto(ls, ls.len() as int).found.len() < 40,
    ensures
        rows_of(diff_upto(ls, ls.len() as int).found, mark) == lines_with(ls, mark),
{
    rows_so_far(ls, ls.len() as int, mark);
    assert(ls.take(ls.len() as int) =~= ls);
}

// ---------------------------------------------------------------------------------------------
// Commands and input
// ---------------------------------------------------------------------------------------------
/// All commands, in the order in which they are listed.
pub open spec fn every_command() -> Seq<CommandView> {
    Seq::new(COMMANDS@.len(), |i: int| command(i))
}

proof fn matching_so_far(prefix: Seq<char>, n: int)
    requires
        0 <= n <= COMMANDS@.len(),
    ensures
        matching(prefix, n) == every_command().take(n).filter(
            |one: CommandView| has_prefix(one.name, prefix),
        ),
    decreases n,
{
    reveal(Seq::filter);
    let all = every_command();
    let fits = |one: CommandView| has_prefix(one.name, prefix);
    if n > 0 {
        matching_so_far(prefix, n - 1);
        assert(all.take(n).drop_last() =~= all.take(n - 1));
        assert(all.take(n).last() == command(n - 1));
    } else {
        assert(all.take(0).filter(fits) =~= Seq::empty());
    }
}

/// What is typed behind the slash offers all commands whose names begin with it, in order.
pub proof fn fitting_commands_are_offered(prefix: Seq<char>)
    ensures
        commands_for(prefix) == every_command().filter(
            |one: CommandView| has_prefix(one.name, prefix),
        ),
{
    matching_so_far(prefix, COMMANDS@.len() as int);
    assert(every_command().take(COMMANDS@.len() as int) =~= every_command());
}

proof fn joined_without(pieces: Seq<Seq<char>>, sep: Seq<char>, c: char)
    requires
        forall|k: int| 0 <= k < pieces.len() ==> !(#[trigger] pieces[k]).contains(c),
        !sep.contains(c),
    ensures
        !join(pieces, sep).contains(c),
    decreases pieces.len(),
{
    if pieces.len() > 0 {
        let head = pieces.drop_last();
        assert forall|k: int| 0 <= k < head.len() implies !(#[trigger] head[k]).contains(c) by {
            assert(head[k] == pieces[k]);
        }
        joined_without(head, sep, c);
        let all = join(pieces, sep);
        let before = join(head, sep);
        assert(!pieces[pieces.len() - 1].contains(c));
        if all.contains(c) {
            let i = choose|i: int| 0 <= i < all.len() && all[i] == c;
            if pieces.len() == 1 {
                assert(pieces[0][i] == c);
            } else if i < before.len() {
                assert(before[i] == c);
            } else if i < before.len() + sep.len() {
                assert(sep[i - before.len()] == c);
            } else {
                assert(pieces.last()[i - before.len() - sep.len()] == c);
            }
        }
    }
}

/// A text that is pasted keeps no carriage return, and one that has none stays as it is.
pub proof fn pasted_texts_have_line_feeds(s: Seq<char>)
    ensures
        !normalized(s).contains('\r'),
        !s.contains('\r') ==> normalized(s) == s,
{
    reveal_strlit("\r");
    reveal_strlit("\n");
    reveal_strlit("\r\n");
    let once = replaced(s, "\r\n"@, "\n"@);
    replacing_joins_the_pieces(once, "\r"@, "\n"@);
    let pieces = choose|pieces: Seq<Seq<char>>|
        {
            &&& pieces.len() == count_of(once, "\r"@) + 1
            &&& #[trigger] join(pieces, "\r"@) == once
            &&& join(pieces, "\n"@) == replaced(once, "\r"@, "\n"@)
            &&& forall|k: int|
                0 <= k < pieces.len() ==> !text::contains(#[trigger] pieces[k], "\r"@)
        };
    assert forall|k: int| 0 <= k < pieces.len() implies !(#[trigger] pieces[k]).contains('\r') by {
        if pieces[k].contains('\r') {
            let i = choose|i: int| 0 <= i < pieces[k].len() && pieces[k][i] == '\r';
            assert(pieces[k].subrange(i, i + 1) =~= "\r"@);
            assert(occurs_at(pieces[k], "\r"@, i));
            find_is_first(pieces[k], "\r"@, 0);
        }
    }
    joined_without(pieces, "\n"@, '\r');
    if !s.contains('\r') {
        find_is_first(s, "\r\n"@, 0);
        if let Some(i) = find_from(s, "\r\n"@, 0) {
            assert(s.subrange(i, i + 2)[0] == s[i]);
            assert(s.contains(s[i]));
        }
        find_is_first(s, "\r"@, 0);
        if let Some(i) = find_from(s, "\r"@, 0) {
            assert(s.subrange(i, i + 1)[0] == s[i]);
            assert(s.contains(s[i]));
        }
    }
}

} // verus!
