//! Laws of choosing from a list: what is chosen is what the list shows.

use crate::app::remember::{ArchivedView, MetaView};
use crate::app::rules::in_force;
use crate::app::scheduler::TaskView;
use crate::frontend::keys::{choice_of, item_name, item_word, named, running, ChoiceView};
use crate::frontend::select::{archived_line, session_line, switch_line, task_line};
use crate::frontend::state::{MessageView, SelectorKind, ToolStatus};
use crate::text::{
    decimal, find_from, find_is_at, find_is_first, is_digit, nonempty, occurs_at, split_white,
    trim_start_char, unsigned_of_decimal, white, words,
};
use vstd::prelude::*;

verus! {

/// Whether a text is one word: it is not empty and holds no white space.
pub open spec fn is_word(s: Seq<char>) -> bool {
    s.len() > 0 && forall|i: int| 0 <= i < s.len() ==> !white(#[trigger] s[i])
}

proof fn word_is_one_piece(s: Seq<char>)
    requires
        forall|i: int| 0 <= i < s.len() ==> !white(#[trigger] s[i]),
    ensures
        split_white(s) == seq![s],
    decreases s.len(),
{
    if s.len() > 0 {
        let head = s.drop_last();
        assert forall|i: int| 0 <= i < head.len() implies !white(#[trigger] head[i]) by {
            assert(head[i] == s[i]);
        }
        word_is_one_piece(head);
        assert(!white(s[s.len() - 1]));
        assert(head.push(s.last()) =~= s);
        assert(split_white(s) =~= seq![s]);
    } else {
        assert(s =~= Seq::<char>::empty());
    }
}

proof fn first_piece_stays(s: Seq<char>, t: Seq<char>)
    requires
        is_word(s),
        t.len() > 0,
        white(t[0]),
    ensures
        split_white(s + t).len() >= 2,
        split_white(s + t)[0] == s,
    decreases t.len(),
{
    let all = s + t;
    let head = t.drop_last();
    assert(all.drop_last() =~= s + head);
    assert(all.last() == t.last());
    if t.len() == 1 {
        assert(s + head =~= s);
        word_is_one_piece(s);
    } else {
        assert(head[0] == t[0]);
        first_piece_stays(s, head);
    }
}

proof fn first_part_stays(parts: Seq<Seq<char>>)
    requires
        parts.len() > 0,
        parts[0].len() > 0,
    ensures
        nonempty(parts).len() > 0,
        nonempty(parts)[0] == parts[0],
    decreases parts.len(),
{
    if parts.len() > 1 {
        assert(parts.drop_last()[0] == parts[0]);
        first_part_stays(parts.drop_last());
    } else {
        assert(nonempty(parts.drop_last()) =~= Seq::empty());
    }
}

/// A text that begins with a word and white space behind it has that word as its first.
pub proof fn first_words(s: Seq<char>, t: Seq<char>)
    requires
        is_word(s),
        t.len() > 0,
        white(t[0]),
    ensures
        words(s + t).len() > 0,
        words(s + t)[0] == s,
{
    first_piece_stays(s, t);
    first_part_stays(split_white(s + t));
}

proof fn word_behind_the_sign(s: Seq<char>, t: Seq<char>, item: Seq<char>)
    requires
        is_word(s),
        s[0] != '#',
        t.len() > 0,
        white(t[0]),
        item == seq!['#'] + (s + t),
    ensures
        item_word(item) == Some(s),
{
    assert(item.drop_first() =~= s + t);
    assert((s + t)[0] == s[0]);
    assert(trim_start_char(s + t, '#') == s + t);
    assert(trim_start_char(item, '#') == s + t);
    first_words(s, t);
}

/// A task that is chosen from the list of tasks is the one that is cancelled.
pub proof fn chosen_tasks_are_cancelled(task: TaskView)
    ensures
        choice_of(SelectorKind::Tasks, task_line(task)) == ChoiceView::CancelTask(task.id),
{
    reveal_strlit("#");
    reveal_strlit(" ");
    let id = decimal(task.id as nat);
    unsigned_of_decimal(task.id as nat);
    assert forall|i: int| 0 <= i < id.len() implies !white(#[trigger] id[i]) by {
        assert(is_digit(id[i]));
    }
    assert(is_digit(id[0]));
    let rest = task_line(task).skip(1 + id.len() as int);
    assert(task_line(task) =~= seq!['#'] + (id + rest));
    assert(rest[0] == ' ');
    word_behind_the_sign(id, rest, task_line(task));
}

/// A session that is chosen from the list of sessions is the one that is gone on with. The name of a
/// session is a word that begins with no number sign.
pub proof fn chosen_sessions_are_gone_on_with(meta: MetaView)
    requires
        is_word(meta.id),
        meta.id[0] != '#',
    ensures
        choice_of(SelectorKind::History, session_line(meta)) == ChoiceView::Resume(meta.id),
{
    reveal_strlit("#");
    reveal_strlit(" · ");
    let rest = session_line(meta).skip(1 + meta.id.len() as int);
    assert(session_line(meta) =~= seq!['#'] + (meta.id + rest));
    assert(rest[0] == ' ');
    word_behind_the_sign(meta.id, rest, session_line(meta));
}

/// An archived session that is chosen from the list is the one that is recalled.
pub proof fn chosen_memories_are_recalled(entry: ArchivedView)
    requires
        is_word(entry.id),
        entry.id[0] != '#',
    ensures
        choice_of(SelectorKind::Remember, archived_line(entry)) == ChoiceView::Recall(entry.id),
{
    reveal_strlit("#");
    reveal_strlit(" · ");
    let rest = archived_line(entry).skip(1 + entry.id.len() as int);
    assert(archived_line(entry) =~= seq!['#'] + (entry.id + rest));
    assert(rest[0] == ' ');
    word_behind_the_sign(entry.id, rest, archived_line(entry));
}

/// A rule or a skill that is chosen from its list is the one that is shown, whether it is in force or
/// not, as long as its name holds no long dash.
pub proof fn chosen_rules_are_shown(
    name: Seq<char>,
    description: Seq<char>,
    disabled: Seq<Seq<char>>,
)
    requires
        !name.contains('—'),
    ensures
        choice_of(SelectorKind::Rules, switch_line(name, description, disabled))
            == ChoiceView::ShowRule(name),
        choice_of(SelectorKind::Skills, switch_line(name, description, disabled))
            == ChoiceView::ShowSkill(name),
{
    reveal_strlit("[on] ");
    reveal_strlit("[off] ");
    reveal_strlit(" — ");
    let line = switch_line(name, description, disabled);
    let shown = if description.len() == 0 {
        name
    } else {
        name + " — "@ + description
    };
    assert("[on] "@.len() == 5 && "[off] "@.len() == 6);
    if in_force(disabled, name) {
        assert(line.take(5) =~= "[on] "@);
        assert(line.skip(5) =~= shown);
    } else {
        assert(line.take(6) =~= "[off] "@);
        assert(line.take(5)[2] != "[on] "@[2]);
        assert(line.skip(6) =~= shown);
    }
    assert(item_name(line) == shown);
    assert forall|j: int| 0 <= j && j + 1 < name.len() implies !#[trigger] occurs_at(shown, " — "@, j) by {
        if occurs_at(shown, " — "@, j) {
            assert(shown.subrange(j, j + 3)[1] == name[j + 1]);
            assert(name.contains(name[j + 1]));
        }
    }
    if description.len() == 0 {
        find_is_first(shown, " — "@, 0);
        assert(find_from(shown, " — "@, 0) is None);
    } else {
        let at = name.len() as int;
        assert(shown.subrange(at, at + 3) =~= " — "@);
        assert forall|j: int| 0 <= j < at implies !#[trigger] occurs_at(shown, " — "@, j) by {
            if j + 1 == at && occurs_at(shown, " — "@, j) {
                assert(shown.subrange(j, j + 3)[1] == shown[at]);
                assert(shown[at] == ' ');
            }
        }
        find_is_at(shown, " — "@, 0, at);
        assert(shown.take(at) =~= name);
    }
    assert(named(line) == name);
}

/// The calls that are cancelled are all those that are running, in order.
pub proof fn all_running_calls_are_cancelled(messages: Seq<MessageView>)
    ensures
        running(messages, messages.len() as int) == messages.filter(
            |message: MessageView|
                message is ToolCall && message->ToolCall_0.status == ToolStatus::Running,
        ).map_values(
            |message: MessageView|
                (message->ToolCall_0.tool_call_id, message->ToolCall_0.name),
        ),
{
    running_so_far(messages, messages.len() as int);
    assert(messages.take(messages.len() as int) =~= messages);
}

proof fn running_so_far(messages: Seq<MessageView>, n: int)
    requires
        0 <= n <= messages.len(),
    ensures
        running(messages, n) == messages.take(n).filter(
            |message: MessageView|
                message is ToolCall && message->ToolCall_0.status == ToolStatus::Running,
        ).map_values(
            |message: MessageView|
                (message->ToolCall_0.tool_call_id, message->ToolCall_0.name),
        ),
    decreases n,
{
    reveal(Seq::filter);
    let runs = |message: MessageView|
        message is ToolCall && message->ToolCall_0.status == ToolStatus::Running;
    let pair = |message: MessageView|
        (message->ToolCall_0.tool_call_id, message->ToolCall_0.name);
    if n > 0 {
        running_so_far(messages, n - 1);
        assert(messages.take(n).drop_last() =~= messages.take(n - 1));
        assert(messages.take(n).last() == messages[n - 1]);
        let before = messages.take(n - 1).filter(runs);
        if runs(messages[n - 1]) {
            assert(messages.take(n).filter(runs) == before.push(messages[n - 1]));
            assert(before.push(messages[n - 1]).map_values(pair) =~= before.map_values(pair).push(
                pair(messages[n - 1]),
            ));
        } else {
            assert(messages.take(n).filter(runs) == before);
        }
    } else {
        assert(messages.take(0).filter(runs).map_values(pair) =~= Seq::empty());
    }
}

} // verus!
