//! Laws of sessions: what a conversation is given back as, and which sessions are kept.

use crate::app::remember::{
    archived_from, closed, listed, made_current, other_session, pair_step, paired, session_from,
    session_name, session_started, texts_of, turn_added, turns_view, user_heads, ArchivedView,
    ConversationTurn, MetaView, Pairing, Remember, StartedView, TurnView,
};
use crate::json::JsonView;
use crate::runtime::DialogueView;
use crate::text::{
    decimal, join, number, repeated, trim, trim_end, trim_start, unsigned_of_decimal, white,
};
use vstd::prelude::*;

verus! {

/// Whether a turn is an answer: the assistant said something that is not blank.
pub open spec fn is_answer(turn: TurnView) -> bool {
    turn.role == "assistant"@ && exists|k: int|
        0 <= k < turn.content.len() && !white(#[trigger] turn.content[k])
}

/// Nothing is left of a text without the white space around it just if it holds nothing else.
pub proof fn blank_texts_are_white(s: Seq<char>)
    ensures
        trim(s).len() > 0 <==> exists|k: int| 0 <= k < s.len() && !white(#[trigger] s[k]),
{
    start_of_blank(s);
    end_of_blank(trim_start(s));
    let rest = trim_start(s);
    if exists|k: int| 0 <= k < s.len() && !white(#[trigger] s[k]) {
        assert(!white(rest[0]));
    }
    if trim(s).len() > 0 {
        let k = choose|k: int| 0 <= k < rest.len() && !white(#[trigger] rest[k]);
        assert(rest == s.skip(s.len() - rest.len()));
        assert(!white(s[s.len() - rest.len() + k]));
    }
}

proof fn start_of_blank(s: Seq<char>)
    ensures
        trim_start(s).len() <= s.len(),
        trim_start(s) == s.skip(s.len() - trim_start(s).len()),
        trim_start(s).len() > 0 ==> !white(trim_start(s)[0]),
        (exists|k: int| 0 <= k < s.len() && !white(#[trigger] s[k])) ==> trim_start(s).len() > 0,
    decreases s.len(),
{
    let rest = trim_start(s);
    if s.len() > 0 && white(s[0]) {
        let tail = s.drop_first();
        start_of_blank(tail);
        assert(tail.skip(tail.len() - rest.len()) =~= s.skip(s.len() - rest.len()));
        if exists|k: int| 0 <= k < s.len() && !white(#[trigger] s[k]) {
            let k = choose|k: int| 0 <= k < s.len() && !white(#[trigger] s[k]);
            assert(tail[k - 1] == s[k]);
        }
    } else {
        assert(s.skip(0) =~= s);
    }
}

proof fn end_of_blank(s: Seq<char>)
    ensures
        trim_end(s).len() > 0 <==> exists|k: int| 0 <= k < s.len() && !white(#[trigger] s[k]),
    decreases s.len(),
{
    if s.len() > 0 && white(s.last()) {
        let head = s.drop_last();
        end_of_blank(head);
        if exists|k: int| 0 <= k < s.len() && !white(#[trigger] s[k]) {
            let k = choose|k: int| 0 <= k < s.len() && !white(#[trigger] s[k]);
            assert(head[k] == s[k]);
        }
        if trim_end(s).len() > 0 {
            let k = choose|k: int| 0 <= k < head.len() && !white(#[trigger] head[k]);
            assert(s[k] == head[k]);
        }
    } else if s.len() > 0 {
        assert(!white(s[s.len() - 1]));
    }
}

/// Before the user has said anything, there is no dialogue.
pub proof fn dialogues_begin_with_the_user(turns: Seq<TurnView>)
    requires
        forall|i: int| 0 <= i < turns.len() ==> (#[trigger] turns[i]).role != "user"@,
    ensures
        closed(paired(turns, turns.len() as int)).len() == 0,
{
    silent_so_far(turns, turns.len() as int);
}

proof fn silent_so_far(turns: Seq<TurnView>, n: int)
    requires
        0 <= n <= turns.len(),
        forall|i: int| 0 <= i < turns.len() ==> (#[trigger] turns[i]).role != "user"@,
    ensures
        paired(turns, n) == (Pairing { done: Seq::empty(), user: None, parts: Seq::empty() }),
    decreases n,
{
    if n > 0 {
        silent_so_far(turns, n - 1);
        assert(turns[n - 1].role != "user"@);
    }
}

/// What the user says becomes one turn of the dialogue together with all the answers that follow, in
/// their order, one in a line; without an answer it becomes none.
pub proof fn questions_get_their_answers(turns: Seq<TurnView>)
    requires
        turns.len() > 0,
        turns[0].role == "user"@,
        forall|i: int| 1 <= i < turns.len() ==> (#[trigger] turns[i]).role != "user"@,
    ensures
        ({
            let answers = turns.skip(1).filter(|turn: TurnView| is_answer(turn));
            closed(paired(turns, turns.len() as int)) == if answers.len() == 0 {
                Seq::empty()
            } else {
                seq![
                    DialogueView {
                        user: turns[0].content,
                        assistant: join(answers.map_values(|turn: TurnView| turn.content), "\n"@),
                    },
                ]
            }
        }),
{
    answers_so_far(turns, turns.len() as int);
    assert(turns.subrange(1, turns.len() as int) =~= turns.skip(1));
    assert(Seq::<DialogueView>::empty().push(
        DialogueView {
            user: turns[0].content,
            assistant: join(paired(turns, turns.len() as int).parts, "\n"@),
        },
    ) =~= seq![
        DialogueView {
            user: turns[0].content,
            assistant: join(paired(turns, turns.len() as int).parts, "\n"@),
        },
    ]);
}

proof fn answers_so_far(turns: Seq<TurnView>, n: int)
    requires
        1 <= n <= turns.len(),
        turns[0].role == "user"@,
        forall|i: int| 1 <= i < turns.len() ==> (#[trigger] turns[i]).role != "user"@,
    ensures
        paired(turns, n).done == Seq::<DialogueView>::empty(),
        paired(turns, n).user == Some(turns[0].content),
        paired(turns, n).parts == turns.subrange(1, n).filter(
            |turn: TurnView| is_answer(turn),
        ).map_values(|turn: TurnView| turn.content),
    decreases n,
{
    reveal(Seq::filter);
    let answer = |turn: TurnView| is_answer(turn);
    let said = |turn: TurnView| turn.content;
    let here = turns.subrange(1, n);
    if n == 1 {
        assert(paired(turns, 0) == (Pairing { done: Seq::empty(), user: None, parts: Seq::empty() }));
        assert(here.filter(answer).map_values(said) =~= Seq::empty());
    } else {
        answers_so_far(turns, n - 1);
        let turn = turns[n - 1];
        assert(turn.role != "user"@);
        blank_texts_are_white(turn.content);
        assert(here.drop_last() =~= turns.subrange(1, n - 1));
        assert(here.last() == turn);
        let before = turns.subrange(1, n - 1).filter(answer);
        assert(before.push(turn).map_values(said) =~= before.map_values(said).push(turn.content));
        assert(paired(turns, n) == pair_step(paired(turns, n - 1), turn));
    }
}

/// A dialogue that goes on with what the user says keeps all that was said before: the dialogue of two
/// stretches is that of the first, followed by that of the second.
pub proof fn dialogues_follow_each_other(first: Seq<TurnView>, second: Seq<TurnView>)
    requires
        second.len() > 0 ==> second[0].role == "user"@,
    ensures
        closed(paired(first + second, (first + second).len() as int)) == closed(
            paired(first, first.len() as int),
        ) + closed(paired(second, second.len() as int)),
{
    let all = first + second;
    same_beginning(first, second, first.len() as int);
    if second.len() == 0 {
        assert(closed(paired(second, 0)) =~= Seq::empty());
        assert(closed(paired(first, first.len() as int)) + Seq::<DialogueView>::empty() =~= closed(
            paired(first, first.len() as int),
        ));
    } else {
        goes_on(first, second, second.len() as int);
        let before = closed(paired(first, first.len() as int));
        let then = paired(second, second.len() as int);
        let now = paired(all, all.len() as int);
        assert(closed(now) =~= before + closed(then));
    }
}

proof fn same_beginning(first: Seq<TurnView>, second: Seq<TurnView>, n: int)
    requires
        0 <= n <= first.len(),
    ensures
        paired(first + second, n) == paired(first, n),
    decreases n,
{
    if n > 0 {
        same_beginning(first, second, n - 1);
        assert((first + second)[n - 1] == first[n - 1]);
    }
}

proof fn goes_on(first: Seq<TurnView>, second: Seq<TurnView>, m: int)
    requires
        1 <= m <= second.len(),
        second[0].role == "user"@,
    ensures
        ({
            let before = closed(paired(first, first.len() as int));
            let then = paired(second, m);
            let now = paired(first + second, first.len() + m);
            &&& now.done == before + then.done
            &&& now.user == then.user
            &&& now.parts == then.parts
            &&& now.user is Some
        }),
    decreases m,
{
    let all = first + second;
    let before = closed(paired(first, first.len() as int));
    assert(all[first.len() + m - 1] == second[m - 1]);
    if m == 1 {
        same_beginning(first, second, first.len() as int);
        assert(paired(second, 0).user is None);
        assert(paired(all, first.len() + 1int) == pair_step(
            paired(all, first.len() as int),
            second[0],
        ));
        assert(paired(second, 1) == pair_step(paired(second, 0), second[0]));
        assert(before + Seq::<DialogueView>::empty() =~= before);
    } else {
        goes_on(first, second, m - 1);
        let then = paired(second, m - 1);
        let now = paired(all, first.len() + m - 1);
        assert(paired(all, first.len() + m) == pair_step(now, second[m - 1]));
        assert(paired(second, m) == pair_step(then, second[m - 1]));
        assert(closed(now) =~= before + closed(then));
    }
}

/// A question and its answer at the end of a session become the last turn of its dialogue, and the
/// dialogue before them stays.
pub proof fn new_answers_are_remembered(turns: Seq<TurnView>, question: TurnView, answer: TurnView)
    requires
        question.role == "user"@,
        is_answer(answer),
    ensures
        ({
            let all = turns.push(question).push(answer);
            closed(paired(all, all.len() as int)) == closed(
                paired(turns, turns.len() as int),
            ).push(DialogueView { user: question.content, assistant: answer.content })
        }),
{
    let pair = seq![question, answer];
    let all = turns.push(question).push(answer);
    assert(all =~= turns + pair);
    dialogues_follow_each_other(turns, pair);
    reveal_strlit("user");
    reveal_strlit("assistant");
    assert("user"@.len() != "assistant"@.len());
    questions_get_their_answers(pair);
    reveal(Seq::filter);
    let is = |turn: TurnView| is_answer(turn);
    let said = |turn: TurnView| turn.content;
    assert(pair.skip(1) =~= seq![answer]);
    assert(pair.skip(1).drop_last() =~= Seq::empty());
    assert(pair.skip(1).drop_last().filter(is) =~= Seq::empty());
    assert(pair.skip(1).filter(is) =~= seq![answer]);
    assert(seq![answer].map_values(said) =~= seq![answer.content]);
    let before = closed(paired(turns, turns.len() as int));
    let last = DialogueView { user: question.content, assistant: answer.content };
    assert(join(seq![answer.content], "\n"@) == answer.content);
    assert(before + seq![last] =~= before.push(last));
}

/// A session in which every question has one answer is given back whole: each question with its
/// answer, in their order.
pub proof fn answered_sessions_come_back_whole(turns: Seq<TurnView>, n: nat)
    requires
        turns.len() == 2 * n,
        forall|k: int|
            0 <= k < n ==> (#[trigger] turns[2 * k]).role == "user"@ && is_answer(turns[2 * k + 1]),
    ensures
        closed(paired(turns, turns.len() as int)).len() == n,
        forall|k: int|
            0 <= k < n ==> #[trigger] closed(paired(turns, turns.len() as int))[k] == (DialogueView {
                user: turns[2 * k].content,
                assistant: turns[2 * k + 1].content,
            }),
    decreases n,
{
    if n > 0 {
        let front = turns.take(2 * n - 2);
        let question = turns[2 * (n - 1)];
        let answer = turns[2 * (n - 1) + 1];
        assert(turns =~= front.push(question).push(answer));
        assert forall|k: int| 0 <= k < n - 1 implies (#[trigger] front[2 * k]).role == "user"@
            && is_answer(front[2 * k + 1]) by {
            assert(turns[2 * k].role == "user"@);
        }
        answered_sessions_come_back_whole(front, (n - 1) as nat);
        new_answers_are_remembered(front, question, answer);
        let dialogue = closed(paired(turns, turns.len() as int));
        assert forall|k: int| 0 <= k < n implies #[trigger] dialogue[k] == (DialogueView {
            user: turns[2 * k].content,
            assistant: turns[2 * k + 1].content,
        }) by {
            if k < n - 1 {
                assert(dialogue[k] == closed(paired(front, front.len() as int))[k]);
            }
        }
    }
}

// ---------------------------------------------------------------------------------------------
// Sessions
// ---------------------------------------------------------------------------------------------
proof fn zeros_before_digits(k: nat, digits: Seq<char>)
    ensures
        number(repeated('0', k) + digits) == number(digits),
    decreases digits.len(), k,
{
    let all = repeated('0', k) + digits;
    if digits.len() > 0 {
        zeros_before_digits(k, digits.drop_last());
        assert(all.drop_last() =~= repeated('0', k) + digits.drop_last());
    } else if k > 0 {
        let fewer = (k - 1) as nat;
        zeros_before_digits(fewer, digits);
        assert(all.drop_last() =~= repeated('0', fewer) + digits);
        assert(all.last() == '0');
    } else {
        assert(all =~= digits);
    }
}

/// Sessions with different numbers have different names.
pub proof fn session_names_differ(a: nat, b: nat)
    requires
        session_name(a) == session_name(b),
    ensures
        a == b,
{
    named_by_number(a);
    named_by_number(b);
}

/// The name of a session says its number.
pub proof fn named_by_number(n: nat)
    ensures
        session_name(n).len() >= 5,
        number(session_name(n).skip(1)) == n,
{
    reveal_strlit("s");
    unsigned_of_decimal(n);
    let digits = decimal(n);
    if digits.len() < 4 {
        let zeros = (4 - digits.len()) as nat;
        zeros_before_digits(zeros, digits);
        assert(session_name(n).skip(1) =~= repeated('0', zeros) + digits);
    } else {
        assert(session_name(n).skip(1) =~= digits);
    }
}

/// Beginning a session loses none: those that were kept in full still are, in their order, but for the
/// oldest where there were fifteen already, and that one is handed out. The new session has the name
/// that no session with a lower number has, and no turns.
pub proof fn beginning_loses_no_session(
    before: Remember,
    after: Remember,
    created: Seq<char>,
    started: StartedView,
)
    requires
        session_started(before, after, created, started),
    ensures
        before.full() == (if started.oldest is Some {
            seq![started.oldest->0]
        } else {
            Seq::empty()
        }) + after.full(),
        started.oldest is Some <==> before.full().len() >= 15,
        after.archive == before.archive,
        after.now() matches Some(meta) && meta.id == started.id && meta.created == created && meta.turns
            == 0 && meta.summary.len() == 0,
        forall|n: nat|
            n <= before.full().len() + before.archive@.len() ==> #[trigger] session_name(n)
                != started.id,
{
    assert(before.full() =~= (if started.oldest is Some {
        seq![started.oldest->0]
    } else {
        Seq::empty()
    }) + after.full());
    assert forall|n: nat| n <= before.full().len() + before.archive@.len() implies #[trigger]
    session_name(n) != started.id by {
        if session_name(n) == started.id {
            session_names_differ(
                n,
                (before.sessions@.len() + before.archive@.len() + 1) as nat,
            );
        }
    }
}

proof fn session_is_first(sessions: Seq<MetaView>, id: Seq<char>, i: int)
    requires
        0 <= i <= sessions.len(),
    ensures
        match session_from(sessions, id, i) {
            Some(k) => i <= k < sessions.len() && sessions[k].id == id && forall|j: int|
                i <= j < k ==> (#[trigger] sessions[j]).id != id,
            None => forall|j: int| i <= j < sessions.len() ==> (#[trigger] sessions[j]).id != id,
        },
    decreases sessions.len() - i,
{
    if i < sessions.len() && sessions[i].id != id {
        session_is_first(sessions, id, i + 1);
    }
}

/// A turn that is added stands behind the others. The session that is going on is listed then, with as
/// many turns as it has; what the user says first, up to sixty characters, becomes its summary. All
/// other sessions stay as they were, at their places.
pub proof fn added_turns_stand_last(
    before: Remember,
    after: Remember,
    role: Seq<char>,
    content: Seq<char>,
    turns: Seq<TurnView>,
    r: Option<Vec<ConversationTurn>>,
)
    requires
        turn_added(before, after, role, content, turns, r),
        before.now() is Some,
        turns.len() < usize::MAX,
    ensures
        r is Some,
        turns_view(r->0@) == turns + seq![TurnView { role, content }],
        after.archive == before.archive,
        after.current == before.current,
        before.full().len() <= after.full().len() <= before.full().len() + 1,
        forall|i: int|
            0 <= i < before.full().len() && (#[trigger] before.full()[i]).id != before.now()->0.id
                ==> after.full()[i] == before.full()[i],
        exists|i: int|
            {
                &&& 0 <= i < after.full().len()
                &&& (#[trigger] after.full()[i]).id == before.now()->0.id
                &&& after.full()[i].turns == turns.len() + 1
                &&& i < before.full().len() ==> after.full()[i].created == before.full()[i].created
                &&& i < before.full().len() && before.full()[i].summary.len() > 0
                    ==> after.full()[i].summary == before.full()[i].summary
                &&& (if i < before.full().len() {
                    before.full()[i].summary.len() == 0
                } else {
                    before.now()->0.summary.len() == 0
                }) && role == "user"@ && content.len() <= 60 ==> after.full()[i].summary == content
                &&& (if i < before.full().len() {
                    before.full()[i].summary.len() == 0
                } else {
                    before.now()->0.summary.len() == 0
                }) && role == "user"@ && content.len() > 60 ==> after.full()[i].summary
                    == content.take(60)
            },
{
    let meta = before.now()->0;
    let sessions = before.full();
    session_is_first(sessions, meta.id, 0);
    let all = listed(sessions, meta);
    session_is_first(all, meta.id, 0);
    let at = session_from(all, meta.id, 0)->0;
    assert(turns.push(TurnView { role, content }) =~= turns + seq![TurnView { role, content }]);
    assert(after.full()[at].id == meta.id);
    if at >= sessions.len() {
        assert(all[at] == meta);
    } else {
        assert(all[at] == sessions[at]);
    }
}

/// Going on with a session that is kept in full makes it the one that is going on, and leaves the list.
pub proof fn sessions_are_gone_on_with(before: Remember, after: Remember, id: Seq<char>)
    requires
        made_current(before, after, id),
    ensures
        after.sessions == before.sessions,
        after.archive == before.archive,
        (exists|i: int| 0 <= i < before.full().len() && (#[trigger] before.full()[i]).id == id)
            ==> (after.now() matches Some(meta) && meta.id == id && before.full().contains(meta)),
        !(exists|i: int| 0 <= i < before.full().len() && (#[trigger] before.full()[i]).id == id)
            ==> after.current == before.current,
{
    session_is_first(before.full(), id, 0);
    if let Some(k) = session_from(before.full(), id, 0) {
        assert(before.full()[k].id == id);
    }
}

/// The session that was going on before is the last one on the list with another name.
pub proof fn the_latest_other_session_is_meant(sessions: Seq<MetaView>, id: Option<Seq<char>>, n: int)
    requires
        0 <= n <= sessions.len(),
    ensures
        match other_session(sessions, id, n) {
            Some(other) => exists|i: int|
                0 <= i < n && (#[trigger] sessions[i]).id == other && Some(other) != id && forall|
                    k: int,
                |
                    i < k < n ==> Some((#[trigger] sessions[k]).id) == id,
            None => forall|k: int| 0 <= k < n ==> Some((#[trigger] sessions[k]).id) == id,
        },
    decreases n,
{
    if n > 0 {
        if Some(sessions[n - 1].id) != id {
            assert(sessions[n - 1].id == other_session(sessions, id, n)->0);
        } else {
            the_latest_other_session_is_meant(sessions, id, n - 1);
            if let Some(other) = other_session(sessions, id, n) {
                let i = choose|i: int|
                    0 <= i < n - 1 && (#[trigger] sessions[i]).id == other && Some(other) != id
                        && forall|k: int|
                        i < k < n - 1 ==> Some((#[trigger] sessions[k]).id) == id;
                assert(sessions[i].id == other);
            }
        }
    }
}

/// What is recalled of a session is the first that the archive holds under its name.
pub proof fn archived_sessions_are_found(entries: Seq<ArchivedView>, id: Seq<char>, i: int)
    requires
        0 <= i <= entries.len(),
    ensures
        match archived_from(entries, id, i) {
            Some(entry) => exists|k: int|
                i <= k < entries.len() && #[trigger] entries[k] == entry && entry.id == id && forall|
                    j: int,
                |
                    i <= j < k ==> (#[trigger] entries[j]).id != id,
            None => forall|k: int| i <= k < entries.len() ==> (#[trigger] entries[k]).id != id,
        },
    decreases entries.len() - i,
{
    if i < entries.len() {
        if entries[i].id == id {
            assert(entries[i] == archived_from(entries, id, i)->0);
        } else {
            archived_sessions_are_found(entries, id, i + 1);
            if let Some(entry) = archived_from(entries, id, i) {
                let k = choose|k: int|
                    i + 1 <= k < entries.len() && #[trigger] entries[k] == entry && entry.id == id
                        && forall|j: int|
                        i + 1 <= j < k ==> (#[trigger] entries[j]).id != id;
                assert(entries[k] == entry);
            }
        }
    }
}

/// Without a summary from the archivist, a session is archived with the beginnings of all that the user
/// said, in order: up to sixty characters of each turn.
pub proof fn all_requests_are_highlights(turns: Seq<TurnView>)
    ensures
        user_heads(turns, turns.len() as int) == turns.filter(
            |turn: TurnView| turn.role == "user"@,
        ).map_values(
            |turn: TurnView|
                if turn.content.len() <= 60 {
                    turn.content
                } else {
                    turn.content.take(60)
                },
        ),
{
    heads_so_far(turns, turns.len() as int);
    assert(turns.take(turns.len() as int) =~= turns);
}

proof fn heads_so_far(turns: Seq<TurnView>, n: int)
    requires
        0 <= n <= turns.len(),
    ensures
        user_heads(turns, n) == turns.take(n).filter(
            |turn: TurnView| turn.role == "user"@,
        ).map_values(
            |turn: TurnView|
                if turn.content.len() <= 60 {
                    turn.content
                } else {
                    turn.content.take(60)
                },
        ),
    decreases n,
{
    reveal(Seq::filter);
    let asked = |turn: TurnView| turn.role == "user"@;
    let head = |turn: TurnView|
        if turn.content.len() <= 60 {
            turn.content
        } else {
            turn.content.take(60)
        };
    if n > 0 {
        heads_so_far(turns, n - 1);
        assert(turns.take(n).drop_last() =~= turns.take(n - 1));
        assert(turns.take(n).last() == turns[n - 1]);
        let before = turns.take(n - 1).filter(asked);
        if asked(turns[n - 1]) {
            assert(turns.take(n).filter(asked) == before.push(turns[n - 1]));
            assert(before.push(turns[n - 1]).map_values(head) =~= before.map_values(head).push(
                head(turns[n - 1]),
            ));
        } else {
            assert(turns.take(n).filter(asked) == before);
        }
    } else {
        assert(turns.take(0).filter(asked).map_values(head) =~= Seq::empty());
    }
}

/// The texts of a list are its items that are texts, in order.
pub proof fn all_texts_are_read(items: Seq<JsonView>)
    ensures
        texts_of(items, items.len() as int) == items.filter(
            |item: JsonView| item.text() is Some,
        ).map_values(|item: JsonView| item.text()->0),
{
    texts_so_far(items, items.len() as int);
    assert(items.take(items.len() as int) =~= items);
}

proof fn texts_so_far(items: Seq<JsonView>, n: int)
    requires
        0 <= n <= items.len(),
    ensures
        texts_of(items, n) == items.take(n).filter(
            |item: JsonView| item.text() is Some,
        ).map_values(|item: JsonView| item.text()->0),
    decreases n,
{
    reveal(Seq::filter);
    let is_text = |item: JsonView| item.text() is Some;
    let read = |item: JsonView| item.text()->0;
    if n > 0 {
        texts_so_far(items, n - 1);
        assert(items.take(n).drop_last() =~= items.take(n - 1));
        assert(items.take(n).last() == items[n - 1]);
        let before = items.take(n - 1).filter(is_text);
        if is_text(items[n - 1]) {
            assert(items.take(n).filter(is_text) == before.push(items[n - 1]));
            assert(before.push(items[n - 1]).map_values(read) =~= before.map_values(read).push(
                read(items[n - 1]),
            ));
        } else {
            assert(items.take(n).filter(is_text) == before);
        }
    } else {
        assert(items.take(0).filter(is_text).map_values(read) =~= Seq::empty());
    }
}

} // verus!
