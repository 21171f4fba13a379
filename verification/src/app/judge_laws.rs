//! Laws of the supervisor: what it is shown, what its replies come to, and what it remembers.

use crate::app::supervisor::{
    any_in, call_of, calls_of, calls_upto, command_reason, corrected, guard_verdict, judged,
    numbered, patterns_after, question, JudgedView, RecordView, ReviewView,
    VerdictView, BROAD_TARGETS, EDITING,
};
use crate::json::{json_printed, JsonView};
use crate::text::{contains, decimal, find_from, find_is_first, lowercase, occurs_at};
use vstd::prelude::*;

verus! {

/// Whether an item of a correction names a tool.
pub open spec fn names_a_tool(item: JsonView) -> bool {
    item.text_field("tool"@) is Some
}

proof fn calls_so_far(items: Seq<JsonView>, n: int)
    requires
        0 <= n <= items.len(),
    ensures
        calls_upto(items, n) is Some <==> forall|i: int|
            0 <= i < n ==> names_a_tool(#[trigger] items[i]),
        calls_upto(items, n) matches Some(calls) ==> calls.len() == n && forall|i: int|
            0 <= i < n ==> call_of(#[trigger] items[i]) == Some(calls[i]),
    decreases n,
{
    if n > 0 {
        calls_so_far(items, n - 1);
        if calls_upto(items, n) is Some {
            assert forall|i: int| 0 <= i < n implies names_a_tool(#[trigger] items[i]) by {}
        }
        if forall|i: int| 0 <= i < n ==> names_a_tool(#[trigger] items[i]) {
            assert(names_a_tool(items[n - 1]));
            assert forall|i: int| 0 <= i < n - 1 implies names_a_tool(#[trigger] items[i]) by {}
        }
    }
}

/// A correction is read if every item of its list names a tool. Then it has as many calls as the list
/// has items, in order: each with the tool and the arguments of its item, or with none where the item
/// has none.
pub proof fn corrections_are_read_whole(reply: JsonView, list: JsonView, items: Seq<JsonView>)
    requires
        reply.field("calls"@) == Some(list),
        list.items() == Some(items),
    ensures
        calls_of(reply) is Some <==> forall|i: int|
            0 <= i < items.len() ==> names_a_tool(#[trigger] items[i]),
        calls_of(reply) matches Some(calls) ==> {
            &&& calls.len() == items.len()
            &&& forall|i: int|
                0 <= i < items.len() ==> {
                    &&& items[i].text_field("tool"@) == Some((#[trigger] calls[i]).name)
                    &&& items[i].field("arguments"@) matches Some(arguments) ==> calls[i].arguments
                        == json_printed(arguments)
                    &&& items[i].field("arguments"@) is None ==> calls[i].arguments == json_printed(
                        JsonView::Object(Seq::empty()),
                    )
                }
        },
{
    calls_so_far(items, items.len() as int);
    if let Some(calls) = calls_of(reply) {
        assert forall|i: int| 0 <= i < items.len() implies {
            &&& items[i].text_field("tool"@) == Some((#[trigger] calls[i]).name)
            &&& items[i].field("arguments"@) matches Some(arguments) ==> calls[i].arguments
                == json_printed(arguments)
            &&& items[i].field("arguments"@) is None ==> calls[i].arguments == json_printed(
                JsonView::Object(Seq::empty()),
            )
        } by {
            assert(call_of(items[i]) == Some(calls[i]));
        }
    }
}

/// A call runs by the judge's word only if the judge passed it; where the judge said nothing that can be
/// read, only if it is no call of the shell that the guard holds back.
pub proof fn only_passed_calls_are_allowed(review: Option<ReviewView>, pending: RecordView)
    ensures
        review matches Some(given) ==> {
            &&& given.pass <==> judged(review, pending) == JudgedView::Verdict(VerdictView::Allow)
            &&& !given.pass && given.action == Some("correct"@) ==> judged(review, pending)
                == (JudgedView::Correct { reason: given.reason })
            &&& !given.pass && given.action != Some("correct"@) ==> judged(review, pending)
                == JudgedView::Verdict(VerdictView::Regenerate { reason: given.reason })
        },
        review is None && pending.name != "run_terminal_command"@ ==> judged(review, pending)
            == JudgedView::Verdict(VerdictView::Allow),
{
}

/// Whether a text stands somewhere in a command, however its letters are written.
pub open spec fn mentions(command: Seq<char>, pattern: Seq<char>) -> bool {
    exists|before: Seq<char>, behind: Seq<char>|
        #[trigger] (before + pattern + behind) == lowercase(command)
}

proof fn mentioned(command: Seq<char>, pattern: Seq<char>)
    ensures
        contains(lowercase(command), pattern) == mentions(command, pattern),
{
    let s = lowercase(command);
    find_is_first(s, pattern, 0);
    if contains(s, pattern) {
        let k = find_from(s, pattern, 0)->0;
        assert(s.take(k) + pattern + s.skip(k + pattern.len()) =~= s) by {
            assert(s.subrange(k, k + pattern.len()) == pattern);
        }
    }
    if mentions(command, pattern) {
        let (before, behind) = choose|before: Seq<char>, behind: Seq<char>|
            #[trigger] (before + pattern + behind) == s;
        let k = before.len() as int;
        assert(s.subrange(k, k + pattern.len()) =~= pattern);
        assert(occurs_at(s, pattern, k));
    }
}

/// Where the judge cannot be asked, a call of the shell is held back just if its command mentions one of
/// the ways to delete too much or to change files and the history.
pub proof fn the_guard_holds_dangerous_commands_back(pending: RecordView)
    requires
        pending.name == "run_terminal_command"@,
    ensures
        guard_verdict(pending) is Regenerate <==> (exists|i: int|
            0 <= i < BROAD_TARGETS@.len() && mentions(
                pending.arguments,
                (#[trigger] BROAD_TARGETS@[i])@,
            )) || (exists|i: int|
            0 <= i < EDITING@.len() && mentions(pending.arguments, (#[trigger] EDITING@[i])@)),
        guard_verdict(pending) is Regenerate || guard_verdict(pending) == VerdictView::Allow,
{
    let s = lowercase(pending.arguments);
    assert forall|p: Seq<char>| #[trigger] contains(s, p) == mentions(pending.arguments, p) by {
        mentioned(pending.arguments, p);
    }
    assert(any_in(BROAD_TARGETS@, s) == exists|i: int|
        0 <= i < BROAD_TARGETS@.len() && mentions(
            pending.arguments,
            (#[trigger] BROAD_TARGETS@[i])@,
        )) by {
        if any_in(BROAD_TARGETS@, s) {
            let i = choose|i: int|
                0 <= i < BROAD_TARGETS@.len() && contains(s, #[trigger] BROAD_TARGETS@[i]@);
            assert(mentions(pending.arguments, BROAD_TARGETS@[i]@));
        }
        if exists|i: int|
            0 <= i < BROAD_TARGETS@.len() && mentions(
                pending.arguments,
                (#[trigger] BROAD_TARGETS@[i])@,
            ) {
            let i = choose|i: int|
                0 <= i < BROAD_TARGETS@.len() && mentions(
                    pending.arguments,
                    (#[trigger] BROAD_TARGETS@[i])@,
                );
            assert(contains(s, BROAD_TARGETS@[i]@));
        }
    }
    assert(any_in(EDITING@, s) == exists|i: int|
        0 <= i < EDITING@.len() && mentions(pending.arguments, (#[trigger] EDITING@[i])@)) by {
        if any_in(EDITING@, s) {
            let i = choose|i: int| 0 <= i < EDITING@.len() && contains(s, #[trigger] EDITING@[i]@);
            assert(mentions(pending.arguments, EDITING@[i]@));
        }
        if exists|i: int|
            0 <= i < EDITING@.len() && mentions(pending.arguments, (#[trigger] EDITING@[i])@) {
            let i = choose|i: int|
                0 <= i < EDITING@.len() && mentions(pending.arguments, (#[trigger] EDITING@[i])@);
            assert(contains(s, EDITING@[i]@));
        }
    }
    assert(command_reason(s) is Some <==> any_in(BROAD_TARGETS@, s) || any_in(EDITING@, s));
}

/// Every failure is remembered behind the earlier ones, of which only the oldest is ever forgotten, and
/// only where there would be more than twenty. What passes leaves no trace.
pub proof fn failures_are_remembered(patterns: Seq<Seq<char>>, review: Option<ReviewView>)
    requires
        patterns.len() <= 20,
    ensures
        (review is None || review->0.pass) ==> patterns_after(patterns, review) == patterns,
        review is Some && !review->0.pass ==> {
            let after = patterns_after(patterns, review);
            &&& patterns.len() < 20 ==> after == patterns + seq![review->0.reason]
            &&& patterns.len() == 20 ==> seq![patterns[0]] + after == patterns + seq![
                review->0.reason,
            ]
        },
{
    if let Some(given) = review {
        if !given.pass {
            let after = patterns_after(patterns, review);
            assert(patterns.push(given.reason) =~= patterns + seq![given.reason]);
            if patterns.len() == 20 {
                assert(seq![patterns[0]] + after =~= patterns + seq![given.reason]);
            }
        }
    }
}

/// The line on which a call is shown to the judge.
pub open spec fn shown_call(number: nat, call: RecordView) -> Seq<char> {
    "\n"@ + decimal(number) + ". "@ + call.name + "("@ + call.arguments + ") -> "@ + call.output
}

proof fn numbered_grows(trace: Seq<RecordView>, m: int, n: int) -> (rest: Seq<char>)
    requires
        0 <= m <= n <= trace.len(),
    ensures
        numbered(trace, n) == numbered(trace, m) + rest,
    decreases n,
{
    if m == n {
        let rest = Seq::<char>::empty();
        assert(numbered(trace, n) =~= numbered(trace, m) + rest);
        rest
    } else {
        let before = numbered_grows(trace, m, n - 1);
        let rest = before + shown_call(n as nat, trace[n - 1]);
        assert(numbered(trace, n) =~= numbered(trace, m) + rest);
        rest
    }
}

/// The judge is shown the request, every call so far with its number, its arguments and its output, in
/// order, and the call that waits.
pub proof fn the_judge_sees_every_call(
    input: Seq<char>,
    trace: Seq<RecordView>,
    pending: RecordView,
    i: int,
)
    requires
        0 <= i < trace.len(),
    ensures
        exists|before: Seq<char>, behind: Seq<char>|
            {
                &&& question(input, trace, pending) == "User: "@ + input + "\n"@
                    + "Tools used so far:"@ + before + shown_call((i + 1) as nat, trace[i]) + behind
                    + "\nPending tool call: "@ + pending.name + "("@ + pending.arguments + ")"@
                &&& before == numbered(trace, i)
                &&& #[trigger] (before + behind) == before + behind
            },
{
    let before = numbered(trace, i);
    let behind = numbered_grows(trace, i + 1, trace.len() as int);
    assert(numbered(trace, i + 1) =~= before + shown_call((i + 1) as nat, trace[i]));
    assert(before + behind == before + behind);
    assert(question(input, trace, pending) =~= "User: "@ + input + "\n"@ + "Tools used so far:"@
        + before + shown_call((i + 1) as nat, trace[i]) + behind + "\nPending tool call: "@
        + pending.name + "("@ + pending.arguments + ")"@);
}

/// A correction that can be read replaces the call, and one that cannot sends it back for the reason
/// that the judge gave.
pub proof fn unreadable_corrections_send_back(calls: Option<Seq<RecordView>>, reason: Seq<char>)
    ensures
        calls is Some <==> corrected(calls, reason) is Corrected,
        calls is Some ==> corrected(calls, reason)->calls == calls->0,
        calls is None ==> corrected(calls, reason) == (VerdictView::Regenerate { reason }),
{
}

} // verus!
