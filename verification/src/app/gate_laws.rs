//! Laws of the check that every tool call passes: which calls run, which wait, and what is told of the
//! others.

use crate::app::agent::{
    asks_first, call_finished, calls_view, corrected_calls, executed_view, gate, is_known, must_wait,
    pending_answered, shortened, tool_from, tools_view, trace_lines, trace_text, verdict_applied,
    without_text, App, ExecutedView, NoticeView, PlanView, PlannedView, ToolCallView, ToolView,
};
use crate::app::conversation::{cancelled_notices, with_ids};
use crate::app::supervisor::{RecordView, VerdictView};
use crate::app::tool_specs::{all_required, missing_from, missing_parameter, required_of, REQUIRED};
use crate::json::{json_parsed, json_printed, JsonView};
use crate::text::{join, views};
use crate::text_laws::parts_stand_in_order;
use vstd::prelude::*;

verus! {

/// Whether a tool with a name is registered.
pub open spec fn is_registered(tools: Seq<ToolView>, name: Seq<char>) -> bool {
    exists|i: int| 0 <= i < tools.len() && (#[trigger] tools[i]).name == name
}

proof fn first_of_name(tools: Seq<ToolView>, name: Seq<char>, i: int)
    requires
        0 <= i <= tools.len(),
    ensures
        match tool_from(tools, name, i) {
            Some(k) => i <= k < tools.len() && tools[k].name == name && forall|j: int|
                i <= j < k ==> (#[trigger] tools[j]).name != name,
            None => forall|j: int| i <= j < tools.len() ==> (#[trigger] tools[j]).name != name,
        },
    decreases tools.len() - i,
{
    if i < tools.len() && tools[i].name != name {
        first_of_name(tools, name, i + 1);
    }
}

/// The tools that are known are those that are registered. A tool asks first if it was registered so,
/// and one that is not registered does not ask.
pub proof fn registered_tools_are_found(tools: Seq<ToolView>, name: Seq<char>)
    ensures
        is_known(tools, name) == is_registered(tools, name),
        !is_registered(tools, name) ==> !asks_first(tools, name),
        forall|i: int|
            0 <= i < tools.len() && (#[trigger] tools[i]).name == name && (forall|j: int|
                0 <= j < i ==> (#[trigger] tools[j]).name != name) ==> asks_first(tools, name)
                == tools[i].confirm,
{
    first_of_name(tools, name, 0);
    if is_known(tools, name) {
        let k = tool_from(tools, name, 0)->0;
        assert(tools[k].name == name);
        assert forall|i: int|
            0 <= i < tools.len() && (#[trigger] tools[i]).name == name && (forall|j: int|
                0 <= j < i ==> (#[trigger] tools[j]).name != name) implies asks_first(tools, name)
            == tools[i].confirm by {
            if i < k {
                assert(tools[i].name != name);
            }
            if k < i {
                assert(tools[k].name != name);
            }
        }
    }
}

/// The call that runs for a corrected one.
pub open spec fn corrected(call: RecordView, tool_call_id: Option<Seq<char>>) -> PlannedView {
    PlannedView {
        call: ToolCallView {
            name: call.name,
            arguments: if json_parsed(call.arguments) is Some {
                json_parsed(call.arguments)->0
            } else {
                JsonView::Object(Seq::empty())
            },
            tool_call_id,
        },
        known: true,
        verdict: "corrected"@,
    }
}

/// Of the corrected calls, each whose tool is registered runs, in order, with the arguments that its
/// text is read as, or with none where the text is no value. The others do not run.
pub proof fn corrected_calls_run_in_order(
    calls: Seq<RecordView>,
    tools: Seq<ToolView>,
    tool_call_id: Option<Seq<char>>,
)
    ensures
        corrected_calls(calls, tools, tool_call_id, calls.len() as int) == calls.filter(
            |call: RecordView| is_registered(tools, call.name),
        ).map_values(|call: RecordView| corrected(call, tool_call_id)),
{
    corrected_so_far(calls, tools, tool_call_id, calls.len() as int);
    assert(calls.take(calls.len() as int) =~= calls);
}

proof fn corrected_so_far(
    calls: Seq<RecordView>,
    tools: Seq<ToolView>,
    tool_call_id: Option<Seq<char>>,
    n: int,
)
    requires
        0 <= n <= calls.len(),
    ensures
        corrected_calls(calls, tools, tool_call_id, n) == calls.take(n).filter(
            |call: RecordView| is_registered(tools, call.name),
        ).map_values(|call: RecordView| corrected(call, tool_call_id)),
    decreases n,
{
    reveal(Seq::filter);
    let ran = |call: RecordView| is_registered(tools, call.name);
    let made = |call: RecordView| corrected(call, tool_call_id);
    if n > 0 {
        corrected_so_far(calls, tools, tool_call_id, n - 1);
        registered_tools_are_found(tools, calls[n - 1].name);
        assert(calls.take(n).drop_last() =~= calls.take(n - 1));
        assert(calls.take(n).last() == calls[n - 1]);
        let before = calls.take(n - 1).filter(ran);
        if is_registered(tools, calls[n - 1].name) {
            assert(calls.take(n).filter(ran) == before.push(calls[n - 1]));
            assert(before.push(calls[n - 1]).map_values(made) =~= before.map_values(made).push(
                corrected(calls[n - 1], tool_call_id),
            ));
        }
    }
    assert(corrected_calls(calls, tools, tool_call_id, n) =~= calls.take(n).filter(ran).map_values(
        made,
    ));
}

/// Where the tools of all corrected calls are registered, all of them run: as many as there are, each
/// at its place, with its name and the arguments that its text is read as.
pub proof fn known_corrections_all_run(
    calls: Seq<RecordView>,
    tools: Seq<ToolView>,
    tool_call_id: Option<Seq<char>>,
)
    requires
        forall|i: int| 0 <= i < calls.len() ==> is_registered(tools, (#[trigger] calls[i]).name),
    ensures
        ({
            let plan = corrected_calls(calls, tools, tool_call_id, calls.len() as int);
            &&& plan.len() == calls.len()
            &&& forall|i: int|
                0 <= i < calls.len() ==> {
                    &&& (#[trigger] plan[i]).call.name == calls[i].name
                    &&& plan[i].call.tool_call_id == tool_call_id
                    &&& plan[i].verdict == "corrected"@
                    &&& json_parsed(calls[i].arguments) matches Some(arguments) ==> plan[i].call.arguments
                        == arguments
                }
        }),
{
    corrected_calls_run_in_order(calls, tools, tool_call_id);
    all_pass(calls, |call: RecordView| is_registered(tools, call.name));
}

proof fn all_pass(calls: Seq<RecordView>, pass: spec_fn(RecordView) -> bool)
    requires
        forall|i: int| 0 <= i < calls.len() ==> pass(#[trigger] calls[i]),
    ensures
        calls.filter(pass) == calls,
    decreases calls.len(),
{
    reveal(Seq::filter);
    if calls.len() > 0 {
        let head = calls.drop_last();
        assert forall|i: int| 0 <= i < head.len() implies pass(#[trigger] head[i]) by {
            assert(head[i] == calls[i]);
        }
        all_pass(head, pass);
        assert(pass(calls[calls.len() - 1]));
        assert(head.push(calls.last()) =~= calls);
    } else {
        assert(calls.filter(pass) =~= calls);
    }
}

/// Whether a call waits for the user: its tool asks first, and the user has not approved it for good.
pub open spec fn needs_the_user(app: App, name: Seq<char>) -> bool {
    asks_first(tools_view(app.tools@), name) && !exists|i: int|
        0 <= i < app.approvals@.len() && (#[trigger] app.approvals@[i])@ == name
}

proof fn approvals_are_listed(app: App, name: Seq<char>)
    ensures
        needs_the_user(app, name) == must_wait(app, name),
{
    let all = views(app.approvals@);
    if all.contains(name) {
        let i = choose|i: int| 0 <= i < all.len() && all[i] == name;
        assert(app.approvals@[i]@ == name);
    }
    if exists|i: int| 0 <= i < app.approvals@.len() && (#[trigger] app.approvals@[i])@ == name {
        let i = choose|i: int| 0 <= i < app.approvals@.len() && (#[trigger] app.approvals@[i])@ == name;
        assert(all[i] == name);
    }
}

/// A call that is allowed waits behind those that wait already if it needs the user, and else it runs
/// by itself, as it was made. Nothing else changes, and nothing is told.
pub proof fn allowed_calls_run_or_wait(
    before: App,
    after: App,
    call: ToolCallView,
    plan: PlanView,
    told: Seq<NoticeView>,
)
    requires
        verdict_applied(before, after, VerdictView::Allow, call, plan, told),
    ensures
        told.len() == 0,
        after == (App { pending_tool: after.pending_tool, ..before }),
        needs_the_user(before, call.name) ==> plan == PlanView::NeedConfirm(call) && calls_view(
            after.pending_tool@,
        ) == calls_view(before.pending_tool@) + seq![call],
        !needs_the_user(before, call.name) ==> {
            &&& plan is Execute
            &&& plan->Execute_0.len() == 1
            &&& plan->Execute_0[0].call == call
            &&& plan->Execute_0[0].verdict == "allowed"@
            &&& plan->Execute_0[0].known == is_registered(tools_view(before.tools@), call.name)
            &&& calls_view(after.pending_tool@) == calls_view(before.pending_tool@)
        },
{
    approvals_are_listed(before, call.name);
    registered_tools_are_found(tools_view(before.tools@), call.name);
    assert(calls_view(before.pending_tool@).push(call) =~= calls_view(before.pending_tool@)
        + seq![call]);
}

/// Whether some notice gives the model an answer to a call, under the id of the call.
pub open spec fn is_answered(
    told: Seq<NoticeView>,
    name: Seq<char>,
    id: Option<Seq<char>>,
    output: Seq<char>,
) -> bool {
    exists|i: int|
        0 <= i < told.len() && (#[trigger] told[i] matches NoticeView::ToolResult {
            name: n,
            output: o,
            tool_call_id: t,
            ..
        } && n == name && o == output && t == id)
}

/// As long as fewer than five calls were sent back, a call that the supervisor refuses does not run: it
/// is answered with the reason, it is recorded, and it counts. What waits, what ran and what was
/// approved stay as they were.
pub proof fn refused_calls_are_answered(
    before: App,
    after: App,
    reason: Seq<char>,
    call: ToolCallView,
    plan: PlanView,
    told: Seq<NoticeView>,
)
    requires
        verdict_applied(before, after, VerdictView::Regenerate { reason }, call, plan, told),
        before.supervise_blocks < 5,
    ensures
        plan == PlanView::Blocked,
        is_answered(
            told,
            call.name,
            call.tool_call_id,
            "(blocked by supervisor: "@ + reason + ")"@,
        ),
        after.supervise_blocks == before.supervise_blocks + 1,
        after.trace().len() == before.trace().len() + 1,
        after.trace().drop_last() == before.trace(),
        after.trace().last().name == call.name,
        after.trace().last().output == "(blocked by supervisor: "@ + reason + ")"@,
        after.pending_tool == before.pending_tool,
        after.executed_calls == before.executed_calls,
        after.tool_rounds_executed == before.tool_rounds_executed,
        after.approvals == before.approvals,
        after.tools == before.tools,
{
    assert(told[1] matches NoticeView::ToolResult { name, output, tool_call_id, .. } && name
        == call.name && output == "(blocked by supervisor: "@ + reason + ")"@ && tool_call_id
        == call.tool_call_id);
    assert(after.trace().drop_last() =~= before.trace());
}

/// As long as fewer than five calls were sent back, the calls of a correction run in place of the call
/// as far as their tools are registered; a correction without calls refuses the call. Either way it
/// counts and is recorded.
pub proof fn corrections_replace_the_call(
    before: App,
    after: App,
    calls: Seq<RecordView>,
    call: ToolCallView,
    plan: PlanView,
    told: Seq<NoticeView>,
)
    requires
        verdict_applied(before, after, VerdictView::Corrected { calls }, call, plan, told),
        before.supervise_blocks < 5,
    ensures
        calls.len() == 0 ==> plan == PlanView::Blocked && is_answered(
            told,
            call.name,
            call.tool_call_id,
            "(corrected by supervisor to: empty plan)"@,
        ),
        calls.len() > 0 ==> told.len() == 0 && plan == PlanView::Execute(
            calls.filter(
                |call: RecordView| is_registered(tools_view(before.tools@), call.name),
            ).map_values(|c: RecordView| corrected(c, call.tool_call_id)),
        ),
        after.supervise_blocks == before.supervise_blocks + 1,
        after.trace().len() == before.trace().len() + 1,
        after.trace().drop_last() == before.trace(),
        after.trace().last().name == call.name,
        after.pending_tool == before.pending_tool,
        after.executed_calls == before.executed_calls,
        after.tool_rounds_executed == before.tool_rounds_executed,
        after.approvals == before.approvals,
        after.tools == before.tools,
{
    corrected_calls_run_in_order(calls, tools_view(before.tools@), call.tool_call_id);
    if calls.len() == 0 {
        assert(told[1] matches NoticeView::ToolResult { name, output, tool_call_id, .. } && name
            == call.name && output == "(corrected by supervisor to: empty plan)"@ && tool_call_id
            == call.tool_call_id);
    }
    assert(after.trace().drop_last() =~= before.trace());
}

/// Once five calls were sent back, the supervisor has no say any more: whatever the verdict is, the call
/// is dealt with as one that is allowed.
pub proof fn the_supervisor_gives_way(
    before: App,
    after: App,
    verdict: VerdictView,
    call: ToolCallView,
    plan: PlanView,
    told: Seq<NoticeView>,
)
    requires
        before.supervise_blocks >= 5,
    ensures
        verdict_applied(before, after, verdict, call, plan, told) == verdict_applied(
            before,
            after,
            VerdictView::Allow,
            call,
            plan,
            told,
        ),
{
}

/// The user's answer is for the call that waits longest. An approved call runs as it was made, one that
/// is denied is answered, and the calls behind it go on waiting in their order.
pub proof fn waiting_calls_are_answered_in_order(
    before: App,
    after: App,
    approved: bool,
    run: Option<PlannedView>,
    told: Seq<NoticeView>,
)
    requires
        pending_answered(before, after, approved, run, told),
    ensures
        before.pending_tool@.len() == 0 ==> run is None && told.len() == 0 && after == before,
        before.pending_tool@.len() > 0 ==> {
            let call = before.pending_tool@[0]@;
            &&& calls_view(before.pending_tool@) == seq![call] + calls_view(after.pending_tool@)
            &&& approved ==> (run matches Some(planned) && planned.call == call && planned.verdict
                == "allowed"@ && told.len() == 0)
            &&& !approved ==> run is None && is_answered(
                told,
                call.name,
                call.tool_call_id,
                "user denied the tool call"@,
            ) && after.trace().drop_last() == before.trace() && after.trace().last().name
                == call.name
        },
        after.executed_calls == before.executed_calls,
        after.approvals == before.approvals,
        after.supervise_blocks == before.supervise_blocks,
{
    if before.pending_tool@.len() > 0 {
        let call = before.pending_tool@[0]@;
        let all = calls_view(before.pending_tool@);
        assert(all =~= seq![call] + all.skip(1));
        if !approved {
            assert(told[0] matches NoticeView::ToolResult { name, output, tool_call_id, .. } && name
                == call.name && output == "user denied the tool call"@ && tool_call_id
                == call.tool_call_id);
            assert(after.trace().drop_last() =~= before.trace());
        }
    }
}

/// The end of a call that was not cancelled is told with its whole output, under its id; it is recorded,
/// and it counts. The same call is stopped from then on.
pub proof fn finished_calls_are_told(
    before: App,
    after: App,
    call: ToolCallView,
    output: Seq<char>,
    verdict: Seq<char>,
    told: Seq<NoticeView>,
)
    requires
        call_finished(before, after, call, output, verdict, told),
        call.tool_call_id matches Some(id) ==> forall|i: int|
            0 <= i < before.cancelled_tool_ids@.len() ==> (
            #[trigger] before.cancelled_tool_ids@[i])@ != id,
    ensures
        is_answered(told, call.name, call.tool_call_id, output),
        after.trace().len() == before.trace().len() + 1,
        after.trace().drop_last() == before.trace(),
        after.trace().last().name == call.name,
        output.len() <= 400 ==> after.trace().last().output == output,
        before.tool_rounds_executed < u32::MAX ==> after.tool_rounds_executed
            == before.tool_rounds_executed + 1,
        executed_view(after.executed_calls@).drop_last() == executed_view(before.executed_calls@),
        !(gate(after, call.name, call.arguments) is Open),
        after.cancelled_tool_ids == before.cancelled_tool_ids,
        after.pending_tool == before.pending_tool,
        after.supervise_blocks == before.supervise_blocks,
{
    let ids = views(before.cancelled_tool_ids@);
    if let Some(id) = call.tool_call_id {
        if ids.contains(id) {
            let i = choose|i: int| 0 <= i < ids.len() && ids[i] == id;
            assert(before.cancelled_tool_ids@[i]@ == id);
        }
    }
    assert(told[1] matches NoticeView::ToolResult { name, output: o, tool_call_id, .. } && name
        == call.name && o == output && tool_call_id == call.tool_call_id);
    assert(after.trace().drop_last() =~= before.trace());
    let ran = executed_view(after.executed_calls@);
    assert(ran.drop_last() =~= executed_view(before.executed_calls@));
    assert(ran[ran.len() - 1] == (ExecutedView {
        name: call.name,
        arguments: json_printed(call.arguments),
    }));
    assert(shortened(output, 400) == if output.len() <= 400 {
        output
    } else {
        output.take(400).push('…')
    });
}

/// The end of a call that was cancelled is not told, and changes nothing but that its id is forgotten;
/// the other ids stay, in their order.
pub proof fn cancelled_calls_end_in_silence(
    before: App,
    after: App,
    call: ToolCallView,
    id: Seq<char>,
    output: Seq<char>,
    verdict: Seq<char>,
    told: Seq<NoticeView>,
)
    requires
        call_finished(before, after, call, output, verdict, told),
        call.tool_call_id == Some(id),
        exists|i: int|
            0 <= i < before.cancelled_tool_ids@.len() && (#[trigger] before.cancelled_tool_ids@[i])@
                == id,
    ensures
        told.len() == 0,
        after == (App { cancelled_tool_ids: after.cancelled_tool_ids, ..before }),
        views(after.cancelled_tool_ids@) == views(before.cancelled_tool_ids@).filter(
            |other: Seq<char>| other != id,
        ),
{
    let ids = views(before.cancelled_tool_ids@);
    let i = choose|i: int|
        0 <= i < before.cancelled_tool_ids@.len() && (#[trigger] before.cancelled_tool_ids@[i])@
            == id;
    assert(ids[i] == id);
    left_out_texts_are_gone(ids, id);
}

/// Leaving out a text leaves the others, in their order.
pub proof fn left_out_texts_are_gone(all: Seq<Seq<char>>, s: Seq<char>)
    ensures
        without_text(all, s) == all.filter(|other: Seq<char>| other != s),
    decreases all.len(),
{
    reveal(Seq::filter);
    if all.len() > 0 {
        left_out_texts_are_gone(all.drop_last(), s);
    }
    assert(without_text(all, s) =~= all.filter(|other: Seq<char>| other != s));
}

/// Every call that the user cancels is answered, under its id and with the name of its tool.
pub proof fn cancelled_calls_are_answered(
    calls: Seq<(String, String)>,
    cycle: u64,
    k: int,
    n: int,
)
    requires
        0 <= k < n <= calls.len(),
    ensures
        is_answered(
            cancelled_notices(calls, cycle, n),
            calls[k].1@,
            Some(calls[k].0@),
            "(tool call cancelled by user)"@,
        ),
        cancelled_notices(calls, cycle, n).len() == 2 * n,
    decreases n,
{
    let before = cancelled_notices(calls, cycle, n - 1);
    let now = cancelled_notices(calls, cycle, n);
    told_twice(calls, cycle, n - 1);
    if k == n - 1 {
        assert(now[before.len() as int] matches NoticeView::ToolResult {
            name,
            output,
            tool_call_id,
            ..
        } && name == calls[k].1@ && output == "(tool call cancelled by user)"@ && tool_call_id
            == Some(calls[k].0@));
    } else {
        cancelled_calls_are_answered(calls, cycle, k, n - 1);
        let i = choose|i: int|
            0 <= i < before.len() && (#[trigger] before[i] matches NoticeView::ToolResult {
                name: a,
                output: o,
                tool_call_id: t,
                ..
            } && a == calls[k].1@ && o == "(tool call cancelled by user)"@ && t == Some(
                calls[k].0@,
            ));
        assert(now[i] == before[i]);
    }
}

proof fn told_twice(calls: Seq<(String, String)>, cycle: u64, n: int)
    requires
        0 <= n <= calls.len(),
    ensures
        cancelled_notices(calls, cycle, n).len() == 2 * n,
    decreases n,
{
    if n > 0 {
        told_twice(calls, cycle, n - 1);
    }
}

/// The ids of all calls that the user cancels are remembered, beside those that were.
pub proof fn cancelled_ids_are_remembered(
    ids: Seq<Seq<char>>,
    calls: Seq<(String, String)>,
    n: int,
    id: Seq<char>,
)
    requires
        0 <= n <= calls.len(),
    ensures
        with_ids(ids, calls, n).contains(id) <==> ids.contains(id) || exists|k: int|
            0 <= k < n && (#[trigger] calls[k]).0@ == id,
    decreases n,
{
    if n > 0 {
        cancelled_ids_are_remembered(ids, calls, n - 1, id);
        let before = with_ids(ids, calls, n - 1);
        let now = with_ids(ids, calls, n);
        let one = calls[n - 1].0@;
        assert(calls[n - 1].0@ == one);
        if !before.contains(one) {
            assert(now == before.push(one));
            assert(now[before.len() as int] == one);
            if before.contains(id) {
                let i = choose|i: int| 0 <= i < before.len() && before[i] == id;
                assert(now[i] == id);
            }
            if now.contains(id) {
                let i = choose|i: int| 0 <= i < now.len() && now[i] == id;
                if i < before.len() {
                    assert(before[i] == id);
                }
            }
        }
    }
}

/// Whether a parameter of a tool must be given.
pub open spec fn must_be_given(tool: Seq<char>, name: Seq<char>) -> bool {
    exists|i: int|
        0 <= i < REQUIRED@.len() && (#[trigger] REQUIRED@[i]).0@ == tool && REQUIRED@[i].1@ == name
}

proof fn required_so_far(tool: Seq<char>, name: Seq<char>, n: int)
    requires
        0 <= n <= REQUIRED@.len(),
    ensures
        required_of(tool, n).contains(name) <==> exists|i: int|
            0 <= i < n && (#[trigger] REQUIRED@[i]).0@ == tool && REQUIRED@[i].1@ == name,
    decreases n,
{
    if n > 0 {
        required_so_far(tool, name, n - 1);
        let before = required_of(tool, n - 1);
        let now = required_of(tool, n);
        assert(REQUIRED@[n - 1].0@ == REQUIRED@[n - 1].0@);
        if REQUIRED@[n - 1].0@ == tool {
            assert(now[before.len() as int] == REQUIRED@[n - 1].1@);
            if before.contains(name) {
                let k = choose|k: int| 0 <= k < before.len() && before[k] == name;
                assert(now[k] == name);
            }
            if now.contains(name) {
                let k = choose|k: int| 0 <= k < now.len() && now[k] == name;
                if k < before.len() {
                    assert(before[k] == name);
                }
            }
        }
    }
}

proof fn first_missing(names: Seq<Seq<char>>, arguments: JsonView, i: int)
    requires
        0 <= i <= names.len(),
    ensures
        match missing_from(names, arguments, i) {
            Some(name) => names.contains(name) && arguments.field(name) is None,
            None => forall|k: int| i <= k < names.len() ==> arguments.field(#[trigger] names[k]) is Some,
        },
    decreases names.len() - i,
{
    if i < names.len() {
        if arguments.field(names[i]) is None {
            assert(names.contains(names[i]));
        } else {
            first_missing(names, arguments, i + 1);
        }
    }
}

/// A call is complete just if its arguments hold every parameter that must be given; of one that is not,
/// a parameter is named that must be given and is not.
pub proof fn complete_calls_hold_what_must_be_given(tool: Seq<char>, arguments: JsonView)
    ensures
        missing_parameter(tool, arguments) is None <==> forall|name: Seq<char>| #[trigger]
            must_be_given(tool, name) ==> arguments.field(name) is Some,
        missing_parameter(tool, arguments) matches Some(name) ==> must_be_given(tool, name)
            && arguments.field(name) is None,
{
    let names = all_required(tool);
    first_missing(names, arguments, 0);
    assert forall|name: Seq<char>| #[trigger] must_be_given(tool, name) == names.contains(name) by {
        required_so_far(tool, name, REQUIRED@.len() as int);
    }
    if missing_parameter(tool, arguments) is None {
        assert forall|name: Seq<char>| #[trigger] must_be_given(tool, name) implies arguments.field(
            name,
        ) is Some by {
            let k = choose|k: int| 0 <= k < names.len() && names[k] == name;
            assert(arguments.field(names[k]) is Some);
        }
    } else {
        let name = missing_parameter(tool, arguments)->0;
        assert(must_be_given(tool, name));
    }
}

/// Every call of the trace is shown to the model, in a line with its name and its arguments, behind the
/// calls before it.
pub proof fn the_trace_shows_every_call(trace: Seq<RecordView>, i: int)
    requires
        0 <= i < trace.len(),
    ensures
        exists|before: Seq<char>, behind: Seq<char>|
            {
                &&& trace_text(trace) == #[trigger] (before + ("\n- "@ + trace[i].name + " "@
                    + trace[i].arguments) + behind)
                &&& i > 0 ==> before == trace_text(trace.take(i))
            },
{
    reveal_strlit("\n- ");
    reveal_strlit("- ");
    reveal_strlit("\n");
    reveal_strlit("\n\n[Tools already executed or supervised in the current task]\n");
    let head = "\n\n[Tools already executed or supervised in the current task]\n"@;
    let lines = trace_lines(trace);
    parts_stand_in_order(lines, "\n"@, i);
    let behind = if i + 1 < lines.len() {
        "\n"@ + join(lines.skip(i + 1), "\n"@)
    } else {
        Seq::empty()
    };
    let shown = "\n- "@ + trace[i].name + " "@ + trace[i].arguments;
    assert("\n"@ + lines[i] =~= shown);
    if i > 0 {
        let before = trace_text(trace.take(i));
        assert(trace_lines(trace.take(i)) =~= lines.take(i));
        assert(trace_text(trace) =~= before + shown + behind);
    } else {
        let before = head.drop_last();
        assert(trace_text(trace) =~= before + shown + behind);
    }
}

} // verus!
