//! Laws of what goes over the wire: requests are sent whole, and events are read as they were sent.

use crate::adapter::deepseek::wire as deepseek;
use crate::adapter::http::{event_line, popped, Popped};
use crate::adapter::openai::wire as openai;
use crate::adapter::types::{
    part_texts, role_name, CompletionRequest, ContentView, PartView,
};
use crate::json::json_printed;
use crate::text::{
    find_from, find_is_at, find_is_first, has_prefix, occurs_at, opt_text, trim_end_char, trim_start,
    white,
};
use crate::text_laws::{ends_with_part, run_together};
use vstd::prelude::*;

verus! {

/// Every message of a request is sent, in order: with its role, its text unless that is empty, and all
/// its tool calls, each with its id, its name and its arguments.
pub proof fn openai_requests_are_sent_whole(
    wire: openai::WireChatCompletionRequest,
    request: CompletionRequest,
    i: int,
)
    requires
        openai::is_request(wire, request),
        0 <= i < request.messages@.len(),
    ensures
        wire.model@ == request.model@,
        wire.messages@.len() == request.messages@.len(),
        ({
            let sent = wire.messages@[i];
            let message = request.messages@[i]@;
            &&& sent.role@ == role_name(message.role)
            &&& message.content matches ContentView::Text(text) ==> {
                &&& text.len() > 0 ==> (sent.content matches Some(openai::WireContent::Text(t))
                    && t@ == text)
                &&& text.len() == 0 ==> sent.content is None
            }
            &&& message.content matches ContentView::Parts(parts) ==> (sent.content matches Some(
                openai::WireContent::Parts(ws),
            ) && ws@.len() == parts.len() && forall|k: int|
                0 <= k < parts.len() ==> ((#[trigger] parts[k]) matches PartView::Text { text } ==> (
                ws@[k] matches openai::WireContentPart::Text { text: t } && t@ == text)))
            &&& opt_text(sent.tool_call_id) == message.tool_call_id
            &&& message.tool_calls is None <==> sent.tool_calls is None
            &&& message.tool_calls matches Some(calls) ==> {
                &&& sent.tool_calls->0@.len() == calls.len()
                &&& forall|k: int|
                    0 <= k < calls.len() ==> {
                        let call = #[trigger] sent.tool_calls->0@[k];
                        &&& call.id@ == calls[k].id
                        &&& call.function.name@ == calls[k].name
                        &&& call.function.arguments@ == json_printed(calls[k].arguments)
                    }
            }
        }),
{
    let sent = wire.messages@[i];
    let message = request.messages@[i]@;
    assert(openai::is_message(sent, message));
    if let ContentView::Parts(parts) = message.content {
        let ws = sent.content->0->Parts_0;
        assert forall|k: int| 0 <= k < parts.len() implies ((#[trigger] parts[k]) matches PartView::Text {
            text,
        } ==> (ws@[k] matches openai::WireContentPart::Text { text: t } && t@ == text)) by {
            assert(openai::is_part(ws@[k], parts[k]));
        }
    }
    if let Some(calls) = message.tool_calls {
        assert forall|k: int| 0 <= k < calls.len() implies {
            let call = #[trigger] sent.tool_calls->0@[k];
            &&& call.id@ == calls[k].id
            &&& call.function.name@ == calls[k].name
            &&& call.function.arguments@ == json_printed(calls[k].arguments)
        } by {
            assert(openai::is_call(sent.tool_calls->0@[k], calls[k]));
        }
    }
}

/// The same of the other provider, which takes texts only: the parts of a message are sent as one text.
pub proof fn deepseek_requests_are_sent_whole(
    wire: deepseek::WireDeepSeekChatCompletionRequest,
    request: CompletionRequest,
    thinking: Option<deepseek::ThinkingConfig>,
    i: int,
)
    requires
        deepseek::is_request(wire, request, thinking),
        0 <= i < request.messages@.len(),
    ensures
        wire.model@ == request.model@,
        wire.messages@.len() == request.messages@.len(),
        ({
            let sent = wire.messages@[i];
            let message = request.messages@[i]@;
            let text = match message.content {
                ContentView::Text(text) => text,
                ContentView::Parts(parts) => run_together(part_texts(parts)),
            };
            &&& sent.role@ == role_name(message.role)
            &&& text.len() > 0 ==> opt_text(sent.content) == Some(text)
            &&& text.len() == 0 ==> sent.content is None
            &&& opt_text(sent.reasoning_content) == message.reasoning
            &&& opt_text(sent.tool_call_id) == message.tool_call_id
            &&& message.tool_calls is None <==> sent.tool_calls is None
            &&& message.tool_calls matches Some(calls) ==> {
                &&& sent.tool_calls->0@.len() == calls.len()
                &&& forall|k: int|
                    0 <= k < calls.len() ==> {
                        let call = #[trigger] sent.tool_calls->0@[k];
                        &&& call.id@ == calls[k].id
                        &&& call.function.name@ == calls[k].name
                        &&& call.function.arguments@ == json_printed(calls[k].arguments)
                    }
            }
        }),
{
    let sent = wire.messages@[i];
    let message = request.messages@[i]@;
    assert(deepseek::is_message(sent, message));
    if let ContentView::Parts(parts) = message.content {
        texts_run_together(parts);
    }
    if let Some(calls) = message.tool_calls {
        assert forall|k: int| 0 <= k < calls.len() implies {
            let call = #[trigger] sent.tool_calls->0@[k];
            &&& call.id@ == calls[k].id
            &&& call.function.name@ == calls[k].name
            &&& call.function.arguments@ == json_printed(calls[k].arguments)
        } by {
            assert(deepseek::is_call(sent.tool_calls->0@[k], calls[k]));
        }
    }
}

proof fn texts_run_together(parts: Seq<PartView>)
    ensures
        deepseek::all_text(parts) == run_together(part_texts(parts)),
    decreases parts.len(),
{
    if parts.len() > 0 {
        let head = parts.drop_last();
        texts_run_together(head);
        match parts.last() {
            PartView::Text { text } => {
                ends_with_part(part_texts(head), text);
            },
            _ => {
                assert(deepseek::all_text(head) + Seq::<char>::empty() =~= deepseek::all_text(head));
            },
        }
    }
}

/// The texts of a message are those of its parts that are texts, in order.
pub proof fn all_texts_of_parts(parts: Seq<PartView>)
    ensures
        part_texts(parts) == parts.filter(|part: PartView| part is Text).map_values(
            |part: PartView| part->Text_text,
        ),
    decreases parts.len(),
{
    reveal(Seq::filter);
    let is_text = |part: PartView| part is Text;
    let read = |part: PartView| part->Text_text;
    if parts.len() > 0 {
        let head = parts.drop_last();
        all_texts_of_parts(head);
        let before = head.filter(is_text);
        if parts.last() is Text {
            assert(parts.filter(is_text) == before.push(parts.last()));
            assert(before.push(parts.last()).map_values(read) =~= before.map_values(read).push(
                read(parts.last()),
            ));
        } else {
            assert(parts.filter(is_text) == before);
        }
    } else {
        assert(parts.filter(is_text).map_values(read) =~= Seq::empty());
    }
}

// ---------------------------------------------------------------------------------------------
// Events
// ---------------------------------------------------------------------------------------------
proof fn first_line_is_found(line: Seq<char>, rest: Seq<char>)
    requires
        !line.contains('\n'),
    ensures
        find_from(line.push('\n') + rest, "\n"@, 0) == Some(line.len() as int),
{
    reveal_strlit("\n");
    let all = line.push('\n') + rest;
    let end = line.len() as int;
    assert(all.subrange(end, end + 1) =~= "\n"@);
    assert forall|j: int| 0 <= j < end implies !#[trigger] occurs_at(all, "\n"@, j) by {
        if occurs_at(all, "\n"@, j) {
            assert(all.subrange(j, j + 1)[0] == line[j]);
            assert(line.contains(line[j]));
        }
    }
    find_is_at(all, "\n"@, 0, end);
}

/// An event that was sent is read as it was sent, and what follows it is left for later. The data of an
/// event hold no line end and no space before them; the mark of the end is no data.
pub proof fn sent_events_are_read(data: Seq<char>, rest: Seq<char>)
    requires
        !data.contains('\n'),
        data.len() > 0,
        !white(data[0]),
        data.last() != '\r',
        data != "[DONE]"@,
    ensures
        popped(("data: "@ + data).push('\n') + rest) == (Popped { event: Some(Some(data)), rest }),
{
    reveal_strlit("data: ");
    reveal_strlit("data:");
    let line = "data: "@ + data;
    let all = line.push('\n') + rest;
    if line.contains('\n') {
        let k = choose|k: int| 0 <= k < line.len() && line[k] == '\n';
        assert(k >= 6);
        assert(data[k - 6] == '\n');
    }
    first_line_is_found(line, rest);
    let end = line.len() as int;
    assert(all.take(end) =~= line);
    assert(line.last() == data.last());
    assert(event_line(all, end) == line);
    assert(line.take(5) =~= "data:"@);
    assert(all.skip(end + 1) =~= rest);
    let left = line.skip(5);
    assert(left[0] == ' ');
    assert(left.drop_first() =~= data);
    assert(trim_start(data) == data);
    assert(trim_start(left) == data);
}

/// The mark of the end is read as the end.
pub proof fn the_end_is_read(rest: Seq<char>)
    ensures
        popped("data: [DONE]\n"@ + rest) == (Popped { event: Some(None), rest }),
{
    reveal_strlit("data: [DONE]\n");
    reveal_strlit("data:");
    reveal_strlit("[DONE]");
    let line = "data: [DONE]\n"@.take(12);
    let all = "data: [DONE]\n"@ + rest;
    assert(all =~= line.push('\n') + rest);
    if line.contains('\n') {
        let k = choose|k: int| 0 <= k < line.len() && line[k] == '\n';
        assert(line[k] != '\n');
    }
    first_line_is_found(line, rest);
    assert(all.take(12) =~= line);
    assert(line.last() == ']');
    assert(event_line(all, 12) == line);
    assert(line.take(5) =~= "data:"@);
    assert(all.skip(13) =~= rest);
    let left = line.skip(5);
    assert(left[0] == ' ');
    assert(left.drop_first() =~= "[DONE]"@);
    assert(trim_start("[DONE]"@) == "[DONE]"@);
    assert(trim_start(left) == "[DONE]"@);
}

/// A line that holds no data is passed over.
pub proof fn other_lines_are_passed_over(line: Seq<char>, rest: Seq<char>)
    requires
        !line.contains('\n'),
        !has_prefix(trim_end_char(line, '\r'), "data:"@),
    ensures
        popped(line.push('\n') + rest) == popped(rest),
{
    let all = line.push('\n') + rest;
    first_line_is_found(line, rest);
    assert(all.take(line.len() as int) =~= line);
    assert(all.skip(line.len() + 1int) =~= rest);
}

/// A line without its end is left for later.
pub proof fn open_lines_wait(buf: Seq<char>)
    requires
        !buf.contains('\n'),
    ensures
        popped(buf) == (Popped { event: None, rest: buf }),
{
    reveal_strlit("\n");
    find_is_first(buf, "\n"@, 0);
    if let Some(k) = find_from(buf, "\n"@, 0) {
        assert(buf.subrange(k, k + 1)[0] == buf[k]);
        assert(buf.contains(buf[k]));
    }
}

} // verus!
