//! Putting an answer together from the pieces of a stream.

use crate::adapter::error::{AdapterError, ErrorView};
use crate::adapter::types::{
    calls_view, deltas_view, CompletionChoice, CompletionChunk, CompletionResponse, ContentLogprobs,
    DeltaView, FinishReason, TokenUsage, ToolCall, ToolCallDelta, ToolCallView,
};
use crate::json;
use crate::json::{json_parsed, Json, JsonView};
use crate::text;
use crate::text::{opt_text, or_empty};
use vstd::prelude::*;

verus! {

/// The arguments of a tool call: a JSON value, or the text itself where it is none.
pub open spec fn arguments_of(text: Option<Seq<char>>, parsed: Option<JsonView>) -> JsonView {
    match text {
        Some(text) => match parsed {
            Some(value) => value,
            None => JsonView::Text(text),
        },
        None => JsonView::Null,
    }
}

/// What the text of a tool call's arguments is read as.
pub open spec fn parsed_arguments(text: Option<Seq<char>>) -> JsonView {
    arguments_of(
        text,
        match text {
            Some(text) => json_parsed(text),
            None => None,
        },
    )
}

/// The arguments of a tool call, from their text and what it was read as.
pub fn arguments_from(text: Option<String>, parsed: Option<Json>) -> (r: Json)
    ensures
        r@ == arguments_of(
            opt_text(text),
            match parsed {
                Some(value) => Some(value@),
                None => None,
            },
        ),
{
    match text {
        Some(text) => match parsed {
            Some(value) => value,
            None => Json::Text(text),
        },
        None => Json::Null,
    }
}

/// The arguments of a tool call: a JSON value, or the text itself where it is none.
pub fn parse_arguments(delta: Option<String>) -> (r: Json)
    ensures
        r@ == parsed_arguments(opt_text(delta)),
{
    let parsed = match &delta {
        Some(text) => json::parse_json(text.as_str()),
        None => None,
    };
    arguments_from(delta, parsed)
}

/// A piece of a tool call joined to the pieces before it. A new identifier or name replaces the old
/// one; the text of the arguments grows.
pub open spec fn merged(existing: DeltaView, delta: DeltaView) -> DeltaView {
    DeltaView {
        index: existing.index,
        id: if delta.id is Some {
            delta.id
        } else {
            existing.id
        },
        name: if delta.name is Some {
            delta.name
        } else {
            existing.name
        },
        arguments_delta: match delta.arguments_delta {
            Some(more) => Some(or_empty(existing.arguments_delta) + more),
            None => existing.arguments_delta,
        },
    }
}

/// The first of the tool calls from `i` on with the given index.
pub open spec fn call_with_index(acc: Seq<DeltaView>, index: u32, i: int) -> Option<int>
    decreases acc.len() - i,
{
    if i < 0 || i >= acc.len() {
        None
    } else if acc[i].index == index {
        Some(i)
    } else {
        call_with_index(acc, index, i + 1)
    }
}

/// The tool calls after one more piece.
pub open spec fn with_delta(acc: Seq<DeltaView>, delta: DeltaView) -> Seq<DeltaView> {
    match call_with_index(acc, delta.index, 0) {
        Some(i) => acc.update(i, merged(acc[i], delta)),
        None => acc.push(delta),
    }
}

/// The tool calls after the first `n` of some pieces.
pub open spec fn with_deltas(acc: Seq<DeltaView>, deltas: Seq<DeltaView>, n: int) -> Seq<DeltaView>
    decreases n,
{
    if n <= 0 {
        acc
    } else {
        with_delta(with_deltas(acc, deltas, n - 1), deltas[n - 1])
    }
}

proof fn found_call(acc: Seq<DeltaView>, index: u32, i: int)
    requires
        0 <= i,
    ensures
        match call_with_index(acc, index, i) {
            Some(k) => i <= k < acc.len() && acc[k].index == index,
            None => forall|k: int| i <= k < acc.len() ==> (#[trigger] acc[k]).index != index,
        },
    decreases acc.len() - i,
{
    if i < acc.len() && acc[i].index != index {
        found_call(acc, index, i + 1);
    }
}

/// No two tool calls of an answer have the same index, however their pieces arrive.
pub proof fn indices_stay_distinct(acc: Seq<DeltaView>, delta: DeltaView)
    requires
        forall|i: int, j: int|
            0 <= i < j < acc.len() ==> (#[trigger] acc[i]).index != (#[trigger] acc[j]).index,
    ensures
        forall|i: int, j: int|
            0 <= i < j < with_delta(acc, delta).len() ==> (#[trigger] with_delta(acc, delta)[i]).index
                != (#[trigger] with_delta(acc, delta)[j]).index,
{
    found_call(acc, delta.index, 0);
    let after = with_delta(acc, delta);
    assert forall|i: int, j: int| 0 <= i < j < after.len() implies (#[trigger] after[i]).index != (
    #[trigger] after[j]).index by {
        if j < acc.len() {
            assert(acc[i].index != acc[j].index);
        } else {
            assert(acc[i].index != delta.index);
        }
    }
}

/// A copy of a piece of a tool call.
fn copy_delta(delta: &ToolCallDelta) -> (r: ToolCallDelta)
    ensures
        r@ == delta@,
{
    ToolCallDelta {
        index: delta.index,
        id: text::copy_opt(&delta.id),
        name: text::copy_opt(&delta.name),
        arguments_delta: text::copy_opt(&delta.arguments_delta),
    }
}

/// Joins a piece of a tool call to the pieces before it.
pub fn merge_tool_call_delta(acc: &mut Vec<ToolCallDelta>, delta: &ToolCallDelta)
    ensures
        deltas_view(final(acc)@) == with_delta(deltas_view(old(acc)@), delta@),
{
    let ghost before = deltas_view(acc@);
    let mut i: usize = 0;
    while i < acc.len()
        invariant
            i <= acc@.len(),
            before == deltas_view(acc@),
            before == deltas_view(old(acc)@),
            call_with_index(before, delta.index, 0) == call_with_index(
                before,
                delta.index,
                i as int,
            ),
        decreases acc@.len() - i,
    {
        assert(before[i as int] == acc@[i as int]@);
        if acc[i].index == delta.index {
            let existing = &mut acc[i];
            if delta.id.is_some() {
                existing.id = text::copy_opt(&delta.id);
            }
            if delta.name.is_some() {
                existing.name = text::copy_opt(&delta.name);
            }
            if let Some(more) = &delta.arguments_delta {
                let mut text = match &existing.arguments_delta {
                    Some(so_far) => so_far.clone(),
                    None => {
                        let empty = String::new();
                        assert(empty@ =~= Seq::<char>::empty());
                        empty
                    },
                };
                text.append(more.as_str());
                existing.arguments_delta = Some(text);
            }
            assert(deltas_view(acc@) =~= with_delta(before, delta@));
            return ;
        }
        i += 1;
    }
    let copy = copy_delta(delta);
    acc.push(copy);
    assert(deltas_view(acc@) =~= before.push(copy@));
}

/// An answer as far as it has come.
pub struct ChoiceAccumulator {
    pub content: String,
    pub tool_deltas: Vec<ToolCallDelta>,
    pub finish_reason: FinishReason,
    pub logprobs: Option<ContentLogprobs>,
    pub reasoning: String,
}

/// A `ChoiceAccumulator` with its texts as characters.
pub ghost struct AccView {
    pub content: Seq<char>,
    pub tool_deltas: Seq<DeltaView>,
    pub finish_reason: FinishReason,
    pub logprobs: Option<ContentLogprobs>,
    pub reasoning: Seq<char>,
}

impl View for ChoiceAccumulator {
    type V = AccView;

    open spec fn view(&self) -> AccView {
        AccView {
            content: self.content@,
            tool_deltas: deltas_view(self.tool_deltas@),
            finish_reason: self.finish_reason,
            logprobs: self.logprobs,
            reasoning: self.reasoning@,
        }
    }
}

/// The views of answers as far as they have come.
pub open spec fn accs_view(accs: Seq<ChoiceAccumulator>) -> Seq<AccView> {
    Seq::new(accs.len(), |i: int| accs[i]@)
}

/// An answer that nothing has been added to.
pub open spec fn empty_acc() -> AccView {
    AccView {
        content: Seq::empty(),
        tool_deltas: Seq::empty(),
        finish_reason: FinishReason::Unknown,
        logprobs: None,
        reasoning: Seq::empty(),
    }
}

/// An answer after one more piece of the stream.
pub open spec fn with_chunk(acc: AccView, chunk: CompletionChunk) -> AccView {
    AccView {
        content: acc.content + or_empty(opt_text(chunk.delta.content)),
        tool_deltas: with_deltas(
            acc.tool_deltas,
            deltas_view(chunk.delta.tool_calls@),
            chunk.delta.tool_calls@.len() as int,
        ),
        finish_reason: match chunk.finish_reason {
            Some(reason) => reason,
            None => acc.finish_reason,
        },
        logprobs: if chunk.delta.logprobs is Some {
            chunk.delta.logprobs
        } else {
            acc.logprobs
        },
        reasoning: acc.reasoning + or_empty(opt_text(chunk.delta.reasoning)),
    }
}

/// The answers, of which there are at least `n`.
pub open spec fn padded(accs: Seq<AccView>, n: nat) -> Seq<AccView> {
    if accs.len() >= n {
        accs
    } else {
        accs + Seq::new((n - accs.len()) as nat, |i: int| empty_acc())
    }
}

/// The answers to a request as far as they have come.
pub struct Aggregator {
    pub choices: Vec<ChoiceAccumulator>,
    pub usage: Option<TokenUsage>,
    pub request_id: Option<String>,
    pub saw_chunk: bool,
}

/// The tool calls of an answer that is complete.
pub open spec fn finished_calls(deltas: Seq<DeltaView>) -> Seq<ToolCallView> {
    Seq::new(
        deltas.len(),
        |i: int|
            ToolCallView {
                id: or_empty(deltas[i].id),
                name: or_empty(deltas[i].name),
                arguments: parsed_arguments(deltas[i].arguments_delta),
            },
    )
}

/// Whether `choice` is the answer `acc`, now complete.
pub open spec fn is_finished(choice: CompletionChoice, acc: AccView) -> bool {
    &&& choice.content@ == acc.content
    &&& calls_view(choice.tool_calls@) == finished_calls(acc.tool_deltas)
    &&& choice.finish_reason == acc.finish_reason
    &&& choice.logprobs == acc.logprobs
    &&& opt_text(choice.reasoning) == if acc.reasoning.len() == 0 {
        None
    } else {
        Some(acc.reasoning)
    }
}

/// Whether a piece of the stream was added to the answer that it belongs to.
pub open spec fn chunk_added(before: Aggregator, after: Aggregator, chunk: CompletionChunk) -> bool {
    let answers = padded(accs_view(before.choices@), (chunk.index + 1) as nat);
    &&& after.saw_chunk
    &&& after.usage == if chunk.usage is Some {
        chunk.usage
    } else {
        before.usage
    }
    &&& after.request_id == if chunk.request_id is Some {
        chunk.request_id
    } else {
        before.request_id
    }
    &&& accs_view(after.choices@) == answers.update(
        chunk.index as int,
        with_chunk(answers[chunk.index as int], chunk),
    )
}

impl Aggregator {
    /// No answers yet.
    pub fn new() -> (r: Self)
        ensures
            r.choices@.len() == 0,
            r.usage is None && r.request_id is None && !r.saw_chunk,
    {
        Aggregator { choices: Vec::new(), usage: None, request_id: None, saw_chunk: false }
    }

    /// Adds a piece of the stream to the answer that it belongs to.
    pub fn add(&mut self, chunk: CompletionChunk)
        ensures
            chunk_added(*old(self), *final(self), chunk),
    {
        self.saw_chunk = true;
        let index: usize = chunk.index as usize;
        let ghost start = accs_view(self.choices@);
        while self.choices.len() <= index
            invariant
                index == chunk.index,
                start == accs_view(old(self).choices@),
                start.len() <= self.choices@.len(),
                self.choices@.len() > start.len() ==> self.choices@.len() <= index + 1,
                accs_view(self.choices@) == start + Seq::new(
                    (self.choices@.len() - start.len()) as nat,
                    |i: int| empty_acc(),
                ),
                *self == (Aggregator { choices: self.choices, saw_chunk: true, ..*old(self) }),
            decreases index + 1 - self.choices@.len(),
        {
            let ghost now = accs_view(self.choices@);
            let acc = ChoiceAccumulator {
                content: String::new(),
                tool_deltas: Vec::new(),
                finish_reason: FinishReason::Unknown,
                logprobs: None,
                reasoning: String::new(),
            };
            proof {
                assert(acc@.content =~= Seq::empty());
                assert(acc@.reasoning =~= Seq::empty());
                assert(acc@.tool_deltas =~= Seq::empty());
            }
            self.choices.push(acc);
            assert(accs_view(self.choices@) =~= now.push(empty_acc()));
            assert(accs_view(self.choices@) =~= start + Seq::new(
                (self.choices@.len() - start.len()) as nat,
                |i: int| empty_acc(),
            ));
        }
        let ghost before = accs_view(self.choices@);
        assert(before =~= padded(start, (chunk.index + 1) as nat));
        assert(before[index as int] == self.choices@[index as int]@);
        let ghost first = before[index as int];
        let CompletionChunk { model: _, index: _, delta, finish_reason, usage, request_id } = chunk;
        {
            let acc = &mut self.choices[index];
            match &delta.content {
                Some(more) => acc.content.append(more.as_str()),
                None => {
                    assert(acc.content@ + Seq::<char>::empty() =~= acc.content@);
                },
            }
            match &delta.reasoning {
                Some(more) => acc.reasoning.append(more.as_str()),
                None => {
                    assert(acc.reasoning@ + Seq::<char>::empty() =~= acc.reasoning@);
                },
            }
            merge_all(&mut acc.tool_deltas, &delta.tool_calls);
            if let Some(reason) = finish_reason {
                acc.finish_reason = reason;
            }
            if delta.logprobs.is_some() {
                acc.logprobs = delta.logprobs;
            }
        }
        assert(accs_view(self.choices@) =~= before.update(index as int, with_chunk(first, chunk)));
        if usage.is_some() {
            self.usage = usage;
        }
        if request_id.is_some() {
            self.request_id = request_id;
        }
    }

    /// The answers of a stream that has ended. A stream without any piece is an error.
    pub fn finish(self, adapter: &str, model: &str) -> (r: Result<CompletionResponse, AdapterError>)
        ensures
            !self.saw_chunk ==> (r matches Err(e) && e@ == (ErrorView::Stream {
                adapter: adapter@,
                message: "stream ended without any chunk"@,
            })),
            self.saw_chunk ==> (r matches Ok(response) && {
                &&& response.model@ == model@
                &&& response.usage == self.usage
                &&& response.request_id == self.request_id
                &&& response.choices@.len() == self.choices@.len()
                &&& forall|i: int|
                    0 <= i < self.choices@.len() ==> is_finished(
                        #[trigger] response.choices@[i],
                        self.choices@[i]@,
                    )
            }),
    {
        if !self.saw_chunk {
            return Err(
                AdapterError::Stream {
                    adapter: adapter.to_owned(),
                    message: "stream ended without any chunk".to_owned(),
                },
            );
        }
        let Aggregator { choices: accs, usage, request_id, saw_chunk: _ } = self;
        let ghost all = accs@;
        let mut rest = accs;
        let mut choices: Vec<CompletionChoice> = Vec::new();
        while rest.len() > 0
            invariant
                choices@.len() + rest@.len() == all.len(),
                rest@ == all.skip(choices@.len() as int),
                forall|i: int|
                    0 <= i < choices@.len() ==> is_finished(#[trigger] choices@[i], all[i]@),
            decreases rest@.len(),
        {
            let ghost k = choices@.len() as int;
            let acc = rest.remove(0);
            assert(acc == all[k]);
            assert(rest@ =~= all.skip(k + 1));
            choices.push(finish_choice(acc));
        }
        Ok(CompletionResponse { model: model.to_owned(), choices, usage, request_id })
    }
}

/// Joins pieces of tool calls to the pieces before them.
fn merge_all(acc: &mut Vec<ToolCallDelta>, deltas: &Vec<ToolCallDelta>)
    ensures
        deltas_view(final(acc)@) == with_deltas(
            deltas_view(old(acc)@),
            deltas_view(deltas@),
            deltas@.len() as int,
        ),
{
    let ghost start = deltas_view(acc@);
    let mut i: usize = 0;
    while i < deltas.len()
        invariant
            i <= deltas@.len(),
            deltas_view(acc@) == with_deltas(start, deltas_view(deltas@), i as int),
        decreases deltas@.len() - i,
    {
        assert(deltas_view(deltas@)[i as int] == deltas@[i as int]@);
        merge_tool_call_delta(acc, &deltas[i]);
        i += 1;
    }
}

/// An answer that is complete.
fn finish_choice(acc: ChoiceAccumulator) -> (r: CompletionChoice)
    ensures
        is_finished(r, acc@),
{
    let ChoiceAccumulator { content, tool_deltas, finish_reason, logprobs, reasoning } = acc;
    let ghost all = tool_deltas@;
    let ghost deltas = deltas_view(all);
    let mut rest = tool_deltas;
    let mut tool_calls: Vec<ToolCall> = Vec::new();
    while rest.len() > 0
        invariant
            deltas == deltas_view(all),
            tool_calls@.len() + rest@.len() == all.len(),
            rest@ == all.skip(tool_calls@.len() as int),
            calls_view(tool_calls@) == finished_calls(deltas).take(tool_calls@.len() as int),
        decreases rest@.len(),
    {
        let ghost k = tool_calls@.len() as int;
        let ghost before = calls_view(tool_calls@);
        let delta = rest.remove(0);
        assert(delta == all[k]);
        assert(deltas[k] == delta@);
        assert(rest@ =~= all.skip(k + 1));
        let call = ToolCall {
            id: text::unwrap_or_empty(delta.id),
            name: text::unwrap_or_empty(delta.name),
            arguments: parse_arguments(delta.arguments_delta),
        };
        tool_calls.push(call);
        assert(calls_view(tool_calls@) =~= before.push(call@));
        assert(finished_calls(deltas).take(k + 1) =~= finished_calls(deltas).take(k).push(
            finished_calls(deltas)[k],
        ));
    }
    assert(finished_calls(deltas).take(tool_calls@.len() as int) =~= finished_calls(deltas));
    let thought = if reasoning.as_str().is_empty() {
        None
    } else {
        Some(reasoning)
    };
    CompletionChoice { content, tool_calls, finish_reason, logprobs, reasoning: thought }
}

/// The text of the first `n` pieces.
pub open spec fn pieces_text(chunks: Seq<CompletionChunk>, n: int) -> Seq<char>
    decreases n,
{
    if n <= 0 {
        Seq::empty()
    } else {
        pieces_text(chunks, n - 1) + match chunks[n - 1].delta.content {
            Some(content) => content@,
            None => Seq::empty(),
        }
    }
}

/// The text of an answer in pieces.
pub fn reply_text(chunks: &Vec<CompletionChunk>) -> (r: String)
    ensures
        r@ == pieces_text(chunks@, chunks@.len() as int),
{
    let mut out = String::new();
    let mut i: usize = 0;
    assert(out@ =~= Seq::<char>::empty());
    while i < chunks.len()
        invariant
            i <= chunks@.len(),
            out@ == pieces_text(chunks@, i as int),
        decreases chunks@.len() - i,
    {
        let ghost before = out@;
        if let Some(content) = chunks[i].content() {
            out.append(content);
        }
        assert(out@ =~= pieces_text(chunks@, i + 1));
        i += 1;
    }
    out
}

// ---------------------------------------------------------------------------------------------
// What an adapter need not offer
// ---------------------------------------------------------------------------------------------
/// The error of an adapter that does not list its models.
pub fn no_listing(adapter: &str) -> (r: AdapterError)
    ensures
        r@ == (ErrorView::Unsupported { adapter: adapter@, feature: "model listing"@ }),
{
    AdapterError::Unsupported {
        adapter: adapter.to_owned(),
        feature: "model listing".to_owned(),
    }
}

/// The error of an adapter that does not describe its models.
pub fn no_retrieval(adapter: &str, id: &str) -> (r: AdapterError)
    ensures
        r@ == (ErrorView::Unsupported {
            adapter: adapter@,
            feature: "model retrieval for "@ + id@,
        }),
{
    AdapterError::Unsupported {
        adapter: adapter.to_owned(),
        feature: text::glue("model retrieval for ", id),
    }
}

} // verus!
