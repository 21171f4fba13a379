//! Requests to and answers from an OpenAI server, as they go over the wire.

use crate::adapter::error::AdapterError;
use crate::adapter::types::{
    calls_view, copy_texts, deltas_view, effort_name, opt_calls_view, opt_views, parse_finish_reason,
    parse_role, parts_view, reason_named, role_name, role_named, AudioFormat, ChunkDelta,
    CompletionChunk, CompletionRequest, ContentLogprobs, ContentPart, ContentView, DeltaView,
    ImageDetail, LogprobToken, Message, MessageContent, ModelInfo, PartView, ReasoningEffort,
    ResponseFormat, TokenUsage, ToolCall, ToolCallDelta, ToolCallView, ToolChoice, ToolChoiceView,
    ToolDefinition, ToolView, ChatView, FormatView,
};
use crate::json;
use crate::json::{json_printed, Json};
use crate::number::Single;
use crate::text;
use crate::text::{has_prefix, opt_text};
use vstd::prelude::*;

verus! {

/// The name of an effort that is sent; no reasoning at all is not sent.
pub open spec fn sent_effort(effort: Option<ReasoningEffort>) -> Option<Seq<char>> {
    match effort {
        Some(ReasoningEffort::NoReasoning) => None,
        Some(effort) => Some(effort_name(effort)),
        None => None,
    }
}

/// The name of an effort that is sent.
pub fn openai_effort(effort: ReasoningEffort) -> (r: Option<&'static str>)
    ensures
        match sent_effort(Some(effort)) {
            Some(name) => r matches Some(s) && s@ == name,
            None => r is None,
        },
{
    match effort {
        ReasoningEffort::NoReasoning => None,
        other => Some(other.as_str()),
    }
}

/// Whether a model takes parameters of sampling.
pub open spec fn samples(model: Seq<char>) -> bool {
    has_prefix(model, "gpt-4"@)
}

/// Whether a model takes parameters of sampling.
pub fn supports_sampling(model: &str) -> (r: bool)
    ensures
        r == samples(model@),
{
    text::starts_with(text::chars_of(model).as_slice(), "gpt-4")
}

// ---------------------------------------------------------------------------------------------
// Requests
// ---------------------------------------------------------------------------------------------
/// A request, as it is sent.
#[derive(Debug)]
pub struct WireChatCompletionRequest {
    pub model: String,
    pub messages: Vec<WireMessage>,
    pub temperature: Option<Single>,
    pub top_p: Option<Single>,
    pub max_completion_tokens: Option<u32>,
    pub seed: Option<u64>,
    pub stop: Option<Vec<String>>,
    pub presence_penalty: Option<Single>,
    pub frequency_penalty: Option<Single>,
    pub user: Option<String>,
    pub response_format: Option<WireResponseFormat>,
    pub tools: Option<Vec<WireTool>>,
    pub tool_choice: Option<WireToolChoice>,
    pub logprobs: Option<bool>,
    pub top_logprobs: Option<u8>,
    pub reasoning_effort: Option<String>,
    pub parallel_tool_calls: Option<bool>,
    pub n: Option<u32>,
    pub stream: bool,
    pub stream_options: Option<WireStreamOptions>,
}

/// The form of an answer, as it is sent.
#[derive(Debug)]
pub enum WireResponseFormat {
    JsonObject,
    JsonSchema { json_schema: WireJsonSchema },
}

/// The schema of an answer, as it is sent.
#[derive(Debug)]
pub struct WireJsonSchema {
    pub name: String,
    pub schema: Json,
    pub strict: Option<bool>,
}

/// A message, as it is sent.
#[derive(Debug)]
pub struct WireMessage {
    pub role: String,
    pub name: Option<String>,
    pub content: Option<WireContent>,
    pub tool_calls: Option<Vec<WireRequestToolCall>>,
    pub tool_call_id: Option<String>,
}

/// What a message says, as it is sent.
#[derive(Debug)]
pub enum WireContent {
    Text(String),
    Parts(Vec<WireContentPart>),
}

/// A part of a message, as it is sent.
#[derive(Debug)]
pub enum WireContentPart {
    Text { text: String },
    ImageUrl { image_url: WireImageUrl },
    InputAudio { input_audio: WireInputAudio },
}

/// An image, as it is sent.
#[derive(Debug)]
pub struct WireImageUrl {
    pub url: String,
    pub detail: Option<String>,
}

/// A recording, as it is sent.
#[derive(Debug)]
pub struct WireInputAudio {
    pub data: String,
    pub format: String,
}

/// The name of a detail.
pub open spec fn detail_name(detail: ImageDetail) -> Seq<char> {
    match detail {
        ImageDetail::Low => "low"@,
        ImageDetail::High => "high"@,
        ImageDetail::Auto => "auto"@,
    }
}

/// The name of a format.
pub open spec fn format_name(format: AudioFormat) -> Seq<char> {
    match format {
        AudioFormat::Wav => "wav"@,
        AudioFormat::Mp3 => "mp3"@,
    }
}

/// The name of a detail.
pub fn image_detail(detail: ImageDetail) -> (r: String)
    ensures
        r@ == detail_name(detail),
{
    match detail {
        ImageDetail::Low => "low".to_owned(),
        ImageDetail::High => "high".to_owned(),
        ImageDetail::Auto => "auto".to_owned(),
    }
}

/// The name of a format.
pub fn audio_format(format: AudioFormat) -> (r: String)
    ensures
        r@ == format_name(format),
{
    match format {
        AudioFormat::Wav => "wav".to_owned(),
        AudioFormat::Mp3 => "mp3".to_owned(),
    }
}

/// Whether `wire` is the part `part`.
pub open spec fn is_part(wire: WireContentPart, part: PartView) -> bool {
    match part {
        PartView::Text { text } => wire matches WireContentPart::Text { text: t } && t@ == text,
        PartView::ImageUrl { url, detail } => wire matches WireContentPart::ImageUrl { image_url }
            && image_url.url@ == url && opt_text(image_url.detail) == Some(detail_name(detail)),
        PartView::InputAudio { data, format } => wire matches WireContentPart::InputAudio {
            input_audio,
        } && input_audio.data@ == data && input_audio.format@ == format_name(format),
    }
}

impl WireContentPart {
    /// A part as it is sent.
    pub fn from_part(part: &ContentPart) -> (r: Self)
        ensures
            is_part(r, part@),
    {
        match part {
            ContentPart::Text { text } => WireContentPart::Text { text: text.clone() },
            ContentPart::ImageUrl { url, detail } => WireContentPart::ImageUrl {
                image_url: WireImageUrl { url: url.clone(), detail: Some(image_detail(*detail)) },
            },
            ContentPart::InputAudio { data, format } => WireContentPart::InputAudio {
                input_audio: WireInputAudio { data: data.clone(), format: audio_format(*format) },
            },
        }
    }
}

/// Whether `wire` is what a message says; an empty text is not sent.
pub open spec fn is_content(wire: Option<WireContent>, content: ContentView) -> bool {
    match content {
        ContentView::Text(text) => if text.len() == 0 {
            wire is None
        } else {
            wire matches Some(WireContent::Text(t)) && t@ == text
        },
        ContentView::Parts(parts) => wire matches Some(WireContent::Parts(w)) && w@.len()
            == parts.len() && forall|i: int|
            0 <= i < parts.len() ==> is_part(#[trigger] w@[i], parts[i]),
    }
}

/// Whether `wire` is the message `message`.
pub open spec fn is_message(wire: WireMessage, message: ChatView) -> bool {
    &&& wire.role@ == role_name(message.role)
    &&& opt_text(wire.name) == message.name
    &&& is_content(wire.content, message.content)
    &&& are_calls(wire.tool_calls, message.tool_calls)
    &&& opt_text(wire.tool_call_id) == message.tool_call_id
}

fn wire_content(content: &MessageContent) -> (r: Option<WireContent>)
    ensures
        is_content(r, content@),
{
    match content {
        MessageContent::Text(text) => if text.as_str().is_empty() {
            None
        } else {
            Some(WireContent::Text(text.clone()))
        },
        MessageContent::Parts(parts) => {
            let ghost all = parts_view(parts@);
            let mut out: Vec<WireContentPart> = Vec::new();
            let mut i: usize = 0;
            while i < parts.len()
                invariant
                    i <= parts@.len(),
                    all == parts_view(parts@),
                    out@.len() == i,
                    forall|k: int| 0 <= k < i ==> is_part(#[trigger] out@[k], all[k]),
                decreases parts@.len() - i,
            {
                assert(all[i as int] == parts@[i as int]@);
                out.push(WireContentPart::from_part(&parts[i]));
                i += 1;
            }
            Some(WireContent::Parts(out))
        },
    }
}

impl WireMessage {
    /// A message as it is sent.
    pub fn from_message(message: &Message) -> (r: Result<Self, AdapterError>)
        ensures
            r matches Ok(wire) && is_message(wire, message@),
    {
        Ok(
            WireMessage {
                role: message.role.as_str().to_owned(),
                name: text::copy_opt(&message.name),
                content: wire_content(&message.content),
                tool_calls: wire_calls(&message.tool_calls),
                tool_call_id: text::copy_opt(&message.tool_call_id),
            },
        )
    }
}

/// Whether `wire` is the form of an answer; plain text is not sent.
pub open spec fn is_format(wire: Option<WireResponseFormat>, format: Option<FormatView>) -> bool {
    match format {
        Some(FormatView::JsonObject) => wire matches Some(WireResponseFormat::JsonObject),
        Some(FormatView::JsonSchema { name, schema, strict }) => wire matches Some(
            WireResponseFormat::JsonSchema { json_schema },
        ) && json_schema.name@ == name && json_schema.schema@ == schema && json_schema.strict
            == strict,
        _ => wire is None,
    }
}

/// The form of an answer that a request asks for.
pub open spec fn format_of(format: Option<ResponseFormat>) -> Option<FormatView> {
    match format {
        Some(format) => Some(format@),
        None => None,
    }
}

fn wire_format(format: &Option<ResponseFormat>) -> (r: Option<WireResponseFormat>)
    ensures
        is_format(r, format_of(*format)),
{
    match format {
        Some(ResponseFormat::JsonObject) => Some(WireResponseFormat::JsonObject),
        Some(ResponseFormat::JsonSchema { name, schema, strict }) => Some(
            WireResponseFormat::JsonSchema {
                json_schema: WireJsonSchema {
                    name: name.clone(),
                    schema: schema.duplicate(),
                    strict: *strict,
                },
            },
        ),
        Some(ResponseFormat::Text) => None,
        None => None,
    }
}

/// Whether `wire` is the request `request`. Temperature, share of probability and user are sent to
/// models that sample only.
pub open spec fn is_request(wire: WireChatCompletionRequest, request: CompletionRequest) -> bool {
    let params = request.params;
    let sampling = samples(request.model@);
    &&& wire.model@ == request.model@
    &&& wire.messages@.len() == request.messages@.len()
    &&& forall|i: int|
        0 <= i < request.messages@.len() ==> is_message(
            #[trigger] wire.messages@[i],
            request.messages@[i]@,
        )
    &&& wire.temperature == match params.temperature {
        Some(t) => if sampling {
            Some(t.value)
        } else {
            None
        },
        None => None,
    }
    &&& wire.top_p == match params.top_p {
        Some(p) => if sampling {
            Some(p.value)
        } else {
            None
        },
        None => None,
    }
    &&& wire.max_completion_tokens == params.max_tokens
    &&& wire.seed == params.seed
    &&& opt_views(wire.stop) == opt_views(params.stop)
    &&& wire.presence_penalty == match params.presence_penalty {
        Some(p) => Some(p.value),
        None => None,
    }
    &&& wire.frequency_penalty == match params.frequency_penalty {
        Some(p) => Some(p.value),
        None => None,
    }
    &&& opt_text(wire.user) == if sampling {
        opt_text(params.user)
    } else {
        None
    }
    &&& is_format(wire.response_format, format_of(params.response_format))
    &&& are_tools(wire.tools, params.tools)
    &&& match params.tool_choice {
        Some(choice) => wire.tool_choice matches Some(w) && is_choice(w, choice@),
        None => wire.tool_choice is None,
    }
    &&& wire.logprobs == params.logprobs
    &&& wire.top_logprobs == params.top_logprobs
    &&& opt_text(wire.reasoning_effort) == sent_effort(params.reasoning_effort)
    &&& wire.parallel_tool_calls == params.parallel_tool_calls
    &&& wire.n == params.n
    &&& wire.stream
    &&& wire.stream_options == Some(WireStreamOptions { include_usage: true })
}

impl WireChatCompletionRequest {
    /// A request as it is sent.
    pub fn from_request(request: &CompletionRequest) -> (r: Result<Self, AdapterError>)
        ensures
            r matches Ok(wire) && is_request(wire, *request),
    {
        let params = &request.params;
        let mut messages: Vec<WireMessage> = Vec::new();
        let mut i: usize = 0;
        while i < request.messages.len()
            invariant
                i <= request.messages@.len(),
                messages@.len() == i,
                forall|k: int|
                    0 <= k < i ==> is_message(#[trigger] messages@[k], request.messages@[k]@),
            decreases request.messages@.len() - i,
        {
            match WireMessage::from_message(&request.messages[i]) {
                Ok(message) => messages.push(message),
                Err(e) => {
                    return Err(e);
                },
            }
            i += 1;
        }
        let sampling = supports_sampling(request.model.as_str());
        let temperature = match params.temperature {
            Some(t) => if sampling {
                Some(t.get())
            } else {
                None
            },
            None => None,
        };
        let top_p = match params.top_p {
            Some(p) => if sampling {
                Some(p.get())
            } else {
                None
            },
            None => None,
        };
        let presence_penalty = match params.presence_penalty {
            Some(p) => Some(p.get()),
            None => None,
        };
        let frequency_penalty = match params.frequency_penalty {
            Some(p) => Some(p.get()),
            None => None,
        };
        let user = if sampling {
            text::copy_opt(&params.user)
        } else {
            None
        };
        let tool_choice = match &params.tool_choice {
            Some(choice) => Some(WireToolChoice::from_choice(choice)),
            None => None,
        };
        let reasoning_effort = match params.reasoning_effort {
            Some(effort) => match openai_effort(effort) {
                Some(name) => Some(name.to_owned()),
                None => None,
            },
            None => None,
        };
        Ok(
            WireChatCompletionRequest {
                model: request.model.clone(),
                messages,
                temperature,
                top_p,
                max_completion_tokens: params.max_tokens,
                seed: params.seed,
                stop: copy_texts(&params.stop),
                presence_penalty,
                frequency_penalty,
                user,
                response_format: wire_format(&params.response_format),
                tools: wire_tools(&params.tools),
                tool_choice,
                logprobs: params.logprobs,
                top_logprobs: params.top_logprobs,
                reasoning_effort,
                parallel_tool_calls: params.parallel_tool_calls,
                n: params.n,
                stream: true,
                stream_options: Some(WireStreamOptions { include_usage: true }),
            },
        )
    }
}

// ---------------------------------------------------------------------------------------------
// Tool calls and tools in a request
// ---------------------------------------------------------------------------------------------
/// A tool call in a request.
#[derive(Debug)]
pub struct WireRequestToolCall {
    pub id: String,
    pub kind: String,
    pub function: WireFunctionCall,
}

/// The function of a tool call in a request, with its arguments as JSON text.
#[derive(Debug)]
pub struct WireFunctionCall {
    pub name: String,
    pub arguments: String,
}

/// Whether `wire` is the tool call `call`.
pub open spec fn is_call(wire: WireRequestToolCall, call: ToolCallView) -> bool {
    &&& wire.id@ == call.id
    &&& wire.kind@ == "function"@
    &&& wire.function.name@ == call.name
    &&& wire.function.arguments@ == json_printed(call.arguments)
}

/// Whether `wire` are the tool calls of a message.
pub open spec fn are_calls(
    wire: Option<Vec<WireRequestToolCall>>,
    calls: Option<Seq<ToolCallView>>,
) -> bool {
    match calls {
        Some(calls) => wire matches Some(wire) && wire@.len() == calls.len() && forall|i: int|
            0 <= i < calls.len() ==> is_call(#[trigger] wire@[i], calls[i]),
        None => wire is None,
    }
}

fn wire_calls(calls: &Option<Vec<ToolCall>>) -> (r: Option<Vec<WireRequestToolCall>>)
    ensures
        are_calls(r, opt_calls_view(*calls)),
{
    match calls {
        Some(calls) => {
            let ghost all = calls_view(calls@);
            let mut out: Vec<WireRequestToolCall> = Vec::new();
            let mut i: usize = 0;
            while i < calls.len()
                invariant
                    i <= calls@.len(),
                    all == calls_view(calls@),
                    out@.len() == i,
                    forall|k: int| 0 <= k < i ==> is_call(#[trigger] out@[k], all[k]),
                decreases calls@.len() - i,
            {
                let call = &calls[i];
                assert(all[i as int] == call@);
                out.push(
                    WireRequestToolCall {
                        id: call.id.clone(),
                        kind: "function".to_owned(),
                        function: WireFunctionCall {
                            name: call.name.clone(),
                            arguments: json::print_json(&call.arguments),
                        },
                    },
                );
                i += 1;
            }
            Some(out)
        },
        None => None,
    }
}

/// A tool in a request.
#[derive(Debug)]
pub enum WireTool {
    Function { function: WireFunction },
}

/// A function in a request.
#[derive(Debug)]
pub struct WireFunction {
    pub name: String,
    pub description: Option<String>,
    pub parameters: Json,
    pub strict: Option<bool>,
}

/// Whether `wire` is the tool `tool`.
pub open spec fn is_tool(wire: WireTool, tool: ToolView) -> bool {
    match wire {
        WireTool::Function { function } => {
            &&& function.name@ == tool.name
            &&& opt_text(function.description) == tool.description
            &&& function.parameters@ == tool.schema
            &&& function.strict == tool.strict
        },
    }
}

/// Whether `wire` are the tools of a request.
pub open spec fn are_tools(
    wire: Option<Vec<WireTool>>,
    tools: Option<Vec<ToolDefinition>>,
) -> bool {
    match tools {
        Some(tools) => wire matches Some(wire) && wire@.len() == tools@.len() && forall|i: int|
            0 <= i < tools@.len() ==> is_tool(#[trigger] wire@[i], tools@[i]@),
        None => wire is None,
    }
}

impl WireTool {
    /// A tool as it is sent.
    pub fn from_definition(tool: &ToolDefinition) -> (r: Self)
        ensures
            is_tool(r, tool@),
    {
        match tool {
            ToolDefinition::Function { function } => WireTool::Function {
                function: WireFunction {
                    name: function.name.clone(),
                    description: text::copy_opt(&function.description),
                    parameters: function.parameters.schema.duplicate(),
                    strict: function.strict,
                },
            },
        }
    }
}

fn wire_tools(tools: &Option<Vec<ToolDefinition>>) -> (r: Option<Vec<WireTool>>)
    ensures
        are_tools(r, *tools),
{
    match tools {
        Some(tools) => {
            let mut out: Vec<WireTool> = Vec::new();
            let mut i: usize = 0;
            while i < tools.len()
                invariant
                    i <= tools@.len(),
                    out@.len() == i,
                    forall|k: int| 0 <= k < i ==> is_tool(#[trigger] out@[k], tools@[k]@),
                decreases tools@.len() - i,
            {
                out.push(WireTool::from_definition(&tools[i]));
                i += 1;
            }
            Some(out)
        },
        None => None,
    }
}

/// Which tools a model may or must call, as it is sent.
#[derive(Debug)]
pub enum WireToolChoice {
    Mode(WireToolChoiceMode),
    Function { kind: String, function: WireNamedFunction },
}

/// A choice among all tools.
#[derive(Debug, Clone, Copy, PartialEq, Eq, Structural)]
pub enum WireToolChoiceMode {
    Auto,
    NoTool,
    Required,
}

/// The name of a function in a request.
#[derive(Debug)]
pub struct WireNamedFunction {
    pub name: String,
}

/// Whether `wire` is the choice `choice`.
pub open spec fn is_choice(wire: WireToolChoice, choice: ToolChoiceView) -> bool {
    match choice {
        ToolChoiceView::Auto => wire matches WireToolChoice::Mode(WireToolChoiceMode::Auto),
        ToolChoiceView::NoTool => wire matches WireToolChoice::Mode(WireToolChoiceMode::NoTool),
        ToolChoiceView::Required => wire matches WireToolChoice::Mode(WireToolChoiceMode::Required),
        ToolChoiceView::Named { kind, name } => wire matches WireToolChoice::Function {
            kind: k,
            function,
        } && k@ == kind && function.name@ == name,
    }
}

impl WireToolChoice {
    /// A choice as it is sent.
    pub fn from_choice(choice: &ToolChoice) -> (r: Self)
        ensures
            is_choice(r, choice@),
    {
        match choice {
            ToolChoice::Auto => WireToolChoice::Mode(WireToolChoiceMode::Auto),
            ToolChoice::NoTool => WireToolChoice::Mode(WireToolChoiceMode::NoTool),
            ToolChoice::Required => WireToolChoice::Mode(WireToolChoiceMode::Required),
            ToolChoice::Named { kind, function } => WireToolChoice::Function {
                kind: kind.clone(),
                function: WireNamedFunction { name: function.name.clone() },
            },
        }
    }
}

/// What a stream reports besides the answer.
#[derive(Debug, Clone, Copy, PartialEq, Eq, Structural)]
pub struct WireStreamOptions {
    pub include_usage: bool,
}

// ---------------------------------------------------------------------------------------------
// Pieces of an answer
// ---------------------------------------------------------------------------------------------
/// A piece of a stream, as it arrives.
#[derive(Debug)]
pub struct WireChatCompletionChunk {
    pub id: String,
    pub model: String,
    pub choices: Vec<WireChunkChoice>,
    pub usage: Option<WireUsage>,
}

/// What a piece of a stream adds to one answer.
#[derive(Debug)]
pub struct WireChunkChoice {
    pub index: u32,
    pub delta: WireDelta,
    pub finish_reason: Option<String>,
}

/// The contents of a piece of a stream.
#[derive(Debug)]
pub struct WireDelta {
    pub role: Option<String>,
    pub content: Option<String>,
    pub tool_calls: Vec<WireToolCallDelta>,
    pub logprobs: Option<WireChunkLogprobs>,
}

/// A piece of a tool call.
#[derive(Debug)]
pub struct WireToolCallDelta {
    pub index: u32,
    pub id: Option<String>,
    pub function: Option<WireFunctionDelta>,
}

/// A piece of the function of a tool call.
#[derive(Debug)]
pub struct WireFunctionDelta {
    pub name: Option<String>,
    pub arguments: Option<String>,
}

/// The probabilities in a piece of a stream.
#[derive(Debug)]
pub struct WireChunkLogprobs {
    pub content: Vec<WireLogprobToken>,
}

/// A token with the logarithm of its probability.
#[derive(Debug)]
pub struct WireLogprobToken {
    pub token: String,
    pub logprob: Single,
}

/// What an answer cost, as it arrives.
#[derive(Debug, Clone, Copy, PartialEq, Eq, Structural)]
pub struct WireUsage {
    pub prompt_tokens: u32,
    pub completion_tokens: u32,
    pub total_tokens: u32,
}

impl WireUsage {
    /// The cost.
    pub fn usage(self) -> (r: TokenUsage)
        ensures
            r == usage_of(self),
    {
        TokenUsage {
            prompt_tokens: self.prompt_tokens,
            completion_tokens: self.completion_tokens,
            total_tokens: self.total_tokens,
        }
    }
}

/// The cost that is reported.
pub open spec fn usage_of(wire: WireUsage) -> TokenUsage {
    TokenUsage {
        prompt_tokens: wire.prompt_tokens,
        completion_tokens: wire.completion_tokens,
        total_tokens: wire.total_tokens,
    }
}

/// The cost that is reported, if any.
pub open spec fn opt_usage(wire: Option<WireUsage>) -> Option<TokenUsage> {
    match wire {
        Some(wire) => Some(usage_of(wire)),
        None => None,
    }
}

/// The piece of a tool call that arrived.
pub open spec fn delta_of(wire: WireToolCallDelta) -> DeltaView {
    DeltaView {
        index: wire.index,
        id: opt_text(wire.id),
        name: match wire.function {
            Some(function) => opt_text(function.name),
            None => None,
        },
        arguments_delta: match wire.function {
            Some(function) => opt_text(function.arguments),
            None => None,
        },
    }
}

/// Whether `logprobs` are the probabilities that arrived.
pub open spec fn are_logprobs(
    logprobs: Option<ContentLogprobs>,
    wire: Option<WireChunkLogprobs>,
) -> bool {
    match wire {
        Some(wire) => logprobs matches Some(found) && found.tokens@.len() == wire.content@.len()
            && forall|i: int|
            0 <= i < wire.content@.len() ==> (#[trigger] found.tokens@[i]).token@
                == wire.content@[i].token@ && found.tokens@[i].logprob == wire.content@[i].logprob,
        None => logprobs is None,
    }
}

/// Whether `chunk` is what arrived for one answer.
pub open spec fn is_chunk(
    chunk: CompletionChunk,
    model: Seq<char>,
    id: Seq<char>,
    usage: Option<TokenUsage>,
    choice: WireChunkChoice,
) -> bool {
    &&& chunk.model@ == model
    &&& chunk.index == choice.index
    &&& chunk.delta.role == match choice.delta.role {
        Some(role) => role_named(role@),
        None => None,
    }
    &&& opt_text(chunk.delta.content) == opt_text(choice.delta.content)
    &&& deltas_view(chunk.delta.tool_calls@) == Seq::new(
        choice.delta.tool_calls@.len(),
        |i: int| delta_of(choice.delta.tool_calls@[i]),
    )
    &&& are_logprobs(chunk.delta.logprobs, choice.delta.logprobs)
    &&& opt_text(chunk.delta.reasoning) == None::<Seq<char>>
    &&& chunk.finish_reason == match choice.finish_reason {
        Some(reason) => Some(reason_named(reason@)),
        None => None,
    }
    &&& chunk.usage == usage
    &&& opt_text(chunk.request_id) == Some(id)
}

fn token_logprobs(wire: &Option<WireChunkLogprobs>) -> (r: Option<ContentLogprobs>)
    ensures
        are_logprobs(r, *wire),
{
    match wire {
        Some(wire) => {
            let mut tokens: Vec<LogprobToken> = Vec::new();
            let mut i: usize = 0;
            while i < wire.content.len()
                invariant
                    i <= wire.content@.len(),
                    tokens@.len() == i,
                    forall|k: int|
                        0 <= k < i ==> (#[trigger] tokens@[k]).token@ == wire.content@[k].token@
                            && tokens@[k].logprob == wire.content@[k].logprob,
                decreases wire.content@.len() - i,
            {
                tokens.push(
                    LogprobToken {
                        token: wire.content[i].token.clone(),
                        logprob: wire.content[i].logprob,
                    },
                );
                i += 1;
            }
            Some(ContentLogprobs { tokens })
        },
        None => None,
    }
}

fn call_deltas(wire: &Vec<WireToolCallDelta>) -> (r: Vec<ToolCallDelta>)
    ensures
        deltas_view(r@) == Seq::new(wire@.len(), |i: int| delta_of(wire@[i])),
{
    let mut out: Vec<ToolCallDelta> = Vec::new();
    let mut i: usize = 0;
    while i < wire.len()
        invariant
            i <= wire@.len(),
            out@.len() == i,
            forall|k: int| 0 <= k < i ==> (#[trigger] out@[k])@ == delta_of(wire@[k]),
        decreases wire@.len() - i,
    {
        let (name, arguments_delta) = match &wire[i].function {
            Some(function) => (text::copy_opt(&function.name), text::copy_opt(&function.arguments)),
            None => (None, None),
        };
        out.push(
            ToolCallDelta {
                index: wire[i].index,
                id: text::copy_opt(&wire[i].id),
                name,
                arguments_delta,
            },
        );
        i += 1;
    }
    assert(deltas_view(out@) =~= Seq::new(wire@.len(), |i: int| delta_of(wire@[i])));
    out
}

impl WireChatCompletionChunk {
    /// What arrived, one piece for each answer. A piece without answers still carries the cost.
    pub fn into_chunks(self) -> (r: Vec<CompletionChunk>)
        ensures
            self.choices@.len() == 0 ==> {
                &&& r@.len() == 1
                &&& r@[0].model@ == self.model@ && r@[0].index == 0
                &&& r@[0].delta.role is None && r@[0].delta.content is None
                &&& r@[0].delta.tool_calls@.len() == 0 && r@[0].delta.logprobs is None
                &&& r@[0].delta.reasoning is None && r@[0].finish_reason is None
                &&& r@[0].usage == opt_usage(self.usage)
                &&& opt_text(r@[0].request_id) == Some(self.id@)
            },
            self.choices@.len() > 0 ==> {
                &&& r@.len() == self.choices@.len()
                &&& forall|i: int|
                    0 <= i < r@.len() ==> is_chunk(
                        #[trigger] r@[i],
                        self.model@,
                        self.id@,
                        opt_usage(self.usage),
                        self.choices@[i],
                    )
            },
    {
        let usage = match self.usage {
            Some(usage) => Some(usage.usage()),
            None => None,
        };
        let mut out: Vec<CompletionChunk> = Vec::new();
        if self.choices.len() == 0 {
            out.push(
                CompletionChunk {
                    model: self.model,
                    index: 0,
                    delta: ChunkDelta::default(),
                    finish_reason: None,
                    usage,
                    request_id: Some(self.id),
                },
            );
            return out;
        }
        let mut i: usize = 0;
        while i < self.choices.len()
            invariant
                i <= self.choices@.len(),
                usage == opt_usage(self.usage),
                out@.len() == i,
                forall|k: int|
                    0 <= k < i ==> is_chunk(
                        #[trigger] out@[k],
                        self.model@,
                        self.id@,
                        opt_usage(self.usage),
                        self.choices@[k],
                    ),
            decreases self.choices@.len() - i,
        {
            let choice = &self.choices[i];
            let role = match &choice.delta.role {
                Some(role) => parse_role(role.as_str()),
                None => None,
            };
            let finish_reason = match &choice.finish_reason {
                Some(reason) => parse_finish_reason(reason.as_str()),
                None => None,
            };
            out.push(
                CompletionChunk {
                    model: self.model.clone(),
                    index: choice.index,
                    delta: ChunkDelta {
                        role,
                        content: text::copy_opt(&choice.delta.content),
                        tool_calls: call_deltas(&choice.delta.tool_calls),
                        logprobs: token_logprobs(&choice.delta.logprobs),
                        reasoning: None,
                    },
                    finish_reason,
                    usage,
                    request_id: Some(self.id.clone()),
                },
            );
            i += 1;
        }
        out
    }
}

// ---------------------------------------------------------------------------------------------
// Models
// ---------------------------------------------------------------------------------------------
/// The models that a server offers.
#[derive(Debug)]
pub struct WireModelList {
    pub data: Vec<WireModel>,
}

/// A model that a server offers.
#[derive(Debug)]
pub struct WireModel {
    pub id: String,
    pub object: Option<String>,
    pub owned_by: Option<String>,
    pub created: Option<u64>,
}

/// Whether `info` is the model that was reported.
pub open spec fn is_model(info: ModelInfo, wire: WireModel) -> bool {
    &&& info.id == wire.id && info.object == wire.object
    &&& info.owned_by == wire.owned_by && info.created_at == wire.created
}

impl WireModel {
    /// The model.
    pub fn into_info(self) -> (r: ModelInfo)
        ensures
            is_model(r, self),
    {
        ModelInfo {
            id: self.id,
            object: self.object,
            owned_by: self.owned_by,
            created_at: self.created,
        }
    }
}

impl WireModelList {
    /// The models, in the order in which the server lists them.
    pub fn into_infos(self) -> (r: Vec<ModelInfo>)
        ensures
            r@.len() == self.data@.len(),
            forall|i: int| 0 <= i < r@.len() ==> is_model(#[trigger] r@[i], self.data@[i]),
    {
        let ghost all = self.data@;
        let mut rest = self.data;
        let mut out: Vec<ModelInfo> = Vec::new();
        while rest.len() > 0
            invariant
                out@.len() + rest@.len() == all.len(),
                rest@ == all.skip(out@.len() as int),
                forall|i: int| 0 <= i < out@.len() ==> is_model(#[trigger] out@[i], all[i]),
            decreases rest@.len(),
        {
            let ghost k = out@.len() as int;
            let model = rest.remove(0);
            assert(model == all[k]);
            assert(rest@ =~= all.skip(k + 1));
            out.push(model.into_info());
        }
        out
    }
}

} // verus!
