//! Requests to and answers from a DeepSeek server, as they go over the wire.

use crate::adapter::error::{AdapterError, ErrorView};
use crate::adapter::types::{
    calls_view, copy_texts, deltas_view, opt_calls_view, opt_views, parse_finish_reason, parse_role,
    parts_view, reason_named, role_name, role_named, ChatView, ChunkDelta, CompletionChunk,
    CompletionRequest, ContentLogprobs, ContentPart, ContentView, DeltaView, LogprobToken, Message,
    MessageContent, ModelInfo, PartView, ReasoningEffort, ResponseFormat, TokenUsage, ToolCall,
    ToolCallDelta, ToolCallView, ToolChoice, ToolChoiceView, ToolDefinition, ToolView,
};
use crate::json;
use crate::json::{json_printed, Json};
use crate::number::Single;
use crate::text;
use crate::text::opt_text;
use vstd::prelude::*;

verus! {

/// Whether and how much the model thinks.
#[derive(Debug, Clone, Copy, PartialEq, Eq, Structural)]
pub struct ThinkingConfig {
    pub enabled: bool,
    pub reasoning_effort: Option<ReasoningEffort>,
}

impl ThinkingConfig {
    /// The model thinks.
    pub fn enabled() -> (r: Self)
        ensures
            r == (ThinkingConfig { enabled: true, reasoning_effort: None }),
    {
        ThinkingConfig { enabled: true, reasoning_effort: None }
    }

    /// The model does not think.
    pub fn disabled() -> (r: Self)
        ensures
            r == (ThinkingConfig { enabled: false, reasoning_effort: None }),
    {
        ThinkingConfig { enabled: false, reasoning_effort: None }
    }

    /// The same with an effort.
    pub fn with_effort(self, effort: ReasoningEffort) -> (r: Self)
        ensures
            r == (ThinkingConfig { reasoning_effort: Some(effort), ..self }),
    {
        ThinkingConfig { enabled: self.enabled, reasoning_effort: Some(effort) }
    }
}

/// The name of an effort that is sent: the server knows three of them.
pub open spec fn sent_effort(effort: Option<ReasoningEffort>) -> Option<Seq<char>> {
    match effort {
        Some(ReasoningEffort::Minimal) => Some("low"@),
        Some(ReasoningEffort::Low) => Some("low"@),
        Some(ReasoningEffort::Medium) => Some("high"@),
        Some(ReasoningEffort::High) => Some("high"@),
        Some(ReasoningEffort::XHigh) => Some("high"@),
        Some(ReasoningEffort::Max) => Some("max"@),
        Some(ReasoningEffort::NoReasoning) => None,
        None => None,
    }
}

/// The name of an effort that is sent.
pub fn deepseek_effort(effort: ReasoningEffort) -> (r: Option<&'static str>)
    ensures
        match sent_effort(Some(effort)) {
            Some(name) => r matches Some(s) && s@ == name,
            None => r is None,
        },
{
    match effort {
        ReasoningEffort::NoReasoning => None,
        ReasoningEffort::Minimal => Some("low"),
        ReasoningEffort::Low => Some("low"),
        ReasoningEffort::Medium => Some("high"),
        ReasoningEffort::High => Some("high"),
        ReasoningEffort::XHigh => Some("high"),
        ReasoningEffort::Max => Some("max"),
    }
}

// ---------------------------------------------------------------------------------------------
// Requests
// ---------------------------------------------------------------------------------------------
/// A request, as it is sent.
#[derive(Debug)]
pub struct WireDeepSeekChatCompletionRequest {
    pub model: String,
    pub messages: Vec<WireDeepSeekMessage>,
    pub thinking: Option<WireThinking>,
    pub max_tokens: Option<u32>,
    pub temperature: Option<Single>,
    pub top_p: Option<Single>,
    pub stop: Option<Vec<String>>,
    pub response_format: Option<WireDeepSeekResponseFormat>,
    pub tools: Option<Vec<WireDeepSeekTool>>,
    pub tool_choice: Option<WireDeepSeekToolChoice>,
    pub logprobs: Option<bool>,
    pub top_logprobs: Option<u8>,
    pub user_id: Option<String>,
    pub stream: bool,
    pub stream_options: Option<WireDeepSeekStreamOptions>,
}

/// Whether and how much the model thinks, as it is sent.
#[derive(Debug)]
pub struct WireThinking {
    pub kind: String,
    pub reasoning_effort: Option<String>,
}

/// The form of an answer, as it is sent.
#[derive(Debug, Clone, Copy, PartialEq, Eq, Structural)]
pub enum WireDeepSeekResponseFormat {
    JsonObject,
}

/// A message, as it is sent.
#[derive(Debug)]
pub struct WireDeepSeekMessage {
    pub role: String,
    pub name: Option<String>,
    pub content: Option<String>,
    pub reasoning_content: Option<String>,
    pub tool_calls: Option<Vec<WireDeepSeekRequestToolCall>>,
    pub tool_call_id: Option<String>,
}

/// Whether a message holds texts only.
pub open spec fn texts_only(content: ContentView) -> bool {
    match content {
        ContentView::Text(_) => true,
        ContentView::Parts(parts) => forall|i: int|
            0 <= i < parts.len() ==> (#[trigger] parts[i]) is Text,
    }
}

/// The texts of the parts of a message in a row.
pub open spec fn all_text(parts: Seq<PartView>) -> Seq<char>
    decreases parts.len(),
{
    if parts.len() == 0 {
        Seq::empty()
    } else {
        all_text(parts.drop_last()) + match parts.last() {
            PartView::Text { text } => text,
            _ => Seq::empty(),
        }
    }
}

/// What is sent of a message that holds texts only; an empty text is not sent.
pub open spec fn sent_text(content: ContentView) -> Option<Seq<char>> {
    let text = match content {
        ContentView::Text(text) => text,
        ContentView::Parts(parts) => all_text(parts),
    };
    if text.len() == 0 {
        None
    } else {
        Some(text)
    }
}

/// Whether `wire` is the message `message`.
pub open spec fn is_message(wire: WireDeepSeekMessage, message: ChatView) -> bool {
    &&& wire.role@ == role_name(message.role)
    &&& opt_text(wire.name) == message.name
    &&& opt_text(wire.content) == sent_text(message.content)
    &&& opt_text(wire.reasoning_content) == message.reasoning
    &&& are_calls(wire.tool_calls, message.tool_calls)
    &&& opt_text(wire.tool_call_id) == message.tool_call_id
}

/// The error for a message that holds more than texts.
pub open spec fn multimodal_error() -> ErrorView {
    ErrorView::InvalidRequest {
        adapter: "deepseek"@,
        message: "multimodal content parts are not supported by deepseek"@,
    }
}

/// The error for an answer by a schema.
pub open spec fn schema_error() -> ErrorView {
    ErrorView::InvalidRequest {
        adapter: "deepseek"@,
        message: "json_schema response format is not supported by deepseek; use JsonObject"@,
    }
}

fn text_of_parts(parts: &Vec<ContentPart>) -> (r: Option<String>)
    ensures
        match r {
            Some(text) => texts_only(ContentView::Parts(parts_view(parts@))) && text@ == all_text(
                parts_view(parts@),
            ),
            None => !texts_only(ContentView::Parts(parts_view(parts@))),
        },
{
    let ghost all = parts_view(parts@);
    let mut out = String::new();
    let mut i: usize = 0;
    assert(out@ =~= all_text(all.take(0)));
    while i < parts.len()
        invariant
            i <= parts@.len(),
            all == parts_view(parts@),
            forall|k: int| 0 <= k < i ==> (#[trigger] all[k]) is Text,
            out@ == all_text(all.take(i as int)),
        decreases parts@.len() - i,
    {
        proof {
            assert(all[i as int] == parts@[i as int]@);
            assert(all.take(i + 1).drop_last() =~= all.take(i as int));
            assert(all.take(i + 1).last() == all[i as int]);
        }
        match &parts[i] {
            ContentPart::Text { text } => {
                out.append(text.as_str());
            },
            _ => {
                assert(!(all[i as int] is Text));
                return None;
            },
        }
        i += 1;
    }
    assert(all.take(i as int) =~= all);
    Some(out)
}

impl WireDeepSeekMessage {
    /// A message as it is sent, which holds texts only.
    pub fn from_message(message: &Message) -> (r: Result<Self, AdapterError>)
        ensures
            match r {
                Ok(wire) => texts_only(message@.content) && is_message(wire, message@),
                Err(e) => !texts_only(message@.content) && e@ == multimodal_error(),
            },
    {
        let content = match &message.content {
            MessageContent::Text(text) => text.clone(),
            MessageContent::Parts(parts) => match text_of_parts(parts) {
                Some(text) => text,
                None => {
                    return Err(
                        AdapterError::invalid_request(
                            "deepseek",
                            "multimodal content parts are not supported by deepseek",
                        ),
                    );
                },
            },
        };
        let content = if content.as_str().is_empty() {
            None
        } else {
            Some(content)
        };
        Ok(
            WireDeepSeekMessage {
                role: message.role.as_str().to_owned(),
                name: text::copy_opt(&message.name),
                content,
                reasoning_content: text::copy_opt(&message.reasoning),
                tool_calls: wire_calls(&message.tool_calls),
                tool_call_id: text::copy_opt(&message.tool_call_id),
            },
        )
    }
}

/// Whether all messages of a request hold texts only.
pub open spec fn all_texts(messages: Seq<Message>) -> bool {
    forall|i: int| 0 <= i < messages.len() ==> texts_only((#[trigger] messages[i])@.content)
}

/// Whether the parameters of sampling are sent: only where the model is told not to think.
pub open spec fn samples(thinking: Option<ThinkingConfig>) -> bool {
    thinking matches Some(config) && !config.enabled
}

/// Whether `wire` says whether and how much the model thinks.
pub open spec fn is_thinking(wire: Option<WireThinking>, thinking: Option<ThinkingConfig>) -> bool {
    match thinking {
        Some(config) => wire matches Some(w) && {
            &&& w.kind@ == if config.enabled {
                "enabled"@
            } else {
                "disabled"@
            }
            &&& opt_text(w.reasoning_effort) == sent_effort(config.reasoning_effort)
        },
        None => wire is None,
    }
}

/// Whether `wire` is the request `request`.
pub open spec fn is_request(
    wire: WireDeepSeekChatCompletionRequest,
    request: CompletionRequest,
    thinking: Option<ThinkingConfig>,
) -> bool {
    let params = request.params;
    &&& wire.model@ == request.model@
    &&& wire.messages@.len() == request.messages@.len()
    &&& forall|i: int|
        0 <= i < request.messages@.len() ==> is_message(
            #[trigger] wire.messages@[i],
            request.messages@[i]@,
        )
    &&& is_thinking(wire.thinking, thinking)
    &&& wire.max_tokens == params.max_tokens
    &&& wire.temperature == match params.temperature {
        Some(t) => if samples(thinking) {
            Some(t.value)
        } else {
            None
        },
        None => None,
    }
    &&& wire.top_p == match params.top_p {
        Some(p) => if samples(thinking) {
            Some(p.value)
        } else {
            None
        },
        None => None,
    }
    &&& opt_views(wire.stop) == opt_views(params.stop)
    &&& wire.response_format == match params.response_format {
        Some(ResponseFormat::JsonObject) => Some(WireDeepSeekResponseFormat::JsonObject),
        _ => None,
    }
    &&& are_tools(wire.tools, params.tools)
    &&& match params.tool_choice {
        Some(choice) => wire.tool_choice matches Some(w) && is_choice(w, choice@),
        None => wire.tool_choice is None,
    }
    &&& wire.logprobs == params.logprobs
    &&& wire.top_logprobs == params.top_logprobs
    &&& opt_text(wire.user_id) == opt_text(params.user)
    &&& wire.stream
    &&& wire.stream_options == Some(WireDeepSeekStreamOptions { include_usage: true })
}

impl WireDeepSeekChatCompletionRequest {
    /// A request as it is sent. Messages must hold texts only, and the answer must not follow a
    /// schema.
    pub fn from_request(request: &CompletionRequest, thinking: Option<ThinkingConfig>) -> (r: Result<
        Self,
        AdapterError,
    >)
        ensures
            match r {
                Ok(wire) => {
                    &&& all_texts(request.messages@)
                    &&& !(request.params.response_format matches Some(
                        ResponseFormat::JsonSchema { .. },
                    ))
                    &&& is_request(wire, *request, thinking)
                },
                Err(e) => if all_texts(request.messages@) {
                    request.params.response_format matches Some(ResponseFormat::JsonSchema { .. })
                        && e@ == schema_error()
                } else {
                    e@ == multimodal_error()
                },
            },
    {
        let params = &request.params;
        let mut messages: Vec<WireDeepSeekMessage> = Vec::new();
        let mut i: usize = 0;
        while i < request.messages.len()
            invariant
                i <= request.messages@.len(),
                messages@.len() == i,
                forall|k: int|
                    0 <= k < i ==> texts_only((#[trigger] request.messages@[k])@.content),
                forall|k: int|
                    0 <= k < i ==> is_message(#[trigger] messages@[k], request.messages@[k]@),
            decreases request.messages@.len() - i,
        {
            match WireDeepSeekMessage::from_message(&request.messages[i]) {
                Ok(message) => messages.push(message),
                Err(e) => {
                    assert(!texts_only(request.messages@[i as int]@.content));
                    return Err(e);
                },
            }
            i += 1;
        }
        let response_format = match &params.response_format {
            None => None,
            Some(ResponseFormat::Text) => None,
            Some(ResponseFormat::JsonObject) => Some(WireDeepSeekResponseFormat::JsonObject),
            Some(ResponseFormat::JsonSchema { .. }) => {
                return Err(
                    AdapterError::invalid_request(
                        "deepseek",
                        "json_schema response format is not supported by deepseek; use JsonObject",
                    ),
                );
            },
        };
        let sampling = match thinking {
            Some(config) => !config.enabled,
            None => false,
        };
        let wire_thinking = match thinking {
            Some(config) => {
                let kind = if config.enabled {
                    "enabled".to_owned()
                } else {
                    "disabled".to_owned()
                };
                let reasoning_effort = match config.reasoning_effort {
                    Some(effort) => match deepseek_effort(effort) {
                        Some(name) => Some(name.to_owned()),
                        None => None,
                    },
                    None => None,
                };
                Some(WireThinking { kind, reasoning_effort })
            },
            None => None,
        };
        let temperature = match params.temperature {
            Some(t) => if sampling {
                Some(t.get())
            } else {
                None
            },
            None => None,
        };
        let top_p = match params.top_p {
            Some(p) => if sampling {
                Some(p.get())
            } else {
                None
            },
            None => None,
        };
        let tool_choice = match &params.tool_choice {
            Some(choice) => Some(WireDeepSeekToolChoice::from_choice(choice)),
            None => None,
        };
        Ok(
            WireDeepSeekChatCompletionRequest {
                model: request.model.clone(),
                messages,
                thinking: wire_thinking,
                max_tokens: params.max_tokens,
                temperature,
                top_p,
                stop: copy_texts(&params.stop),
                response_format,
                tools: wire_tools(&params.tools),
                tool_choice,
                logprobs: params.logprobs,
                top_logprobs: params.top_logprobs,
                user_id: text::copy_opt(&params.user),
                stream: true,
                stream_options: Some(WireDeepSeekStreamOptions { include_usage: true }),
            },
        )
    }
}

// ---------------------------------------------------------------------------------------------
// Tool calls and tools in a request
// ---------------------------------------------------------------------------------------------
/// A tool call in a request.
#[derive(Debug)]
pub struct WireDeepSeekRequestToolCall {
    pub id: String,
    pub kind: String,
    pub function: WireDeepSeekFunctionCall,
}

/// The function of a tool call in a request, with its arguments as JSON text.
#[derive(Debug)]
pub struct WireDeepSeekFunctionCall {
    pub name: String,
    pub arguments: String,
}

/// Whether `wire` is the tool call `call`.
pub open spec fn is_call(wire: WireDeepSeekRequestToolCall, call: ToolCallView) -> bool {
    &&& wire.id@ == call.id
    &&& wire.kind@ == "function"@
    &&& wire.function.name@ == call.name
    &&& wire.function.arguments@ == json_printed(call.arguments)
}

/// Whether `wire` are the tool calls of a message.
pub open spec fn are_calls(
    wire: Option<Vec<WireDeepSeekRequestToolCall>>,
    calls: Option<Seq<ToolCallView>>,
) -> bool {
    match calls {
        Some(calls) => wire matches Some(wire) && wire@.len() == calls.len() && forall|i: int|
            0 <= i < calls.len() ==> is_call(#[trigger] wire@[i], calls[i]),
        None => wire is None,
    }
}

fn wire_calls(calls: &Option<Vec<ToolCall>>) -> (r: Option<Vec<WireDeepSeekRequestToolCall>>)
    ensures
        are_calls(r, opt_calls_view(*calls)),
{
    match calls {
        Some(calls) => {
            let ghost all = calls_view(calls@);
            let mut out: Vec<WireDeepSeekRequestToolCall> = Vec::new();
            let mut i: usize = 0;
            while i < calls.len()
                invariant
                    i <= calls@.len(),
                    all == calls_view(calls@),
                    out@.len() == i,
                    forall|k: int| 0 <= k < i ==> is_call(#[trigger] out@[k], all[k]),
                decreases calls@.len() - i,
            {
                let call = &calls[i];
                assert(all[i as int] == call@);
                out.push(
                    WireDeepSeekRequestToolCall {
                        id: call.id.clone(),
                        kind: "function".to_owned(),
                        function: WireDeepSeekFunctionCall {
                            name: call.name.clone(),
                            arguments: json::print_json(&call.arguments),
                        },
                    },
                );
                i += 1;
            }
            Some(out)
        },
        None => None,
    }
}

/// A tool in a request.
#[derive(Debug)]
pub enum WireDeepSeekTool {
    Function { function: WireDeepSeekFunction },
}

/// A function in a request.
#[derive(Debug)]
pub struct WireDeepSeekFunction {
    pub name: String,
    pub description: Option<String>,
    pub parameters: Json,
    pub strict: Option<bool>,
}

/// Whether `wire` is the tool `tool`.
pub open spec fn is_tool(wire: WireDeepSeekTool, tool: ToolView) -> bool {
    match wire {
        WireDeepSeekTool::Function { function } => {
            &&& function.name@ == tool.name
            &&& opt_text(function.description) == tool.description
            &&& function.parameters@ == tool.schema
            &&& function.strict == tool.strict
        },
    }
}

/// Whether `wire` are the tools of a request.
pub open spec fn are_tools(
    wire: Option<Vec<WireDeepSeekTool>>,
    tools: Option<Vec<ToolDefinition>>,
) -> bool {
    match tools {
        Some(tools) => wire matches Some(wire) && wire@.len() == tools@.len() && forall|i: int|
            0 <= i < tools@.len() ==> is_tool(#[trigger] wire@[i], tools@[i]@),
        None => wire is None,
    }
}

impl WireDeepSeekTool {
    /// A tool as it is sent.
    pub fn from_definition(tool: &ToolDefinition) -> (r: Self)
        ensures
            is_tool(r, tool@),
    {
        match tool {
            ToolDefinition::Function { function } => WireDeepSeekTool::Function {
                function: WireDeepSeekFunction {
                    name: function.name.clone(),
                    description: text::copy_opt(&function.description),
                    parameters: function.parameters.schema.duplicate(),
                    strict: function.strict,
                },
            },
        }
    }
}

fn wire_tools(tools: &Option<Vec<ToolDefinition>>) -> (r: Option<Vec<WireDeepSeekTool>>)
    ensures
        are_tools(r, *tools),
{
    match tools {
        Some(tools) => {
            let mut out: Vec<WireDeepSeekTool> = Vec::new();
            let mut i: usize = 0;
            while i < tools.len()
                invariant
                    i <= tools@.len(),
                    out@.len() == i,
                    forall|k: int| 0 <= k < i ==> is_tool(#[trigger] out@[k], tools@[k]@),
                decreases tools@.len() - i,
            {
                out.push(WireDeepSeekTool::from_definition(&tools[i]));
                i += 1;
            }
            Some(out)
        },
        None => None,
    }
}

/// Which tools a model may or must call, as it is sent.
#[derive(Debug)]
pub enum WireDeepSeekToolChoice {
    Mode(WireDeepSeekToolChoiceMode),
    Function { kind: String, function: WireDeepSeekNamedFunction },
}

/// A choice among all tools.
#[derive(Debug, Clone, Copy, PartialEq, Eq, Structural)]
pub enum WireDeepSeekToolChoiceMode {
    Auto,
    NoTool,
    Required,
}

/// The name of a function in a request.
#[derive(Debug)]
pub struct WireDeepSeekNamedFunction {
    pub name: String,
}

/// Whether `wire` is the choice `choice`.
pub open spec fn is_choice(wire: WireDeepSeekToolChoice, choice: ToolChoiceView) -> bool {
    match choice {
        ToolChoiceView::Auto => wire matches WireDeepSeekToolChoice::Mode(WireDeepSeekToolChoiceMode::Auto),
        ToolChoiceView::NoTool => wire matches WireDeepSeekToolChoice::Mode(WireDeepSeekToolChoiceMode::NoTool),
        ToolChoiceView::Required => wire matches WireDeepSeekToolChoice::Mode(WireDeepSeekToolChoiceMode::Required),
        ToolChoiceView::Named { kind, name } => wire matches WireDeepSeekToolChoice::Function {
            kind: k,
            function,
        } && k@ == kind && function.name@ == name,
    }
}

impl WireDeepSeekToolChoice {
    /// A choice as it is sent.
    pub fn from_choice(choice: &ToolChoice) -> (r: Self)
        ensures
            is_choice(r, choice@),
    {
        match choice {
            ToolChoice::Auto => WireDeepSeekToolChoice::Mode(WireDeepSeekToolChoiceMode::Auto),
            ToolChoice::NoTool => WireDeepSeekToolChoice::Mode(WireDeepSeekToolChoiceMode::NoTool),
            ToolChoice::Required => WireDeepSeekToolChoice::Mode(WireDeepSeekToolChoiceMode::Required),
            ToolChoice::Named { kind, function } => WireDeepSeekToolChoice::Function {
                kind: kind.clone(),
                function: WireDeepSeekNamedFunction { name: function.name.clone() },
            },
        }
    }
}

/// What a stream reports besides the answer.
#[derive(Debug, Clone, Copy, PartialEq, Eq, Structural)]
pub struct WireDeepSeekStreamOptions {
    pub include_usage: bool,
}

// ---------------------------------------------------------------------------------------------
// Pieces of an answer
// ---------------------------------------------------------------------------------------------
/// A piece of a stream, as it arrives.
#[derive(Debug)]
pub struct WireDeepSeekChunk {
    pub id: String,
    pub model: String,
    pub choices: Vec<WireDeepSeekChunkChoice>,
    pub usage: Option<WireDeepSeekUsage>,
}

/// What a piece of a stream adds to one answer.
#[derive(Debug)]
pub struct WireDeepSeekChunkChoice {
    pub index: u32,
    pub delta: WireDeepSeekDelta,
    pub finish_reason: Option<String>,
}

/// The contents of a piece of a stream.
#[derive(Debug)]
pub struct WireDeepSeekDelta {
    pub role: Option<String>,
    pub content: Option<String>,
    pub reasoning_content: Option<String>,
    pub tool_calls: Vec<WireDeepSeekToolCallDelta>,
    pub logprobs: Option<WireDeepSeekChunkLogprobs>,
}

/// A piece of a tool call.
#[derive(Debug)]
pub struct WireDeepSeekToolCallDelta {
    pub index: u32,
    pub id: Option<String>,
    pub function: Option<WireDeepSeekFunctionDelta>,
}

/// A piece of the function of a tool call.
#[derive(Debug)]
pub struct WireDeepSeekFunctionDelta {
    pub name: Option<String>,
    pub arguments: Option<String>,
}

/// The probabilities in a piece of a stream.
#[derive(Debug)]
pub struct WireDeepSeekChunkLogprobs {
    pub content: Vec<WireDeepSeekLogprobToken>,
}

/// A token with the logarithm of its probability.
#[derive(Debug)]
pub struct WireDeepSeekLogprobToken {
    pub token: String,
    pub logprob: Single,
}

/// What an answer cost, as it arrives.
#[derive(Debug, Clone, Copy, PartialEq, Eq, Structural)]
pub struct WireDeepSeekUsage {
    pub prompt_tokens: u32,
    pub completion_tokens: u32,
    pub total_tokens: u32,
}

impl WireDeepSeekUsage {
    /// The cost.
    pub fn usage(self) -> (r: TokenUsage)
        ensures
            r == usage_of(self),
    {
        TokenUsage {
            prompt_tokens: self.prompt_tokens,
            completion_tokens: self.completion_tokens,
            total_tokens: self.total_tokens,
        }
    }
}

/// The cost that is reported.
pub open spec fn usage_of(wire: WireDeepSeekUsage) -> TokenUsage {
    TokenUsage {
        prompt_tokens: wire.prompt_tokens,
        completion_tokens: wire.completion_tokens,
        total_tokens: wire.total_tokens,
    }
}

/// The cost that is reported, if any.
pub open spec fn opt_usage(wire: Option<WireDeepSeekUsage>) -> Option<TokenUsage> {
    match wire {
        Some(wire) => Some(usage_of(wire)),
        None => None,
    }
}

/// The piece of a tool call that arrived.
pub open spec fn delta_of(wire: WireDeepSeekToolCallDelta) -> DeltaView {
    DeltaView {
        index: wire.index,
        id: opt_text(wire.id),
        name: match wire.function {
            Some(function) => opt_text(function.name),
            None => None,
        },
        arguments_delta: match wire.function {
            Some(function) => opt_text(function.arguments),
            None => None,
        },
    }
}

/// Whether `logprobs` are the probabilities that arrived.
pub open spec fn are_logprobs(
    logprobs: Option<ContentLogprobs>,
    wire: Option<WireDeepSeekChunkLogprobs>,
) -> bool {
    match wire {
        Some(wire) => logprobs matches Some(found) && found.tokens@.len() == wire.content@.len()
            && forall|i: int|
            0 <= i < wire.content@.len() ==> (#[trigger] found.tokens@[i]).token@
                == wire.content@[i].token@ && found.tokens@[i].logprob == wire.content@[i].logprob,
        None => logprobs is None,
    }
}

/// Whether `chunk` is what arrived for one answer.
pub open spec fn is_chunk(
    chunk: CompletionChunk,
    model: Seq<char>,
    id: Seq<char>,
    usage: Option<TokenUsage>,
    choice: WireDeepSeekChunkChoice,
) -> bool {
    &&& chunk.model@ == model
    &&& chunk.index == choice.index
    &&& chunk.delta.role == match choice.delta.role {
        Some(role) => role_named(role@),
        None => None,
    }
    &&& opt_text(chunk.delta.content) == opt_text(choice.delta.content)
    &&& deltas_view(chunk.delta.tool_calls@) == Seq::new(
        choice.delta.tool_calls@.len(),
        |i: int| delta_of(choice.delta.tool_calls@[i]),
    )
    &&& are_logprobs(chunk.delta.logprobs, choice.delta.logprobs)
    &&& opt_text(chunk.delta.reasoning) == opt_text(choice.delta.reasoning_content)
    &&& chunk.finish_reason == match choice.finish_reason {
        Some(reason) => Some(reason_named(reason@)),
        None => None,
    }
    &&& chunk.usage == usage
    &&& opt_text(chunk.request_id) == Some(id)
}

fn token_logprobs(wire: &Option<WireDeepSeekChunkLogprobs>) -> (r: Option<ContentLogprobs>)
    ensures
        are_logprobs(r, *wire),
{
    match wire {
        Some(wire) => {
            let mut tokens: Vec<LogprobToken> = Vec::new();
            let mut i: usize = 0;
            while i < wire.content.len()
                invariant
                    i <= wire.content@.len(),
                    tokens@.len() == i,
                    forall|k: int|
                        0 <= k < i ==> (#[trigger] tokens@[k]).token@ == wire.content@[k].token@
                            && tokens@[k].logprob == wire.content@[k].logprob,
                decreases wire.content@.len() - i,
            {
                tokens.push(
                    LogprobToken {
                        token: wire.content[i].token.clone(),
                        logprob: wire.content[i].logprob,
                    },
                );
                i += 1;
            }
            Some(ContentLogprobs { tokens })
        },
        None => None,
    }
}

fn call_deltas(wire: &Vec<WireDeepSeekToolCallDelta>) -> (r: Vec<ToolCallDelta>)
    ensures
        deltas_view(r@) == Seq::new(wire@.len(), |i: int| delta_of(wire@[i])),
{
    let mut out: Vec<ToolCallDelta> = Vec::new();
    let mut i: usize = 0;
    while i < wire.len()
        invariant
            i <= wire@.len(),
            out@.len() == i,
            forall|k: int| 0 <= k < i ==> (#[trigger] out@[k])@ == delta_of(wire@[k]),
        decreases wire@.len() - i,
    {
        let (name, arguments_delta) = match &wire[i].function {
            Some(function) => (text::copy_opt(&function.name), text::copy_opt(&function.arguments)),
            None => (None, None),
        };
        out.push(
            ToolCallDelta {
                index: wire[i].index,
                id: text::copy_opt(&wire[i].id),
                name,
                arguments_delta,
            },
        );
        i += 1;
    }
    assert(deltas_view(out@) =~= Seq::new(wire@.len(), |i: int| delta_of(wire@[i])));
    out
}

impl WireDeepSeekChunk {
    /// What arrived, one piece for each answer. A piece without answers still carries the cost.
    pub fn into_chunks(self) -> (r: Vec<CompletionChunk>)
        ensures
            self.choices@.len() == 0 ==> {
                &&& r@.len() == 1
                &&& r@[0].model@ == self.model@ && r@[0].index == 0
                &&& r@[0].delta.role is None && r@[0].delta.content is None
                &&& r@[0].delta.tool_calls@.len() == 0 && r@[0].delta.logprobs is None
                &&& r@[0].delta.reasoning is None && r@[0].finish_reason is None
                &&& r@[0].usage == opt_usage(self.usage)
                &&& opt_text(r@[0].request_id) == Some(self.id@)
            },
            self.choices@.len() > 0 ==> {
                &&& r@.len() == self.choices@.len()
                &&& forall|i: int|
                    0 <= i < r@.len() ==> is_chunk(
                        #[trigger] r@[i],
                        self.model@,
                        self.id@,
                        opt_usage(self.usage),
                        self.choices@[i],
                    )
            },
    {
        let usage = match self.usage {
            Some(usage) => Some(usage.usage()),
            None => None,
        };
        let mut out: Vec<CompletionChunk> = Vec::new();
        if self.choices.len() == 0 {
            out.push(
                CompletionChunk {
                    model: self.model,
                    index: 0,
                    delta: ChunkDelta::default(),
                    finish_reason: None,
                    usage,
                    request_id: Some(self.id),
                },
            );
            return out;
        }
        let mut i: usize = 0;
        while i < self.choices.len()
            invariant
                i <= self.choices@.len(),
                usage == opt_usage(self.usage),
                out@.len() == i,
                forall|k: int|
                    0 <= k < i ==> is_chunk(
                        #[trigger] out@[k],
                        self.model@,
                        self.id@,
                        opt_usage(self.usage),
                        self.choices@[k],
                    ),
            decreases self.choices@.len() - i,
        {
            let choice = &self.choices[i];
            let role = match &choice.delta.role {
                Some(role) => parse_role(role.as_str()),
                None => None,
            };
            let finish_reason = match &choice.finish_reason {
                Some(reason) => parse_finish_reason(reason.as_str()),
                None => None,
            };
            out.push(
                CompletionChunk {
                    model: self.model.clone(),
                    index: choice.index,
                    delta: ChunkDelta {
                        role,
                        content: text::copy_opt(&choice.delta.content),
                        tool_calls: call_deltas(&choice.delta.tool_calls),
                        logprobs: token_logprobs(&choice.delta.logprobs),
                        reasoning: text::copy_opt(&choice.delta.reasoning_content),
                    },
                    finish_reason,
                    usage,
                    request_id: Some(self.id.clone()),
                },
            );
            i += 1;
        }
        out
    }
}

// ---------------------------------------------------------------------------------------------
// Models
// ---------------------------------------------------------------------------------------------
/// The models that a server offers.
#[derive(Debug)]
pub struct WireDeepSeekModelList {
    pub data: Vec<WireDeepSeekModel>,
}

/// A model that a server offers.
#[derive(Debug)]
pub struct WireDeepSeekModel {
    pub id: String,
    pub object: Option<String>,
    pub owned_by: Option<String>,
    pub created: Option<u64>,
}

/// Whether `info` is the model that was reported.
pub open spec fn is_model(info: ModelInfo, wire: WireDeepSeekModel) -> bool {
    &&& info.id == wire.id && info.object == wire.object
    &&& info.owned_by == wire.owned_by && info.created_at == wire.created
}

impl WireDeepSeekModel {
    /// The model.
    pub fn into_info(self) -> (r: ModelInfo)
        ensures
            is_model(r, self),
    {
        ModelInfo {
            id: self.id,
            object: self.object,
            owned_by: self.owned_by,
            created_at: self.created,
        }
    }
}

impl WireDeepSeekModelList {
    /// The models, in the order in which the server lists them.
    pub fn into_infos(self) -> (r: Vec<ModelInfo>)
        ensures
            r@.len() == self.data@.len(),
            forall|i: int| 0 <= i < r@.len() ==> is_model(#[trigger] r@[i], self.data@[i]),
    {
        let ghost all = self.data@;
        let mut rest = self.data;
        let mut out: Vec<ModelInfo> = Vec::new();
        while rest.len() > 0
            invariant
                out@.len() + rest@.len() == all.len(),
                rest@ == all.skip(out@.len() as int),
                forall|i: int| 0 <= i < out@.len() ==> is_model(#[trigger] out@[i], all[i]),
            decreases rest@.len(),
        {
            let ghost k = out@.len() as int;
            let model = rest.remove(0);
            assert(model == all[k]);
            assert(rest@ =~= all.skip(k + 1));
            out.push(model.into_info());
        }
        out
    }
}

} // verus!
