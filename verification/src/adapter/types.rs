//! Messages, requests and answers, as all adapters share them.

use crate::adapter::error::{AdapterError, ErrorView};
use crate::json::{Json, JsonView};
use crate::number::{Single, SINGLE_ONE, SINGLE_TWO};
use crate::text;
use crate::text::{join, opt_text, trim};
use vstd::prelude::*;

verus! {

// ---------------------------------------------------------------------------------------------
// Messages
// ---------------------------------------------------------------------------------------------
/// Who speaks.
#[derive(Debug, Clone, Copy, PartialEq, Eq, Structural, Hash)]
pub enum Role {
    System,
    User,
    Assistant,
    Tool,
}

/// The name of a role.
pub open spec fn role_name(role: Role) -> Seq<char> {
    match role {
        Role::System => "system"@,
        Role::User => "user"@,
        Role::Assistant => "assistant"@,
        Role::Tool => "tool"@,
    }
}

impl Role {
    /// The name of the role.
    pub fn as_str(self) -> (r: &'static str)
        ensures
            r@ == role_name(self),
    {
        match self {
            Role::System => "system",
            Role::User => "user",
            Role::Assistant => "assistant",
            Role::Tool => "tool",
        }
    }
}

/// How closely an image is looked at.
#[derive(Debug, Clone, Copy, PartialEq, Eq, Structural)]
pub enum ImageDetail {
    Low,
    High,
    Auto,
}

impl Default for ImageDetail {
    fn default() -> (r: Self)
        ensures
            r == ImageDetail::Auto,
    {
        ImageDetail::Auto
    }
}

/// The format of a recording.
#[derive(Debug, Clone, Copy, PartialEq, Eq, Structural)]
pub enum AudioFormat {
    Wav,
    Mp3,
}

/// A part of a message.
#[derive(Debug, PartialEq)]
pub enum ContentPart {
    Text { text: String },
    ImageUrl { url: String, detail: ImageDetail },
    InputAudio { data: String, format: AudioFormat },
}

/// A `ContentPart` with its texts as characters.
pub ghost enum PartView {
    Text { text: Seq<char> },
    ImageUrl { url: Seq<char>, detail: ImageDetail },
    InputAudio { data: Seq<char>, format: AudioFormat },
}

impl View for ContentPart {
    type V = PartView;

    open spec fn view(&self) -> PartView {
        match self {
            ContentPart::Text { text } => PartView::Text { text: text@ },
            ContentPart::ImageUrl { url, detail } => PartView::ImageUrl {
                url: url@,
                detail: *detail,
            },
            ContentPart::InputAudio { data, format } => PartView::InputAudio {
                data: data@,
                format: *format,
            },
        }
    }
}

/// The views of the parts of a message.
pub open spec fn parts_view(parts: Seq<ContentPart>) -> Seq<PartView> {
    Seq::new(parts.len(), |i: int| parts[i]@)
}

/// The texts among the parts of a message.
pub open spec fn part_texts(parts: Seq<PartView>) -> Seq<Seq<char>>
    decreases parts.len(),
{
    if parts.len() == 0 {
        Seq::empty()
    } else {
        match parts.last() {
            PartView::Text { text } => part_texts(parts.drop_last()).push(text),
            _ => part_texts(parts.drop_last()),
        }
    }
}

impl ContentPart {
    /// A part of text.
    pub fn text(text: &str) -> (r: Self)
        ensures
            r@ == (PartView::Text { text: text@ }),
    {
        ContentPart::Text { text: text.to_owned() }
    }

    /// An image.
    pub fn image_url(url: &str, detail: ImageDetail) -> (r: Self)
        ensures
            r@ == (PartView::ImageUrl { url: url@, detail }),
    {
        ContentPart::ImageUrl { url: url.to_owned(), detail }
    }

    /// A recording.
    pub fn input_audio(data: &str, format: AudioFormat) -> (r: Self)
        ensures
            r@ == (PartView::InputAudio { data: data@, format }),
    {
        ContentPart::InputAudio { data: data.to_owned(), format }
    }

    /// The text of a part of text.
    pub fn as_text(&self) -> (r: Option<&str>)
        ensures
            match self@ {
                PartView::Text { text } => r matches Some(s) && s@ == text,
                _ => r is None,
            },
    {
        match self {
            ContentPart::Text { text } => Some(text.as_str()),
            _ => None,
        }
    }
}

/// What a message says.
#[derive(Debug, PartialEq)]
pub enum MessageContent {
    Text(String),
    Parts(Vec<ContentPart>),
}

/// A `MessageContent` with its texts as characters.
pub ghost enum ContentView {
    Text(Seq<char>),
    Parts(Seq<PartView>),
}

impl View for MessageContent {
    type V = ContentView;

    open spec fn view(&self) -> ContentView {
        match self {
            MessageContent::Text(text) => ContentView::Text(text@),
            MessageContent::Parts(parts) => ContentView::Parts(parts_view(parts@)),
        }
    }
}

impl ContentView {
    /// The text of a message; of several parts, the texts on lines of their own.
    pub open spec fn plain(self) -> Seq<char> {
        match self {
            ContentView::Text(text) => text,
            ContentView::Parts(parts) => join(part_texts(parts), "\n"@),
        }
    }
}

impl MessageContent {
    /// A text.
    pub fn text(text: &str) -> (r: Self)
        ensures
            r@ == ContentView::Text(text@),
    {
        MessageContent::Text(text.to_owned())
    }

    /// Several parts.
    pub fn parts(parts: Vec<ContentPart>) -> (r: Self)
        ensures
            r@ == ContentView::Parts(parts_view(parts@)),
    {
        MessageContent::Parts(parts)
    }

    /// The text of the message; of several parts, the texts on lines of their own.
    pub fn to_plain_text(&self) -> (r: String)
        ensures
            r@ == self@.plain(),
    {
        match self {
            MessageContent::Text(text) => text.clone(),
            MessageContent::Parts(parts) => {
                let ghost all = parts_view(parts@);
                let mut texts: Vec<String> = Vec::new();
                let mut i: usize = 0;
                assert(text::views(texts@) =~= part_texts(all.take(0)));
                while i < parts.len()
                    invariant
                        i <= parts@.len(),
                        all == parts_view(parts@),
                        text::views(texts@) == part_texts(all.take(i as int)),
                    decreases parts@.len() - i,
                {
                    let ghost before = text::views(texts@);
                    proof {
                        assert(all.take(i + 1).drop_last() =~= all.take(i as int));
                        assert(all.take(i + 1).last() == parts@[i as int]@);
                    }
                    if let Some(part) = parts[i].as_text() {
                        let copy = part.to_owned();
                        texts.push(copy);
                        assert(text::views(texts@) =~= before.push(copy@));
                    }
                    i += 1;
                }
                assert(all.take(i as int) =~= all);
                text::joined_strings(&texts, "\n")
            },
        }
    }

    /// Whether the message says nothing: a blank text, or no parts.
    pub fn is_empty(&self) -> (r: bool)
        ensures
            r == match self@ {
                ContentView::Text(text) => trim(text).len() == 0,
                ContentView::Parts(parts) => parts.len() == 0,
            },
    {
        match self {
            MessageContent::Text(text) => text::trimmed(
                text::chars_of(text.as_str()).as_slice(),
            ).len() == 0,
            MessageContent::Parts(parts) => parts.len() == 0,
        }
    }
}

/// A call of a tool.
#[derive(Debug, PartialEq)]
pub struct ToolCall {
    pub id: String,
    pub name: String,
    pub arguments: Json,
}

/// A `ToolCall` with its texts as characters.
pub ghost struct ToolCallView {
    pub id: Seq<char>,
    pub name: Seq<char>,
    pub arguments: JsonView,
}

impl View for ToolCall {
    type V = ToolCallView;

    open spec fn view(&self) -> ToolCallView {
        ToolCallView { id: self.id@, name: self.name@, arguments: self.arguments@ }
    }
}

/// The views of tool calls.
pub open spec fn calls_view(calls: Seq<ToolCall>) -> Seq<ToolCallView> {
    Seq::new(calls.len(), |i: int| calls[i]@)
}

/// A piece of a tool call in a stream.
#[derive(Debug, PartialEq)]
pub struct ToolCallDelta {
    pub index: u32,
    pub id: Option<String>,
    pub name: Option<String>,
    pub arguments_delta: Option<String>,
}

/// A `ToolCallDelta` with its texts as characters.
pub ghost struct DeltaView {
    pub index: u32,
    pub id: Option<Seq<char>>,
    pub name: Option<Seq<char>>,
    pub arguments_delta: Option<Seq<char>>,
}

impl View for ToolCallDelta {
    type V = DeltaView;

    open spec fn view(&self) -> DeltaView {
        DeltaView {
            index: self.index,
            id: opt_text(self.id),
            name: opt_text(self.name),
            arguments_delta: opt_text(self.arguments_delta),
        }
    }
}

/// The views of pieces of tool calls.
pub open spec fn deltas_view(deltas: Seq<ToolCallDelta>) -> Seq<DeltaView> {
    Seq::new(deltas.len(), |i: int| deltas[i]@)
}

/// A message of a conversation with a model.
#[derive(Debug, PartialEq)]
pub struct Message {
    pub role: Role,
    pub content: MessageContent,
    pub name: Option<String>,
    pub tool_calls: Option<Vec<ToolCall>>,
    pub tool_call_id: Option<String>,
    pub reasoning: Option<String>,
}

/// A `Message` with its texts as characters.
pub ghost struct ChatView {
    pub role: Role,
    pub content: ContentView,
    pub name: Option<Seq<char>>,
    pub tool_calls: Option<Seq<ToolCallView>>,
    pub tool_call_id: Option<Seq<char>>,
    pub reasoning: Option<Seq<char>>,
}

/// The views of optional tool calls.
pub open spec fn opt_calls_view(calls: Option<Vec<ToolCall>>) -> Option<Seq<ToolCallView>> {
    match calls {
        Some(calls) => Some(calls_view(calls@)),
        None => None,
    }
}

impl View for Message {
    type V = ChatView;

    open spec fn view(&self) -> ChatView {
        ChatView {
            role: self.role,
            content: self.content@,
            name: opt_text(self.name),
            tool_calls: opt_calls_view(self.tool_calls),
            tool_call_id: opt_text(self.tool_call_id),
            reasoning: opt_text(self.reasoning),
        }
    }
}

/// The views of messages.
pub open spec fn chat_view(messages: Seq<Message>) -> Seq<ChatView> {
    Seq::new(messages.len(), |i: int| messages[i]@)
}

/// A message without anything but its role and content.
pub open spec fn plain_message(role: Role, content: ContentView) -> ChatView {
    ChatView { role, content, name: None, tool_calls: None, tool_call_id: None, reasoning: None }
}

impl Message {
    /// A message with a role and content.
    pub fn new(role: Role, content: MessageContent) -> (r: Self)
        ensures
            r@ == plain_message(role, content@),
    {
        Message { role, content, name: None, tool_calls: None, tool_call_id: None, reasoning: None }
    }

    /// An instruction.
    pub fn system(content: &str) -> (r: Self)
        ensures
            r@ == plain_message(Role::System, ContentView::Text(content@)),
    {
        Message::new(Role::System, MessageContent::text(content))
    }

    /// What the user says.
    pub fn user(content: &str) -> (r: Self)
        ensures
            r@ == plain_message(Role::User, ContentView::Text(content@)),
    {
        Message::new(Role::User, MessageContent::text(content))
    }

    /// What the assistant says.
    pub fn assistant(content: &str) -> (r: Self)
        ensures
            r@ == plain_message(Role::Assistant, ContentView::Text(content@)),
    {
        Message::new(Role::Assistant, MessageContent::text(content))
    }

    /// The result of the tool call `tool_call_id`.
    pub fn tool(tool_call_id: &str, content: &str) -> (r: Self)
        ensures
            r@ == (ChatView {
                tool_call_id: Some(tool_call_id@),
                ..plain_message(Role::Tool, ContentView::Text(content@))
            }),
    {
        Message {
            role: Role::Tool,
            content: MessageContent::text(content),
            name: None,
            tool_calls: None,
            tool_call_id: Some(tool_call_id.to_owned()),
            reasoning: None,
        }
    }

    /// Tool calls of the assistant.
    pub fn assistant_with_tool_calls(tool_calls: Vec<ToolCall>) -> (r: Self)
        ensures
            r@ == (ChatView {
                tool_calls: Some(calls_view(tool_calls@)),
                ..plain_message(Role::Assistant, ContentView::Text(Seq::empty()))
            }),
    {
        let r = Message::assistant_with_tool_calls_and_reasoning(String::new(), tool_calls, None);
        assert(r@.content->Text_0 =~= Seq::empty());
        r
    }

    /// Tool calls of the assistant, with what it says and thinks.
    pub fn assistant_with_tool_calls_and_reasoning(
        content: String,
        tool_calls: Vec<ToolCall>,
        reasoning: Option<String>,
    ) -> (r: Self)
        ensures
            r@ == (ChatView {
                tool_calls: Some(calls_view(tool_calls@)),
                reasoning: opt_text(reasoning),
                ..plain_message(Role::Assistant, ContentView::Text(content@))
            }),
    {
        Message {
            role: Role::Assistant,
            content: MessageContent::Text(content),
            name: None,
            tool_calls: Some(tool_calls),
            tool_call_id: None,
            reasoning,
        }
    }
}

// ---------------------------------------------------------------------------------------------
// Parameters
// ---------------------------------------------------------------------------------------------
/// How much a model thinks.
#[derive(Debug, Clone, Copy, PartialEq, Eq, Structural, Hash)]
pub enum ReasoningEffort {
    NoReasoning,
    Minimal,
    Low,
    Medium,
    High,
    XHigh,
    Max,
}

/// The name of an effort.
pub open spec fn effort_name(effort: ReasoningEffort) -> Seq<char> {
    match effort {
        ReasoningEffort::NoReasoning => "none"@,
        ReasoningEffort::Minimal => "minimal"@,
        ReasoningEffort::Low => "low"@,
        ReasoningEffort::Medium => "medium"@,
        ReasoningEffort::High => "high"@,
        ReasoningEffort::XHigh => "xhigh"@,
        ReasoningEffort::Max => "max"@,
    }
}

impl ReasoningEffort {
    /// The name of the effort.
    pub fn as_str(self) -> (r: &'static str)
        ensures
            r@ == effort_name(self),
    {
        match self {
            ReasoningEffort::NoReasoning => "none",
            ReasoningEffort::Minimal => "minimal",
            ReasoningEffort::Low => "low",
            ReasoningEffort::Medium => "medium",
            ReasoningEffort::High => "high",
            ReasoningEffort::XHigh => "xhigh",
            ReasoningEffort::Max => "max",
        }
    }
}

/// The parameters of a function, as a JSON schema.
#[derive(Debug, PartialEq)]
pub struct FunctionParameters {
    pub schema: Json,
}

impl FunctionParameters {
    /// The parameters with the given schema.
    pub fn new(schema: Json) -> (r: Self)
        ensures
            r.schema == schema,
    {
        FunctionParameters { schema }
    }
}

/// A function that a model may call.
#[derive(Debug, PartialEq)]
pub struct FunctionDefinition {
    pub name: String,
    pub description: Option<String>,
    pub parameters: FunctionParameters,
    pub strict: Option<bool>,
}

/// A tool that a model may call.
#[derive(Debug, PartialEq)]
pub enum ToolDefinition {
    Function { function: FunctionDefinition },
}

/// A `ToolDefinition` with its texts as characters.
pub ghost struct ToolView {
    pub name: Seq<char>,
    pub description: Option<Seq<char>>,
    pub schema: JsonView,
    pub strict: Option<bool>,
}

impl View for ToolDefinition {
    type V = ToolView;

    open spec fn view(&self) -> ToolView {
        match self {
            ToolDefinition::Function { function } => ToolView {
                name: function.name@,
                description: opt_text(function.description),
                schema: function.parameters.schema@,
                strict: function.strict,
            },
        }
    }
}

/// The views of tools.
pub open spec fn tools_view(tools: Seq<ToolDefinition>) -> Seq<ToolView> {
    Seq::new(tools.len(), |i: int| tools[i]@)
}

impl ToolDefinition {
    /// A function with its parameters.
    pub fn function(name: &str, description: Option<String>, parameters: Json) -> (r: Self)
        ensures
            r@ == (ToolView {
                name: name@,
                description: opt_text(description),
                schema: parameters@,
                strict: None,
            }),
    {
        ToolDefinition::Function {
            function: FunctionDefinition {
                name: name.to_owned(),
                description,
                parameters: FunctionParameters::new(parameters),
                strict: None,
            },
        }
    }
}

/// A sampling temperature from 0 to 2.
#[derive(Debug, Clone, Copy, PartialEq, Eq, Structural)]
pub struct Temperature {
    pub value: Single,
}

/// A share of probability from 0 to 1.
#[derive(Debug, Clone, Copy, PartialEq, Eq, Structural)]
pub struct TopP {
    pub value: Single,
}

/// A penalty from -2 to 2.
#[derive(Debug, Clone, Copy, PartialEq, Eq, Structural)]
pub struct Penalty {
    pub value: Single,
}

/// The error for a number out of its range; `shown` is the number as it is written.
pub open spec fn range_error(what: Seq<char>, shown: Seq<char>) -> ErrorView {
    ErrorView::InvalidRequest { adapter: "adapter"@, message: what + shown }
}

impl Temperature {
    /// Whether a number is a temperature.
    pub open spec fn valid(value: Single) -> bool {
        value.up_to(SINGLE_TWO)
    }

    /// A temperature; `shown` is the number as an error shows it.
    pub fn new(value: Single, shown: &str) -> (r: Result<Self, AdapterError>)
        ensures
            Self::valid(value) ==> (r matches Ok(t) && t.value == value),
            !Self::valid(value) ==> (r matches Err(e) && e@ == range_error(
                "temperature must be finite and within [0, 2], got "@,
                shown@,
            )),
    {
        if value.is_up_to(SINGLE_TWO) {
            Ok(Temperature { value })
        } else {
            let message = text::glue("temperature must be finite and within [0, 2], got ", shown);
            Err(AdapterError::invalid_request("adapter", message.as_str()))
        }
    }

    /// The number.
    pub fn get(self) -> (r: Single)
        ensures
            r == self.value,
    {
        self.value
    }
}

impl TopP {
    /// Whether a number is a share of probability.
    pub open spec fn valid(value: Single) -> bool {
        value.up_to(SINGLE_ONE)
    }

    /// A share of probability; `shown` is the number as an error shows it.
    pub fn new(value: Single, shown: &str) -> (r: Result<Self, AdapterError>)
        ensures
            Self::valid(value) ==> (r matches Ok(t) && t.value == value),
            !Self::valid(value) ==> (r matches Err(e) && e@ == range_error(
                "top_p must be finite and within [0, 1], got "@,
                shown@,
            )),
    {
        if value.is_up_to(SINGLE_ONE) {
            Ok(TopP { value })
        } else {
            let message = text::glue("top_p must be finite and within [0, 1], got ", shown);
            Err(AdapterError::invalid_request("adapter", message.as_str()))
        }
    }

    /// The number.
    pub fn get(self) -> (r: Single)
        ensures
            r == self.value,
    {
        self.value
    }
}

impl Penalty {
    /// Whether a number is a penalty.
    pub open spec fn valid(value: Single) -> bool {
        value.within(SINGLE_TWO)
    }

    /// A penalty; `shown` is the number as an error shows it.
    pub fn new(value: Single, shown: &str) -> (r: Result<Self, AdapterError>)
        ensures
            Self::valid(value) ==> (r matches Ok(t) && t.value == value),
            !Self::valid(value) ==> (r matches Err(e) && e@ == range_error(
                "penalty must be finite and within [-2, 2], got "@,
                shown@,
            )),
    {
        if value.is_within(SINGLE_TWO) {
            Ok(Penalty { value })
        } else {
            let message = text::glue("penalty must be finite and within [-2, 2], got ", shown);
            Err(AdapterError::invalid_request("adapter", message.as_str()))
        }
    }

    /// The number.
    pub fn get(self) -> (r: Single)
        ensures
            r == self.value,
    {
        self.value
    }
}

/// The form of an answer.
#[derive(Debug, PartialEq)]
pub enum ResponseFormat {
    Text,
    JsonObject,
    JsonSchema { name: String, schema: Json, strict: Option<bool> },
}

/// A `ResponseFormat` with its texts as characters.
pub ghost enum FormatView {
    Text,
    JsonObject,
    JsonSchema { name: Seq<char>, schema: JsonView, strict: Option<bool> },
}

impl View for ResponseFormat {
    type V = FormatView;

    open spec fn view(&self) -> FormatView {
        match self {
            ResponseFormat::Text => FormatView::Text,
            ResponseFormat::JsonObject => FormatView::JsonObject,
            ResponseFormat::JsonSchema { name, schema, strict } => FormatView::JsonSchema {
                name: name@,
                schema: schema@,
                strict: *strict,
            },
        }
    }
}

impl Default for ResponseFormat {
    fn default() -> (r: Self)
        ensures
            r@ == FormatView::Text,
    {
        ResponseFormat::Text
    }
}

/// The name of a function.
#[derive(Debug, PartialEq)]
pub struct NamedFunction {
    pub name: String,
}

/// Which tools a model may or must call.
#[derive(Debug, PartialEq)]
pub enum ToolChoice {
    Auto,
    NoTool,
    Required,
    Named { kind: String, function: NamedFunction },
}

/// A `ToolChoice` with its texts as characters.
pub ghost enum ToolChoiceView {
    Auto,
    NoTool,
    Required,
    Named { kind: Seq<char>, name: Seq<char> },
}

impl View for ToolChoice {
    type V = ToolChoiceView;

    open spec fn view(&self) -> ToolChoiceView {
        match self {
            ToolChoice::Auto => ToolChoiceView::Auto,
            ToolChoice::NoTool => ToolChoiceView::NoTool,
            ToolChoice::Required => ToolChoiceView::Required,
            ToolChoice::Named { kind, function } => ToolChoiceView::Named {
                kind: kind@,
                name: function.name@,
            },
        }
    }
}

impl ToolChoice {
    /// The choice of one function.
    pub fn named(name: &str) -> (r: Self)
        ensures
            r@ == (ToolChoiceView::Named { kind: "function"@, name: name@ }),
    {
        ToolChoice::Named {
            kind: "function".to_owned(),
            function: NamedFunction { name: name.to_owned() },
        }
    }
}

/// The parameters of a request.
#[derive(Debug, PartialEq)]
pub struct CompletionParams {
    pub temperature: Option<Temperature>,
    pub top_p: Option<TopP>,
    pub max_tokens: Option<u32>,
    pub seed: Option<u64>,
    pub stop: Option<Vec<String>>,
    pub presence_penalty: Option<Penalty>,
    pub frequency_penalty: Option<Penalty>,
    pub user: Option<String>,
    pub response_format: Option<ResponseFormat>,
    pub tools: Option<Vec<ToolDefinition>>,
    pub tool_choice: Option<ToolChoice>,
    pub logprobs: Option<bool>,
    pub top_logprobs: Option<u8>,
    pub reasoning_effort: Option<ReasoningEffort>,
    pub parallel_tool_calls: Option<bool>,
    pub n: Option<u32>,
}

impl CompletionParams {
    /// Whether nothing is set.
    pub open spec fn blank(self) -> bool {
        &&& self.temperature is None && self.top_p is None && self.max_tokens is None
        &&& self.seed is None && self.stop is None && self.presence_penalty is None
        &&& self.frequency_penalty is None && self.user is None && self.response_format is None
        &&& self.tools is None && self.tool_choice is None && self.logprobs is None
        &&& self.top_logprobs is None && self.reasoning_effort is None
        &&& self.parallel_tool_calls is None && self.n is None
    }

    /// Parameters to be set one by one.
    pub fn builder() -> (r: CompletionParamsBuilder)
        ensures
            r.inner.blank(),
    {
        CompletionParamsBuilder { inner: CompletionParams::default() }
    }
}

impl Default for CompletionParams {
    fn default() -> (r: Self)
        ensures
            r.blank(),
    {
        CompletionParams {
            temperature: None,
            top_p: None,
            max_tokens: None,
            seed: None,
            stop: None,
            presence_penalty: None,
            frequency_penalty: None,
            user: None,
            response_format: None,
            tools: None,
            tool_choice: None,
            logprobs: None,
            top_logprobs: None,
            reasoning_effort: None,
            parallel_tool_calls: None,
            n: None,
        }
    }
}

/// Parameters that are set one by one.
#[derive(Debug)]
pub struct CompletionParamsBuilder {
    pub inner: CompletionParams,
}

impl CompletionParamsBuilder {
    /// Sets the temperature; `shown` is the number as an error shows it.
    pub fn temperature(self, value: Single, shown: &str) -> (r: Result<Self, AdapterError>)
        ensures
            Temperature::valid(value) ==> (r matches Ok(b) && b.inner == (CompletionParams {
                temperature: Some(Temperature { value }),
                ..self.inner
            })),
            !Temperature::valid(value) ==> (r matches Err(e) && e@ == range_error(
                "temperature must be finite and within [0, 2], got "@,
                shown@,
            )),
    {
        match Temperature::new(value, shown) {
            Ok(temperature) => {
                let mut inner = self.inner;
                inner.temperature = Some(temperature);
                Ok(CompletionParamsBuilder { inner })
            },
            Err(e) => Err(e),
        }
    }

    /// Sets the longest answer.
    pub fn max_tokens(self, value: u32) -> (r: Self)
        ensures
            r.inner == (CompletionParams { max_tokens: Some(value), ..self.inner }),
    {
        let mut inner = self.inner;
        inner.max_tokens = Some(value);
        CompletionParamsBuilder { inner }
    }

    /// Sets the user.
    pub fn user(self, value: String) -> (r: Self)
        ensures
            r.inner == (CompletionParams { user: Some(value), ..self.inner }),
    {
        let mut inner = self.inner;
        inner.user = Some(value);
        CompletionParamsBuilder { inner }
    }

    /// Sets the form of the answer.
    pub fn response_format(self, value: ResponseFormat) -> (r: Self)
        ensures
            r.inner == (CompletionParams { response_format: Some(value), ..self.inner }),
    {
        let mut inner = self.inner;
        inner.response_format = Some(value);
        CompletionParamsBuilder { inner }
    }

    /// Sets the tools.
    pub fn tools(self, value: Vec<ToolDefinition>) -> (r: Self)
        ensures
            r.inner == (CompletionParams { tools: Some(value), ..self.inner }),
    {
        let mut inner = self.inner;
        inner.tools = Some(value);
        CompletionParamsBuilder { inner }
    }

    /// Sets the choice among the tools.
    pub fn tool_choice(self, value: ToolChoice) -> (r: Self)
        ensures
            r.inner == (CompletionParams { tool_choice: Some(value), ..self.inner }),
    {
        let mut inner = self.inner;
        inner.tool_choice = Some(value);
        CompletionParamsBuilder { inner }
    }

    /// Sets whether probabilities are reported, and how many.
    pub fn logprobs(self, enabled: bool, top_logprobs: Option<u8>) -> (r: Self)
        ensures
            r.inner == (CompletionParams { logprobs: Some(enabled), top_logprobs, ..self.inner }),
    {
        let mut inner = self.inner;
        inner.logprobs = Some(enabled);
        inner.top_logprobs = top_logprobs;
        CompletionParamsBuilder { inner }
    }

    /// Sets how much the model thinks.
    pub fn reasoning_effort(self, value: ReasoningEffort) -> (r: Self)
        ensures
            r.inner == (CompletionParams { reasoning_effort: Some(value), ..self.inner }),
    {
        let mut inner = self.inner;
        inner.reasoning_effort = Some(value);
        CompletionParamsBuilder { inner }
    }

    /// Sets whether tools may be called side by side.
    pub fn parallel_tool_calls(self, enabled: bool) -> (r: Self)
        ensures
            r.inner == (CompletionParams { parallel_tool_calls: Some(enabled), ..self.inner }),
    {
        let mut inner = self.inner;
        inner.parallel_tool_calls = Some(enabled);
        CompletionParamsBuilder { inner }
    }

    /// Sets the number of answers.
    pub fn n(self, value: u32) -> (r: Self)
        ensures
            r.inner == (CompletionParams { n: Some(value), ..self.inner }),
    {
        let mut inner = self.inner;
        inner.n = Some(value);
        CompletionParamsBuilder { inner }
    }

    /// The parameters.
    pub fn build(self) -> (r: CompletionParams)
        ensures
            r == self.inner,
    {
        self.inner
    }
}

/// A request to a model.
#[derive(Debug, PartialEq)]
pub struct CompletionRequest {
    pub model: String,
    pub messages: Vec<Message>,
    pub params: CompletionParams,
}

impl CompletionRequest {
    /// A request without parameters.
    pub fn new(model: &str, messages: Vec<Message>) -> (r: Self)
        ensures
            r.model@ == model@,
            r.messages == messages,
            r.params.blank(),
    {
        CompletionRequest {
            model: model.to_owned(),
            messages,
            params: CompletionParams::default(),
        }
    }

    /// A question to be answered from an instruction alone, without thinking and without chance.
    pub fn light(system: &str, user: &str) -> (r: Self)
        ensures
            r.model@.len() == 0,
            chat_view(r.messages@) == seq![
                plain_message(Role::System, ContentView::Text(system@)),
                plain_message(Role::User, ContentView::Text(user@)),
            ],
            r.params.temperature == Some(Temperature { value: Single { bits: 0 } }),
            r.params.reasoning_effort == Some(ReasoningEffort::NoReasoning),
            (CompletionParams { temperature: None, reasoning_effort: None, ..r.params }).blank(),
    {
        let instruction = Message::system(system);
        let question = Message::user(user);
        let messages: Vec<Message> = vec![instruction, question];
        assert(chat_view(messages@) =~= seq![instruction@, question@]);
        let mut params = CompletionParams::default();
        params.temperature = Some(Temperature { value: Single { bits: 0 } });
        params.reasoning_effort = Some(ReasoningEffort::NoReasoning);
        proof {
            reveal_strlit("");
        }
        CompletionRequest::new("", messages).with_params(params)
    }

    /// The request with the given parameters.
    pub fn with_params(self, params: CompletionParams) -> (r: Self)
        ensures
            r == (CompletionRequest { params, ..self }),
    {
        CompletionRequest { model: self.model, messages: self.messages, params }
    }
}

// ---------------------------------------------------------------------------------------------
// Answers
// ---------------------------------------------------------------------------------------------
/// Why an answer ended.
#[derive(Debug, Clone, Copy, PartialEq, Eq, Structural)]
pub enum FinishReason {
    Stop,
    Length,
    ContentFilter,
    ToolCalls,
    FunctionCall,
    Unknown,
}

impl Default for FinishReason {
    fn default() -> (r: Self)
        ensures
            r == FinishReason::Unknown,
    {
        FinishReason::Unknown
    }
}

/// What an answer cost.
#[derive(Debug, Clone, Copy, PartialEq, Eq, Structural)]
pub struct TokenUsage {
    pub prompt_tokens: u32,
    pub completion_tokens: u32,
    pub total_tokens: u32,
}

impl TokenUsage {
    /// The cost with its total, which stops at the largest number.
    pub fn new(prompt_tokens: u32, completion_tokens: u32) -> (r: Self)
        ensures
            r.prompt_tokens == prompt_tokens,
            r.completion_tokens == completion_tokens,
            r.total_tokens == if prompt_tokens + completion_tokens <= u32::MAX {
                prompt_tokens + completion_tokens
            } else {
                u32::MAX as int
            },
    {
        TokenUsage {
            prompt_tokens,
            completion_tokens,
            total_tokens: prompt_tokens.saturating_add(completion_tokens),
        }
    }
}

/// A token with the logarithm of its probability.
#[derive(Debug, PartialEq)]
pub struct LogprobToken {
    pub token: String,
    pub logprob: Single,
}

/// Tokens with their probabilities.
#[derive(Debug, PartialEq)]
pub struct ContentLogprobs {
    pub tokens: Vec<LogprobToken>,
}

/// One answer.
#[derive(Debug, PartialEq)]
pub struct CompletionChoice {
    pub content: String,
    pub tool_calls: Vec<ToolCall>,
    pub finish_reason: FinishReason,
    pub logprobs: Option<ContentLogprobs>,
    pub reasoning: Option<String>,
}

impl CompletionChoice {
    /// Whether the answer calls tools.
    pub fn has_tool_calls(&self) -> (r: bool)
        ensures
            r == (self.tool_calls@.len() > 0),
    {
        self.tool_calls.len() > 0
    }
}

/// The answers to a request.
#[derive(Debug, PartialEq)]
pub struct CompletionResponse {
    pub model: String,
    pub choices: Vec<CompletionChoice>,
    pub usage: Option<TokenUsage>,
    pub request_id: Option<String>,
}

/// What a piece of a stream adds to an answer.
#[derive(Debug, PartialEq)]
pub struct ChunkDelta {
    pub role: Option<Role>,
    pub content: Option<String>,
    pub tool_calls: Vec<ToolCallDelta>,
    pub logprobs: Option<ContentLogprobs>,
    pub reasoning: Option<String>,
}

impl Default for ChunkDelta {
    fn default() -> (r: Self)
        ensures
            r.role is None && r.content is None && r.tool_calls@.len() == 0,
            r.logprobs is None && r.reasoning is None,
    {
        ChunkDelta {
            role: None,
            content: None,
            tool_calls: Vec::new(),
            logprobs: None,
            reasoning: None,
        }
    }
}

/// A piece of a stream.
#[derive(Debug, PartialEq)]
pub struct CompletionChunk {
    pub model: String,
    pub index: u32,
    pub delta: ChunkDelta,
    pub finish_reason: Option<FinishReason>,
    pub usage: Option<TokenUsage>,
    pub request_id: Option<String>,
}

impl CompletionChunk {
    /// The text that the piece adds.
    pub fn content(&self) -> (r: Option<&str>)
        ensures
            match self.delta.content {
                Some(s) => r matches Some(t) && t@ == s@,
                None => r is None,
            },
    {
        match &self.delta.content {
            Some(s) => Some(s.as_str()),
            None => None,
        }
    }
}

/// A model that a server offers.
#[derive(Debug, PartialEq)]
pub struct ModelInfo {
    pub id: String,
    pub object: Option<String>,
    pub owned_by: Option<String>,
    pub created_at: Option<u64>,
}

/// What an adapter can do.
#[derive(Debug, Clone, Copy, PartialEq, Eq, Structural)]
pub struct AdapterCapabilities {
    pub streaming: bool,
    pub model_listing: bool,
    pub model_retrieval: bool,
    pub tool_calling: bool,
    pub json_mode: bool,
    pub json_schema: bool,
    pub logprobs: bool,
    pub multimodal_text: bool,
    pub multimodal_image: bool,
    pub multimodal_audio: bool,
    pub usage_in_stream: bool,
}

impl Default for AdapterCapabilities {
    fn default() -> (r: Self)
        ensures
            r == (AdapterCapabilities {
                streaming: false,
                model_listing: false,
                model_retrieval: false,
                tool_calling: false,
                json_mode: false,
                json_schema: false,
                logprobs: false,
                multimodal_text: true,
                multimodal_image: false,
                multimodal_audio: false,
                usage_in_stream: false,
            }),
    {
        AdapterCapabilities {
            streaming: false,
            model_listing: false,
            model_retrieval: false,
            tool_calling: false,
            json_mode: false,
            json_schema: false,
            logprobs: false,
            multimodal_text: true,
            multimodal_image: false,
            multimodal_audio: false,
            usage_in_stream: false,
        }
    }
}

// ---------------------------------------------------------------------------------------------
// Names on the wire
// ---------------------------------------------------------------------------------------------
/// The role with a given name.
pub open spec fn role_named(value: Seq<char>) -> Option<Role> {
    if value == "system"@ {
        Some(Role::System)
    } else if value == "user"@ {
        Some(Role::User)
    } else if value == "assistant"@ {
        Some(Role::Assistant)
    } else if value == "tool"@ {
        Some(Role::Tool)
    } else {
        None
    }
}

/// The role with a given name.
pub fn parse_role(value: &str) -> (r: Option<Role>)
    ensures
        r == role_named(value@),
{
    if text::same(value, "system") {
        Some(Role::System)
    } else if text::same(value, "user") {
        Some(Role::User)
    } else if text::same(value, "assistant") {
        Some(Role::Assistant)
    } else if text::same(value, "tool") {
        Some(Role::Tool)
    } else {
        None
    }
}

/// The reason with a given name.
pub open spec fn reason_named(value: Seq<char>) -> FinishReason {
    if value == "stop"@ {
        FinishReason::Stop
    } else if value == "length"@ {
        FinishReason::Length
    } else if value == "content_filter"@ {
        FinishReason::ContentFilter
    } else if value == "tool_calls"@ {
        FinishReason::ToolCalls
    } else if value == "function_call"@ {
        FinishReason::FunctionCall
    } else {
        FinishReason::Unknown
    }
}

/// The reason with a given name; a name that is not known stands for an unknown reason.
pub fn parse_finish_reason(value: &str) -> (r: Option<FinishReason>)
    ensures
        r == Some(reason_named(value@)),
{
    Some(
        if text::same(value, "stop") {
            FinishReason::Stop
        } else if text::same(value, "length") {
            FinishReason::Length
        } else if text::same(value, "content_filter") {
            FinishReason::ContentFilter
        } else if text::same(value, "tool_calls") {
            FinishReason::ToolCalls
        } else if text::same(value, "function_call") {
            FinishReason::FunctionCall
        } else {
            FinishReason::Unknown
        },
    )
}

/// A role that is sent by its name is read back as the same role.
pub proof fn role_survives_the_wire(role: Role)
    ensures
        role_named(role_name(role)) == Some(role),
{
    reveal_strlit("system");
    reveal_strlit("user");
    reveal_strlit("assistant");
    reveal_strlit("tool");
    assert("system"@.len() == 6 && "user"@.len() == 4 && "assistant"@.len() == 9 && "tool"@.len()
        == 4);
    assert("user"@[0] == 'u' && "tool"@[0] == 't');
}

/// Copies of optional texts in a list.
pub fn copy_texts(v: &Option<Vec<String>>) -> (r: Option<Vec<String>>)
    ensures
        opt_views(r) == opt_views(*v),
{
    match v {
        Some(v) => {
            let mut out: Vec<String> = Vec::new();
            let mut i: usize = 0;
            while i < v.len()
                invariant
                    i <= v@.len(),
                    out@.len() == i,
                    forall|k: int| 0 <= k < i ==> (#[trigger] out@[k])@ == v@[k]@,
                decreases v@.len() - i,
            {
                out.push(v[i].clone());
                i += 1;
            }
            assert(text::views(out@) =~= text::views(v@));
            Some(out)
        },
        None => None,
    }
}

/// The views of texts in an optional list.
pub open spec fn opt_views(v: Option<Vec<String>>) -> Option<Seq<Seq<char>>> {
    match v {
        Some(v) => Some(text::views(v@)),
        None => None,
    }
}

} // verus!
