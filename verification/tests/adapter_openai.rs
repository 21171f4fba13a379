use prognosis::adapter::error::AdapterError;
use prognosis::adapter::openai::wire::{
    openai_effort, supports_sampling, WireChatCompletionChunk, WireChatCompletionRequest,
    WireChunkChoice, WireChunkLogprobs, WireContent, WireContentPart, WireDelta, WireFunctionDelta,
    WireLogprobToken, WireModel, WireModelList, WireResponseFormat, WireTool, WireToolCallDelta,
    WireToolChoice, WireUsage,
};
use prognosis::adapter::types::{
    AudioFormat, CompletionParams, CompletionRequest, ContentPart, FunctionDefinition,
    FunctionParameters, ImageDetail, Message, MessageContent, ReasoningEffort, ResponseFormat, Role,
    Temperature, ToolCall, ToolChoice, ToolDefinition, TopP,
};
use prognosis::json::Json;
use prognosis::number::Single;

fn single(value: f32) -> Single {
    Single { bits: value.to_bits() }
}

fn text(s: &str) -> Json {
    Json::Text(s.to_string())
}

fn object(fields: Vec<(&str, Json)>) -> Json {
    Json::Object(fields.into_iter().map(|(key, value)| (key.to_string(), value)).collect())
}

#[test]
fn request_serialization_shape() {
    let request = CompletionRequest::new("gpt-4o", vec![Message::user("hi")]).with_params(
        CompletionParams::builder()
            .temperature(single(0.5), "0.5")
            .unwrap()
            .logprobs(true, Some(3))
            .tools(vec![ToolDefinition::function(
                "get_weather",
                Some("weather lookup".to_string()),
                object(vec![("type", text("object"))]),
            )])
            .tool_choice(ToolChoice::named("get_weather"))
            .response_format(ResponseFormat::JsonSchema {
                name: "weather".into(),
                schema: object(vec![("type", text("object"))]),
                strict: Some(true),
            })
            .build(),
    );
    let wire = WireChatCompletionRequest::from_request(&request).unwrap();
    assert_eq!(wire.model, "gpt-4o");
    assert!(wire.stream);
    assert!(wire.stream_options.unwrap().include_usage);
    assert_eq!(wire.messages[0].role, "user");
    assert!(matches!(&wire.messages[0].content, Some(WireContent::Text(said)) if said == "hi"));
    assert_eq!(wire.temperature, Some(single(0.5)));
    assert_eq!(wire.logprobs, Some(true));
    assert_eq!(wire.top_logprobs, Some(3));
    match &wire.tools.unwrap()[0] {
        WireTool::Function { function } => assert_eq!(function.name, "get_weather"),
    }
    match &wire.tool_choice {
        Some(WireToolChoice::Function { kind, function }) => {
            assert_eq!(kind, "function");
            assert_eq!(function.name, "get_weather");
        }
        _ => panic!("expected a named tool"),
    }
    match &wire.response_format {
        Some(WireResponseFormat::JsonSchema { json_schema }) => {
            assert_eq!(json_schema.strict, Some(true))
        }
        _ => panic!("expected a schema"),
    }
}

#[test]
fn advanced_params_serialization() {
    let request = CompletionRequest::new("gpt-4o", vec![Message::user("hi")]).with_params(
        CompletionParams::builder()
            .reasoning_effort(ReasoningEffort::XHigh)
            .parallel_tool_calls(false)
            .n(3)
            .build(),
    );
    let wire = WireChatCompletionRequest::from_request(&request).unwrap();
    assert_eq!(
        wire.reasoning_effort.as_deref(),
        Some("xhigh"),
        "xhigh is a valid OpenAI effort value and must pass through"
    );
    assert_eq!(wire.parallel_tool_calls, Some(false));
    assert_eq!(wire.n, Some(3));
}

#[test]
fn effort_passes_through_full_enum() {
    let effort = |level: ReasoningEffort| {
        let mut request = CompletionRequest::new("gpt-5", vec![Message::user("hi")]);
        request.params.reasoning_effort = Some(level);
        let wire = WireChatCompletionRequest::from_request(&request).unwrap();
        wire.reasoning_effort.unwrap_or_default()
    };
    assert_eq!(effort(ReasoningEffort::Minimal), "minimal");
    assert_eq!(effort(ReasoningEffort::Low), "low");
    assert_eq!(effort(ReasoningEffort::Medium), "medium");
    assert_eq!(effort(ReasoningEffort::High), "high");
    assert_eq!(effort(ReasoningEffort::XHigh), "xhigh");
    assert_eq!(effort(ReasoningEffort::Max), "max");
}

#[test]
fn sampling_params_omitted_for_reasoning_models() {
    let build = |model: &str| {
        let mut request = CompletionRequest::new(model, vec![Message::user("hi")]);
        request.params.temperature = Temperature::new(single(0.5), "0.5").ok();
        request.params.top_p = TopP::new(single(0.9), "0.9").ok();
        request.params.user = Some("u1".into());
        WireChatCompletionRequest::from_request(&request).unwrap()
    };
    let legacy = build("gpt-4o");
    assert_eq!(legacy.temperature, Some(single(0.5)));
    assert_eq!(legacy.top_p, Some(single(0.9)));
    assert_eq!(legacy.user.as_deref(), Some("u1"));
    for model in ["gpt-5", "gpt-5.1", "o3", "o4-mini", "chatgpt-5"] {
        let wire = build(model);
        assert!(wire.temperature.is_none(), "{model} must not send temperature");
        assert!(wire.top_p.is_none(), "{model} must not send top_p");
        assert!(wire.user.is_none(), "{model} must not send user");
        assert!(!supports_sampling(model));
    }
}

#[test]
fn explicit_no_reasoning_omits_effort_field() {
    let mut request = CompletionRequest::new("gpt-4o", vec![Message::user("hi")]);
    request.params.reasoning_effort = Some(ReasoningEffort::NoReasoning);
    let wire = WireChatCompletionRequest::from_request(&request).unwrap();
    assert!(
        wire.reasoning_effort.is_none(),
        "\"none\" is not a valid OpenAI reasoning_effort value; it must be omitted"
    );
    assert_eq!(openai_effort(ReasoningEffort::NoReasoning), None);
}

#[test]
fn strict_tool_passthrough() {
    let tool = ToolDefinition::Function {
        function: FunctionDefinition {
            name: "get_weather".into(),
            description: None,
            parameters: FunctionParameters::new(object(vec![("type", text("object"))])),
            strict: Some(true),
        },
    };
    let request = CompletionRequest::new("gpt-4o", vec![Message::user("hi")])
        .with_params(CompletionParams::builder().tools(vec![tool]).build());
    let wire = WireChatCompletionRequest::from_request(&request).unwrap();
    match &wire.tools.unwrap()[0] {
        WireTool::Function { function } => assert_eq!(function.strict, Some(true)),
    }
}

#[test]
fn multimodal_message_serialization() {
    let request = CompletionRequest::new(
        "gpt-4o",
        vec![Message::new(
            Role::User,
            MessageContent::parts(vec![
                ContentPart::text("what is this"),
                ContentPart::image_url("https://example.com/a.png", ImageDetail::High),
                ContentPart::input_audio("AQID", AudioFormat::Wav),
            ]),
        )],
    );
    let wire = WireChatCompletionRequest::from_request(&request).unwrap();
    let parts = match &wire.messages[0].content {
        Some(WireContent::Parts(parts)) => parts,
        _ => panic!("expected parts"),
    };
    assert!(matches!(&parts[0], WireContentPart::Text { .. }));
    match &parts[1] {
        WireContentPart::ImageUrl { image_url } => {
            assert_eq!(image_url.detail.as_deref(), Some("high"))
        }
        _ => panic!("expected a picture"),
    }
    match &parts[2] {
        WireContentPart::InputAudio { input_audio } => assert_eq!(input_audio.format, "wav"),
        _ => panic!("expected a recording"),
    }
}

#[test]
fn tool_call_message_serialization() {
    let request = CompletionRequest::new(
        "gpt-4o",
        vec![Message::assistant_with_tool_calls(vec![ToolCall {
            id: "call_1".into(),
            name: "get_weather".into(),
            arguments: object(vec![("city", text("beijing"))]),
        }])],
    );
    let wire = WireChatCompletionRequest::from_request(&request).unwrap();
    assert_eq!(wire.messages[0].role, "assistant");
    let calls = wire.messages[0].tool_calls.as_ref().unwrap();
    assert_eq!(calls[0].id, "call_1");
    assert_eq!(calls[0].kind, "function");
    assert_eq!(calls[0].function.name, "get_weather");
    assert_eq!(calls[0].function.arguments, r#"{"city":"beijing"}"#);
}

fn received(delta: WireDelta) -> WireChatCompletionChunk {
    WireChatCompletionChunk {
        id: "chatcmpl-1".into(),
        model: "gpt-4o".into(),
        choices: vec![WireChunkChoice { index: 0, delta, finish_reason: None }],
        usage: None,
    }
}

#[test]
fn chunk_deserialization() {
    let wire = received(WireDelta {
        role: Some("assistant".into()),
        content: Some("Hello".into()),
        tool_calls: vec![WireToolCallDelta {
            index: 0,
            id: Some("call_1".into()),
            function: Some(WireFunctionDelta {
                name: Some("get_weather".into()),
                arguments: Some("{\"city\":".into()),
            }),
        }],
        logprobs: None,
    });
    let chunk = wire.into_chunks().into_iter().next().unwrap();
    assert_eq!(chunk.content(), Some("Hello"));
    assert_eq!(chunk.delta.tool_calls[0].index, 0);
    assert_eq!(chunk.delta.tool_calls[0].id.as_deref(), Some("call_1"));
    assert_eq!(chunk.delta.tool_calls[0].name.as_deref(), Some("get_weather"));
    assert_eq!(chunk.delta.tool_calls[0].arguments_delta.as_deref(), Some("{\"city\":"));
    assert_eq!(chunk.request_id.as_deref(), Some("chatcmpl-1"));
    assert_eq!(chunk.finish_reason, None);
}

#[test]
fn chunk_logprobs_deserialization() {
    let wire = received(WireDelta {
        role: None,
        content: Some("hi".into()),
        tool_calls: vec![],
        logprobs: Some(WireChunkLogprobs {
            content: vec![WireLogprobToken { token: "hi".into(), logprob: single(-0.3) }],
        }),
    });
    let chunk = wire.into_chunks().into_iter().next().unwrap();
    let logprobs = chunk.delta.logprobs.unwrap();
    assert_eq!(logprobs.tokens[0].token, "hi");
    assert_eq!(logprobs.tokens[0].logprob, single(-0.3));
}

#[test]
fn a_chunk_without_choices_carries_the_usage() {
    let wire = WireChatCompletionChunk {
        id: "chatcmpl-1".into(),
        model: "gpt-4o".into(),
        choices: vec![],
        usage: Some(WireUsage { prompt_tokens: 5, completion_tokens: 2, total_tokens: 7 }),
    };
    let chunks = wire.into_chunks();
    assert_eq!(chunks.len(), 1);
    assert_eq!(chunks[0].usage.unwrap().total_tokens, 7);
}

#[test]
fn model_list_deserialization() {
    let list = WireModelList {
        data: vec![WireModel {
            id: "gpt-4o".into(),
            object: Some("model".into()),
            owned_by: Some("openai".into()),
            created: Some(1700000000),
        }],
    };
    let info = list.into_infos().into_iter().next().unwrap();
    assert_eq!(info.id, "gpt-4o");
    assert_eq!(info.owned_by.as_deref(), Some("openai"));
    assert_eq!(info.created_at, Some(1700000000));
}

#[test]
fn a_tool_message_names_its_call() {
    let request = CompletionRequest::new("gpt-4o", vec![Message::tool("call_1", "sunny")]);
    let wire = WireChatCompletionRequest::from_request(&request).unwrap();
    assert_eq!(wire.messages[0].role, "tool");
    assert_eq!(wire.messages[0].tool_call_id.as_deref(), Some("call_1"));
    let nameless: Result<_, AdapterError> = WireChatCompletionRequest::from_request(
        &CompletionRequest::new("gpt-4o", vec![Message::system("be brief")]),
    );
    assert_eq!(nameless.unwrap().messages[0].role, "system");
}
