use prognosis::adapter::deepseek::wire::{
    ThinkingConfig, WireDeepSeekChatCompletionRequest, WireDeepSeekChunk, WireDeepSeekChunkChoice,
    WireDeepSeekDelta, WireDeepSeekModel, WireDeepSeekModelList, WireDeepSeekTool,
    WireDeepSeekToolChoice,
};
use prognosis::adapter::error::AdapterError;
use prognosis::adapter::types::{
    CompletionParams, CompletionRequest, ContentPart, ImageDetail, Message, MessageContent,
    ReasoningEffort, ResponseFormat, Role, ToolChoice, ToolDefinition,
};
use prognosis::json::Json;
use prognosis::number::Single;

fn single(value: f32) -> Single {
    Single { bits: value.to_bits() }
}

#[test]
fn wire_request_serialization_shape() {
    let request = CompletionRequest::new("deepseek-v4-pro", vec![Message::user("hi")]).with_params(
        CompletionParams::builder()
            .temperature(single(0.5), "0.5")
            .unwrap()
            .max_tokens(512)
            .user("user-1".to_string())
            .logprobs(true, Some(3))
            .tools(vec![ToolDefinition::function(
                "get_weather",
                Some("weather lookup".to_string()),
                Json::Object(vec![("type".to_string(), Json::Text("object".to_string()))]),
            )])
            .tool_choice(ToolChoice::named("get_weather"))
            .build(),
    );
    let thinking = ThinkingConfig::enabled().with_effort(ReasoningEffort::Max);
    let wire = WireDeepSeekChatCompletionRequest::from_request(&request, Some(thinking)).unwrap();
    assert_eq!(wire.model, "deepseek-v4-pro");
    assert!(wire.stream);
    assert!(wire.stream_options.unwrap().include_usage);
    let sent = wire.thinking.as_ref().unwrap();
    assert_eq!(sent.kind, "enabled");
    assert_eq!(sent.reasoning_effort.as_deref(), Some("max"));
    assert_eq!(wire.max_tokens, Some(512));
    assert_eq!(wire.user_id.as_deref(), Some("user-1"));
    assert_eq!(wire.logprobs, Some(true));
    assert_eq!(wire.messages[0].content.as_deref(), Some("hi"));
    match &wire.tools.as_ref().unwrap()[0] {
        WireDeepSeekTool::Function { function } => assert_eq!(function.name, "get_weather"),
    }
    match &wire.tool_choice {
        Some(WireDeepSeekToolChoice::Function { kind, function }) => {
            assert_eq!(kind, "function");
            assert_eq!(function.name, "get_weather");
        }
        _ => panic!("expected a named tool"),
    }
    assert!(wire.temperature.is_none());
    assert!(wire.top_p.is_none());
}

#[test]
fn thinking_disabled_serialization() {
    let request = CompletionRequest::new("deepseek-v4-flash", vec![Message::user("hi")]);
    let wire = WireDeepSeekChatCompletionRequest::from_request(
        &request,
        Some(ThinkingConfig::disabled()),
    )
    .unwrap();
    let sent = wire.thinking.unwrap();
    assert_eq!(sent.kind, "disabled");
    assert!(sent.reasoning_effort.is_none());
}

#[test]
fn effort_mapping_mirrors_server_compat() {
    let effort = |level: ReasoningEffort| {
        let request = CompletionRequest::new("deepseek-v4-flash", vec![Message::user("hi")]);
        let thinking = ThinkingConfig::enabled().with_effort(level);
        let wire =
            WireDeepSeekChatCompletionRequest::from_request(&request, Some(thinking)).unwrap();
        wire.thinking.and_then(|sent| sent.reasoning_effort).unwrap_or_default()
    };
    assert_eq!(effort(ReasoningEffort::Minimal), "low");
    assert_eq!(effort(ReasoningEffort::Low), "low");
    assert_eq!(effort(ReasoningEffort::Medium), "high");
    assert_eq!(effort(ReasoningEffort::High), "high");
    assert_eq!(
        effort(ReasoningEffort::XHigh),
        "high",
        "DeepSeek maps xhigh to high server-side; mirror that"
    );
    assert_eq!(effort(ReasoningEffort::Max), "max");
}

#[test]
fn sampling_params_sent_only_when_thinking_disabled() {
    let request = CompletionRequest::new("deepseek-v4-pro", vec![Message::user("hi")]).with_params(
        CompletionParams::builder().temperature(single(0.5), "0.5").unwrap().build(),
    );
    let enabled =
        WireDeepSeekChatCompletionRequest::from_request(&request, Some(ThinkingConfig::enabled()))
            .unwrap();
    assert!(enabled.temperature.is_none());
    assert!(enabled.top_p.is_none());
    let disabled =
        WireDeepSeekChatCompletionRequest::from_request(&request, Some(ThinkingConfig::disabled()))
            .unwrap();
    assert_eq!(disabled.temperature, Some(single(0.5)));
    let default_thinking = WireDeepSeekChatCompletionRequest::from_request(&request, None).unwrap();
    assert!(default_thinking.temperature.is_none());
}

#[test]
fn json_schema_rejected() {
    let request = CompletionRequest::new("deepseek-v4-pro", vec![Message::user("hi")]).with_params(
        CompletionParams::builder()
            .response_format(ResponseFormat::JsonSchema {
                name: "x".into(),
                schema: Json::Object(vec![]),
                strict: None,
            })
            .build(),
    );
    let err = WireDeepSeekChatCompletionRequest::from_request(&request, None).unwrap_err();
    assert!(matches!(err, AdapterError::InvalidRequest { .. }));
}

#[test]
fn multimodal_parts_rejected() {
    let request = CompletionRequest::new(
        "deepseek-v4-pro",
        vec![Message::new(
            Role::User,
            MessageContent::parts(vec![
                ContentPart::text("look"),
                ContentPart::image_url("https://example.com/a.png", ImageDetail::Low),
            ]),
        )],
    );
    let err = WireDeepSeekChatCompletionRequest::from_request(&request, None).unwrap_err();
    assert!(matches!(err, AdapterError::InvalidRequest { .. }));
}

#[test]
fn text_parts_joined() {
    let request = CompletionRequest::new(
        "deepseek-v4-pro",
        vec![Message::new(
            Role::User,
            MessageContent::parts(vec![ContentPart::text("hello "), ContentPart::text("world")]),
        )],
    );
    let wire = WireDeepSeekChatCompletionRequest::from_request(&request, None).unwrap();
    assert_eq!(wire.messages[0].content.as_deref(), Some("hello world"));
}

#[test]
fn chunk_with_reasoning_deserialization() {
    let wire = WireDeepSeekChunk {
        id: "chatcmpl-ds1".into(),
        model: "deepseek-v4-pro".into(),
        choices: vec![WireDeepSeekChunkChoice {
            index: 0,
            delta: WireDeepSeekDelta {
                role: Some("assistant".into()),
                content: Some("Answer".into()),
                reasoning_content: Some("Let me think".into()),
                tool_calls: vec![],
                logprobs: None,
            },
            finish_reason: None,
        }],
        usage: None,
    };
    let chunk = wire.into_chunks().into_iter().next().unwrap();
    assert_eq!(chunk.content(), Some("Answer"));
    assert_eq!(chunk.delta.reasoning.as_deref(), Some("Let me think"));
    assert_eq!(chunk.request_id.as_deref(), Some("chatcmpl-ds1"));
}

#[test]
fn listed_models_keep_their_order() {
    let model = |id: &str| WireDeepSeekModel {
        id: id.to_string(),
        object: None,
        owned_by: None,
        created: None,
    };
    let infos = WireDeepSeekModelList { data: vec![model("a"), model("b")] }.into_infos();
    assert_eq!(infos[0].id, "a");
    assert_eq!(infos[1].id, "b");
}
