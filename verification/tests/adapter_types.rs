use prognosis::adapter::deepseek::client::thinking_for;
use prognosis::adapter::deepseek::wire::{ThinkingConfig, WireDeepSeekChatCompletionRequest};
use prognosis::adapter::error::AdapterError;
use prognosis::adapter::traits::{arguments_from, parse_arguments, reply_text, Aggregator};
use prognosis::adapter::types::{
    parse_finish_reason, parse_role, ChunkDelta, CompletionChunk, CompletionParams,
    CompletionRequest, ContentLogprobs, ContentPart, FinishReason, ImageDetail, LogprobToken, Message, MessageContent, Penalty,
    ReasoningEffort, Role, Temperature, TokenUsage, ToolCallDelta, ToolChoice, TopP,
};
use prognosis::json::Json;
use prognosis::number::Single;

fn single(value: f32) -> Single {
    Single { bits: value.to_bits() }
}

#[test]
fn message_content_plain_text() {
    let content = MessageContent::parts(vec![
        ContentPart::text("hello"),
        ContentPart::text("world"),
    ]);
    assert_eq!(content.to_plain_text(), "hello\nworld");
}

#[test]
fn plain_text_leaves_out_pictures() {
    let content = MessageContent::parts(vec![
        ContentPart::text("hello"),
        ContentPart::image_url("https://example.com/a.png", ImageDetail::Low),
        ContentPart::text("world"),
    ]);
    assert_eq!(content.to_plain_text(), "hello\nworld");
    assert!(!content.is_empty());
    assert!(MessageContent::text("").is_empty());
}

#[test]
fn temperature_validation() {
    assert!(Temperature::new(single(0.7), "0.7").is_ok());
    assert!(Temperature::new(single(2.1), "2.1").is_err());
    assert!(Temperature::new(single(f32::NAN), "NaN").is_err());
    assert!(Temperature::new(single(2.0), "2").is_ok());
    assert!(Temperature::new(single(-0.1), "-0.1").is_err());
}

#[test]
fn top_p_validation() {
    assert!(TopP::new(single(1.0), "1").is_ok());
    assert!(TopP::new(single(1.1), "1.1").is_err());
}

#[test]
fn penalty_validation() {
    assert!(Penalty::new(single(0.0), "0").is_ok());
    assert!(Penalty::new(single(-2.0), "-2").is_ok());
    assert!(Penalty::new(single(2.0), "2").is_ok());
    assert!(Penalty::new(single(2.1), "2.1").is_err());
    assert!(Penalty::new(single(-2.1), "-2.1").is_err());
}

#[test]
fn tool_choice_serialization() {
    match ToolChoice::named("get_weather") {
        ToolChoice::Named { function, .. } => assert_eq!(function.name, "get_weather"),
        _ => panic!("expected a named tool"),
    }
}

#[test]
fn token_usage_total() {
    let usage = TokenUsage::new(10, 20);
    assert_eq!(usage.total_tokens, 30);
}

#[test]
fn builder_refuses_a_temperature_out_of_range() {
    match CompletionParams::builder().temperature(single(3.0), "3") {
        Err(AdapterError::InvalidRequest { message, .. }) => {
            assert!(message.contains('3'), "{message}")
        }
        _ => panic!("expected an invalid request"),
    }
}

#[test]
fn roles_and_reasons_are_read() {
    assert_eq!(parse_role("assistant"), Some(Role::Assistant));
    assert_eq!(parse_role("nobody"), None);
    assert_eq!(Role::Tool.as_str(), "tool");
    assert_eq!(parse_finish_reason("tool_calls"), Some(FinishReason::ToolCalls));
    assert_eq!(Message::tool("call_1", "done").tool_call_id.as_deref(), Some("call_1"));
}

fn chunk(
    content: Option<&str>,
    tool_calls: Vec<ToolCallDelta>,
    finish_reason: Option<FinishReason>,
    usage: Option<TokenUsage>,
) -> CompletionChunk {
    CompletionChunk {
        model: "test-model".into(),
        index: 0,
        delta: ChunkDelta {
            role: None,
            content: content.map(Into::into),
            tool_calls,
            logprobs: None,
            reasoning: None,
        },
        finish_reason,
        usage,
        request_id: None,
    }
}

fn tool_delta(
    index: u32,
    id: Option<&str>,
    name: Option<&str>,
    args: Option<&str>,
) -> ToolCallDelta {
    ToolCallDelta {
        index,
        id: id.map(Into::into),
        name: name.map(Into::into),
        arguments_delta: args.map(Into::into),
    }
}

fn complete(
    chunks: Vec<CompletionChunk>,
) -> Result<prognosis::adapter::types::CompletionResponse, AdapterError> {
    let mut aggregator = Aggregator::new();
    for chunk in chunks {
        aggregator.add(chunk);
    }
    aggregator.finish("test", "test-model")
}

#[test]
fn complete_aggregates_content_and_usage() {
    let response = complete(vec![
        chunk(Some("hello "), vec![], None, None),
        chunk(Some("world"), vec![], Some(FinishReason::Stop), Some(TokenUsage::new(5, 3))),
    ])
    .unwrap();
    assert_eq!(response.choices[0].content, "hello world");
    assert_eq!(response.choices[0].finish_reason, FinishReason::Stop);
    assert_eq!(response.usage, Some(TokenUsage::new(5, 3)));
    assert_eq!(response.model, "test-model");
}

#[test]
fn complete_merges_tool_call_deltas() {
    let response = complete(vec![
        chunk(
            None,
            vec![tool_delta(0, Some("call_1"), Some("get_weather"), Some("{\"city\":"))],
            None,
            None,
        ),
        chunk(
            None,
            vec![
                tool_delta(0, None, None, Some("\"beijing\"}")),
                tool_delta(1, Some("call_2"), Some("get_time"), Some("{}")),
            ],
            Some(FinishReason::ToolCalls),
            None,
        ),
    ])
    .unwrap();
    assert_eq!(response.choices[0].tool_calls.len(), 2);
    assert_eq!(response.choices[0].tool_calls[0].id, "call_1");
    assert_eq!(response.choices[0].tool_calls[0].name, "get_weather");
    assert_eq!(
        response.choices[0].tool_calls[0].arguments.get("city").and_then(Json::as_str),
        Some("beijing")
    );
    assert_eq!(response.choices[0].tool_calls[1].arguments, Json::Object(vec![]));
    assert_eq!(response.choices[0].finish_reason, FinishReason::ToolCalls);
    assert!(response.choices[0].has_tool_calls());
}

#[test]
fn complete_errors_on_empty_stream() {
    let err = complete(vec![]).unwrap_err();
    assert!(matches!(err, AdapterError::Stream { .. }));
}

#[test]
fn complete_aggregates_logprobs() {
    let mut piece = chunk(Some("x"), vec![], Some(FinishReason::Stop), None);
    piece.delta.logprobs = Some(ContentLogprobs {
        tokens: vec![LogprobToken { token: "x".into(), logprob: single(-0.5) }],
    });
    let response = complete(vec![piece]).unwrap();
    assert_eq!(
        response.choices[0].logprobs.as_ref().unwrap().tokens[0].logprob,
        single(-0.5)
    );
}

#[test]
fn complete_aggregates_reasoning() {
    let mut first = chunk(Some("answer"), vec![], None, None);
    first.delta.reasoning = Some("step one ".into());
    let mut second = chunk(None, vec![], Some(FinishReason::Stop), None);
    second.delta.reasoning = Some("step two".into());
    let response = complete(vec![first, second]).unwrap();
    assert_eq!(response.choices[0].reasoning.as_deref(), Some("step one step two"));
    assert_eq!(response.choices[0].content, "answer");
}

#[test]
fn complete_aggregates_multiple_choices() {
    let mut pieces = vec![
        chunk(Some("first"), vec![], None, None),
        chunk(Some("second"), vec![], None, None),
        chunk(Some("!"), vec![], Some(FinishReason::Stop), Some(TokenUsage::new(5, 5))),
        chunk(Some("?"), vec![], Some(FinishReason::Stop), None),
    ];
    pieces[1].index = 1;
    pieces[3].index = 1;
    let response = complete(pieces).unwrap();
    assert_eq!(response.choices.len(), 2);
    assert_eq!(response.choices[0].content, "first!");
    assert_eq!(response.choices[1].content, "second?");
    assert_eq!(response.choices[1].finish_reason, FinishReason::Stop);
    assert_eq!(response.usage, Some(TokenUsage::new(5, 5)));
}

#[test]
fn broken_arguments_are_kept_as_text() {
    let parsed = parse_arguments(Some("{\"a\": 1}".to_string()));
    assert_eq!(parsed.get("a").and_then(Json::as_u64), Some(1));
    let broken = parse_arguments(Some("{\"a\":".to_string()));
    assert_eq!(broken, arguments_from(Some("{\"a\":".to_string()), None));
    assert_eq!(parse_arguments(None), arguments_from(None, None));
}

#[test]
fn replies_are_the_text_of_their_chunks() {
    let chunks = vec![
        chunk(Some("a"), vec![], None, None),
        chunk(None, vec![], None, None),
        chunk(Some("b"), vec![], Some(FinishReason::Stop), None),
    ];
    assert_eq!(reply_text(&chunks), "ab");
}

/// The body that a client without a setting of its own sends.
fn sent(effort: Option<ReasoningEffort>, temperature: bool) -> WireDeepSeekChatCompletionRequest {
    let mut request = CompletionRequest::new("deepseek-v4-pro", vec![Message::user("hi")]);
    request.params.reasoning_effort = effort;
    if temperature {
        request.params.temperature = Some(Temperature::new(single(0.0), "0").unwrap());
    }
    let thinking = thinking_for(None, request.params.reasoning_effort);
    WireDeepSeekChatCompletionRequest::from_request(&request, thinking).unwrap()
}

#[test]
fn explicit_no_reasoning_disables_thinking() {
    let body = sent(Some(ReasoningEffort::NoReasoning), true);
    assert_eq!(body.thinking.unwrap().kind, "disabled");
    assert!(
        body.temperature.is_some(),
        "sampling params must be sent when thinking is disabled"
    );
    assert_eq!(
        thinking_for(None, Some(ReasoningEffort::NoReasoning)),
        Some(ThinkingConfig::disabled())
    );
}

#[test]
fn explicit_reasoning_enables_thinking_with_effort() {
    for temperature in [false, true] {
        let body = sent(Some(ReasoningEffort::High), temperature);
        let thinking = body.thinking.unwrap();
        assert_eq!(thinking.kind, "enabled");
        assert_eq!(thinking.reasoning_effort.as_deref(), Some("high"));
        assert!(
            body.temperature.is_none(),
            "sampling params must be dropped while thinking is enabled"
        );
    }
    assert_eq!(
        thinking_for(None, Some(ReasoningEffort::High)),
        Some(ThinkingConfig::enabled().with_effort(ReasoningEffort::High))
    );
}

#[test]
fn unset_effort_leaves_thinking_to_config() {
    assert!(
        sent(None, false).thinking.is_none(),
        "unset effort must not inject thinking (vendor default applies)"
    );
    assert_eq!(thinking_for(None, None), None);
    assert_eq!(
        thinking_for(Some(ThinkingConfig::enabled()), None),
        Some(ThinkingConfig::enabled())
    );
}
