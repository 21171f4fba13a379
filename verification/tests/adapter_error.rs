use prognosis::adapter::error::AdapterError;
use prognosis::adapter::http::{
    empty_stream_error, error_from_response, idle_error, info_error, list_error, network_error,
    parse_retry_after, payload_error, pop_sse_data, read_event, take_bytes, timeout_error, Reading,
};
use prognosis::adapter::traits::{no_listing, no_retrieval};
use prognosis::number::Duration;

#[test]
fn retryable_classification() {
    let network = AdapterError::Network {
        adapter: "openai".into(),
        message: "connection refused".into(),
        source: "os error 111".into(),
    };
    assert!(network.is_retryable());

    let auth = AdapterError::Authentication {
        adapter: "openai".into(),
        message: "invalid key".into(),
        request_id: None,
    };
    assert!(!auth.is_retryable());
}

#[test]
fn adapter_name_extraction() {
    let err = AdapterError::config("openai", "missing key");
    assert_eq!(err.adapter_name(), "openai");
}

#[test]
fn rate_limit_retry_after() {
    let err = AdapterError::RateLimit {
        adapter: "openai".into(),
        message: "too many requests".into(),
        retry_after: Some(Duration::from_secs(30)),
        request_id: Some("req_abc".into()),
    };
    assert_eq!(err.retry_after(), Some(Duration::from_secs(30)));
}

#[test]
fn clone_preserves_variant() {
    let err = AdapterError::ServerError {
        adapter: "openai".into(),
        status: 503,
        message: "overloaded".into(),
        request_id: Some("req_xyz".into()),
    };
    let cloned = err.clone();
    assert_eq!(cloned.adapter_name(), "openai");
    assert!(cloned.is_retryable());
    assert_eq!(cloned.to_string(), err.to_string());
}

#[test]
fn display_format() {
    let err = AdapterError::config("openai", "Missing API Key");
    let text = err.to_string();
    assert!(text.contains("[openai]"));
    assert!(text.contains("Missing API Key"));
    assert_eq!(AdapterError::cancelled("x").to_string(), "[x] Request Cancelled");
}

#[test]
fn sse_data_parsing() {
    let mut buf = "data: {\"a\":1}\n\n: keep-alive\n\n".to_string();
    assert_eq!(pop_sse_data(&mut buf), Some(Some("{\"a\":1}".to_string())));
    assert_eq!(pop_sse_data(&mut buf), None);
}

#[test]
fn sse_done_marker() {
    let mut buf = "data: [DONE]\n".to_string();
    assert_eq!(pop_sse_data(&mut buf), Some(None));
}

#[test]
fn a_line_without_end_stays_in_the_buffer() {
    let mut buf = "data: 1\ndata: 2".to_string();
    assert_eq!(pop_sse_data(&mut buf), Some(Some("1".to_string())));
    assert_eq!(pop_sse_data(&mut buf), None);
    assert_eq!(buf, "data: 2");
}

#[test]
fn retry_after_parsing() {
    assert_eq!(parse_retry_after("30"), Some(Duration::from_secs(30)));
    assert_eq!(parse_retry_after("not-a-number"), None);
}

#[test]
fn events_are_read_before_a_request_is_called_off() {
    let mut buf = String::new();
    take_bytes(&mut buf, b"data: one\n");
    assert!(matches!(read_event(&mut buf, "openai", true), Reading::Data(data) if data == "one"));
    match read_event(&mut buf, "openai", true) {
        Reading::Stop(err) => assert!(matches!(err, AdapterError::Cancelled { .. })),
        _ => panic!("expected the end of the request"),
    }
    assert!(matches!(read_event(&mut buf, "openai", false), Reading::More));
    take_bytes(&mut buf, b"data: [DONE]\n");
    assert!(matches!(read_event(&mut buf, "openai", false), Reading::Done));
}

#[test]
fn broken_bytes_are_repaired() {
    let mut buf = String::new();
    take_bytes(&mut buf, &[b'a', 0xFF, b'b']);
    assert_eq!(buf, "a\u{FFFD}b");
}

#[test]
fn every_status_has_its_error() {
    let error = |status: u16| {
        error_from_response(
            "openai",
            status,
            Some("said".to_string()),
            Some("30".to_string()),
            Some("req_1".to_string()),
        )
    };
    assert!(matches!(error(401), AdapterError::Authentication { .. }));
    assert!(matches!(error(403), AdapterError::PermissionDenied { .. }));
    assert!(matches!(error(404), AdapterError::NotFound { .. }));
    assert!(matches!(error(400), AdapterError::InvalidRequest { .. }));
    assert!(matches!(error(499), AdapterError::InvalidRequest { .. }));
    assert!(matches!(error(302), AdapterError::InvalidRequest { .. }));
    assert!(matches!(error(500), AdapterError::ServerError { status: 500, .. }));
    assert!(matches!(error(599), AdapterError::ServerError { status: 599, .. }));
    match error(429) {
        AdapterError::RateLimit { message, retry_after, request_id, .. } => {
            assert_eq!(message, "said");
            assert_eq!(retry_after, Some(Duration::from_secs(30)));
            assert_eq!(request_id.as_deref(), Some("req_1"));
        }
        _ => panic!("expected a rate limit"),
    }
    let silent = error_from_response("openai", 404, None, None, None);
    assert!(silent.to_string().contains("HTTP 404"), "{}", silent.to_string());
}

#[test]
fn failures_of_a_stream_have_their_errors() {
    assert!(matches!(payload_error("a", "bad"), AdapterError::Decode { .. }));
    assert!(payload_error("a", "bad").to_string().contains("invalid SSE payload: bad"));
    assert!(idle_error("a", Duration::from_secs(30))
        .to_string()
        .contains("stream idle for more than 30s"));
    assert!(timeout_error("a", "http://x", Duration::from_secs(60))
        .to_string()
        .contains("request to http://x timed out after 60s"));
    assert!(matches!(network_error("a", "refused"), AdapterError::Network { .. }));
    assert!(matches!(empty_stream_error("a"), AdapterError::Stream { .. }));
}

#[test]
fn unreadable_models_have_their_errors() {
    let list = list_error("openai", "no data");
    assert!(matches!(list, AdapterError::Decode { .. }));
    assert!(list.to_string().contains("failed to decode model list: no data"));
    let info = info_error("openai", "no id");
    assert!(matches!(info, AdapterError::Decode { .. }));
    assert!(info.to_string().contains("failed to decode model info: no id"));
}

#[test]
fn unsupported_defaults() {
    match no_listing("test") {
        AdapterError::Unsupported { adapter, feature } => {
            assert_eq!(adapter, "test");
            assert_eq!(feature, "model listing");
        }
        _ => panic!("expected an unsupported feature"),
    }
    match no_retrieval("test", "some-model") {
        AdapterError::Unsupported { feature, .. } => {
            assert_eq!(feature, "model retrieval for some-model");
        }
        _ => panic!("expected an unsupported feature"),
    }
}
