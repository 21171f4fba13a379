use prognosis::adapter::config::{
    choose_setting, choose_setting_or, Environment, RetryConfig, TimeoutConfig,
};
use prognosis::adapter::deepseek::client;
use prognosis::adapter::deepseek::client::DeepSeekConfigBuilder;
use prognosis::adapter::deepseek::wire::ThinkingConfig;
use prognosis::adapter::error::AdapterError;
use prognosis::adapter::openai;
use prognosis::adapter::openai::client::OpenAIConfigBuilder;
use prognosis::adapter::types::ReasoningEffort;
use prognosis::number::{Double, Duration};

fn double(value: f64) -> Double {
    Double { bits: value.to_bits() }
}

fn bare() -> Environment {
    Environment { api_key: None, base_url: None, default_model: None }
}

#[test]
fn retry_config_validation() {
    let short = Duration::from_millis(100);
    let long = Duration::from_millis(500);
    assert!(RetryConfig::new(0, short, long, double(0.2)).is_err());
    assert!(RetryConfig::new(3, Duration { nanos: 0 }, long, double(0.2)).is_err());
    assert!(RetryConfig::new(3, long, short, double(0.2)).is_err());
    assert!(RetryConfig::new(3, short, long, double(1.5)).is_err());
    assert!(RetryConfig::new(3, short, long, double(0.2)).is_ok());
}

#[test]
fn jitter_ratio_is_a_fraction() {
    let short = Duration::from_millis(100);
    for ratio in [0.0, 0.5, 1.0, -0.0] {
        assert!(RetryConfig::new(1, short, short, double(ratio)).is_ok(), "{ratio}");
    }
    for ratio in [-0.1, 1.0000001, f64::NAN, f64::INFINITY] {
        assert!(RetryConfig::new(1, short, short, double(ratio)).is_err(), "{ratio}");
    }
}

#[test]
fn timeout_config_validation() {
    assert!(TimeoutConfig::new(
        Duration { nanos: 0 },
        Duration::from_secs(10),
        Duration::from_secs(5)
    )
    .is_err());
    assert!(TimeoutConfig::new(
        Duration::from_secs(10),
        Duration::from_secs(60),
        Duration::from_secs(30)
    )
    .is_ok());
}

#[test]
fn defaults_are_valid() {
    let retry = RetryConfig::default();
    assert!(RetryConfig::new(
        retry.max_attempts,
        retry.base_delay,
        retry.max_delay,
        retry.jitter_ratio
    )
    .is_ok());
    assert_eq!(retry.jitter_ratio, double(0.2));
    let timeout = TimeoutConfig::default();
    assert!(TimeoutConfig::new(timeout.connect, timeout.request, timeout.stream_idle).is_ok());
}

#[test]
fn config_requires_api_key() {
    match OpenAIConfigBuilder::new().build(bare()) {
        Err(AdapterError::Config { adapter, .. }) => assert_eq!(adapter, "openai"),
        _ => panic!("expected a config error"),
    }
}

#[test]
fn client_config_requires_api_key() {
    match DeepSeekConfigBuilder::new().build(bare()) {
        Err(AdapterError::Config { adapter, .. }) => assert_eq!(adapter, "deepseek"),
        _ => panic!("expected a config error"),
    }
}

#[test]
fn explicit_settings_come_before_the_environment() {
    let env = Environment {
        api_key: Some("from-env".to_string()),
        base_url: Some("https://env.example".to_string()),
        default_model: None,
    };
    let config = match OpenAIConfigBuilder::new()
        .base_url("https://given.example/v1".to_string())
        .build(env)
    {
        Ok(config) => config,
        Err(err) => panic!("{}", err.to_string()),
    };
    assert_eq!(config.api_key, "from-env");
    assert_eq!(config.base_url, "https://given.example/v1");
    assert_eq!(config.default_model(), "gpt-4o");
    assert_eq!(config.completions_url(), "https://given.example/v1/chat/completions");
    assert_eq!(config.models_url(), "https://given.example/v1/models");
    assert_eq!(config.model_url("gpt-4o"), "https://given.example/v1/models/gpt-4o");
    assert_eq!(config.model_for(""), "gpt-4o");
    assert_eq!(config.model_for("o3"), "o3");
}

#[test]
fn a_base_url_that_is_none_is_refused_in_quotation_marks() {
    let result = OpenAIConfigBuilder::new()
        .api_key("k".to_string())
        .base_url("not a \"url\"".to_string())
        .build(bare());
    match result {
        Err(AdapterError::Config { message, .. }) => assert_eq!(
            message,
            "invalid base_url \"not a \\\"url\\\"\": relative URL without a base"
        ),
        _ => panic!("expected a config error"),
    }
}

#[test]
fn settings_fall_through() {
    let given = Some("a".to_string());
    let env = Some("b".to_string());
    assert_eq!(choose_setting(given.clone(), env.clone()).as_deref(), Some("a"));
    assert_eq!(choose_setting(None, env.clone()).as_deref(), Some("b"));
    assert_eq!(choose_setting(None, None), None);
    assert_eq!(choose_setting_or(None, env, "c"), "b");
    assert_eq!(choose_setting_or(None, None, "c"), "c");
}

#[test]
fn config_masks_api_key_in_debug() {
    let config = OpenAIConfigBuilder::new()
        .api_key("sk-secret-123".to_string())
        .base_url("https://api.openai.com/v1".to_string())
        .build(bare())
        .unwrap_or_else(|err| panic!("{}", err.to_string()));
    let debug = config.debug_text("0.2");
    assert!(!debug.contains("sk-secret-123"));
    assert!(debug.contains("***"));
}

#[test]
fn client_config_masks_api_key_in_debug() {
    let config = DeepSeekConfigBuilder::new()
        .api_key("sk-secret-456".to_string())
        .base_url("https://api.deepseek.com".to_string())
        .build(bare())
        .unwrap_or_else(|err| panic!("{}", err.to_string()));
    let debug = config.debug_text("0.2");
    assert!(!debug.contains("sk-secret-456"));
    assert!(debug.contains("***"));
}

#[test]
fn configs_are_shown_in_full_but_for_the_key() {
    let config = DeepSeekConfigBuilder::new()
        .api_key("sk-secret-456".to_string())
        .base_url("https://api.deepseek.com".to_string())
        .default_model("a \"b\"".to_string())
        .thinking(ThinkingConfig::enabled().with_effort(ReasoningEffort::High))
        .build(bare())
        .unwrap_or_else(|err| panic!("{}", err.to_string()));
    assert_eq!(
        config.debug_text("0.2"),
        "DeepSeekConfig { api_key: \"***\", base_url: \"https://api.deepseek.com\", \
         default_model: \"a \\\"b\\\"\", thinking: Some(ThinkingConfig { enabled: true, \
         reasoning_effort: Some(High) }), retry: RetryConfig { max_attempts: 3, base_delay: 250ms, \
         max_delay: 10s, jitter_ratio: 0.2 }, timeout: TimeoutConfig { connect: 10s, request: 120s, \
         stream_idle: 30s } }"
    );
}

#[test]
fn lengths_of_time_are_written_as_std_writes_them() {
    let mut lengths: Vec<u64> = vec![0, 1, 999, 1_000, 1_001, 999_999, 1_000_000, 1_500_000];
    lengths.extend([250_000_000, 999_999_999, 1_000_000_000, 1_000_000_001, 120_000_000_000]);
    lengths.extend([10_050_000_000, 90_000_000_100, u64::MAX]);
    for nanos in lengths {
        let shown = Duration { nanos: nanos as u128 }.shown();
        assert_eq!(shown, format!("{:?}", std::time::Duration::from_nanos(nanos)));
    }
}

#[test]
fn servers_differ_in_what_they_offer() {
    let deepseek = client::capabilities();
    let openai = openai::client::capabilities();
    assert!(deepseek.streaming && deepseek.model_listing && deepseek.tool_calling);
    assert!(!deepseek.json_schema && !deepseek.multimodal_image && !deepseek.multimodal_audio);
    assert!(openai.json_schema && openai.multimodal_image && openai.multimodal_audio);
}
