use prognosis::adapter::config::RetryConfig;
use prognosis::adapter::error::AdapterError;
use prognosis::adapter::retry::{after_failure, backoff_delay, AfterFailure, Pause};
use prognosis::number::{Double, Duration};

fn config() -> RetryConfig {
    RetryConfig::new(
        5,
        Duration::from_millis(100),
        Duration::from_millis(500),
        Double { bits: 0.0f64.to_bits() },
    )
    .unwrap()
}

fn failed() -> AdapterError {
    AdapterError::ServerError {
        adapter: "test".into(),
        status: 500,
        message: "boom".into(),
        request_id: None,
    }
}

fn growing(millis: u64) -> Pause {
    Pause::Growing(Duration::from_millis(millis))
}

#[test]
fn backoff_grows_exponentially_and_caps() {
    assert_eq!(backoff_delay(&config(), 0, None), growing(100));
    assert_eq!(backoff_delay(&config(), 1, None), growing(200));
    assert_eq!(backoff_delay(&config(), 2, None), growing(400));
    assert_eq!(backoff_delay(&config(), 3, None), growing(500));
    assert_eq!(backoff_delay(&config(), 10, None), growing(500));
}

#[test]
fn retry_after_overrides_backoff() {
    assert_eq!(
        backoff_delay(&config(), 3, Some(Duration::from_millis(300))),
        Pause::Asked(Duration::from_millis(300))
    );
    assert_eq!(
        backoff_delay(&config(), 3, Some(Duration::from_secs(60))),
        Pause::Asked(Duration::from_millis(500))
    );
}

#[test]
fn gives_up_after_max_attempts() {
    let config = RetryConfig::new(
        3,
        Duration::from_millis(1),
        Duration::from_millis(5),
        Double { bits: 0.0f64.to_bits() },
    )
    .unwrap();
    let mut attempt: u32 = 0;
    while after_failure(&config, attempt, &failed()) != AfterFailure::GiveUp {
        attempt += 1;
    }
    assert_eq!(attempt + 1, 3);
}

#[test]
fn non_retryable_returns_immediately() {
    assert_eq!(
        after_failure(&config(), 0, &AdapterError::invalid_request("test", "bad")),
        AfterFailure::GiveUp
    );
    assert_eq!(after_failure(&config(), 0, &failed()), AfterFailure::Wait(growing(100)));
}
