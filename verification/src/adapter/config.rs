//! How often and how long a request is tried.

use crate::adapter::error::{AdapterError, ErrorView};
use crate::number::{time_text, Double, Duration};
use crate::text;
use crate::text::{decimal, opt_text, trim};
use vstd::prelude::*;

verus! {

/// How often a request is tried, and how long the pauses between the attempts are.
#[derive(Debug, Clone, Copy, PartialEq, Eq, Structural)]
pub struct RetryConfig {
    pub max_attempts: u32,
    pub base_delay: Duration,
    pub max_delay: Duration,
    pub jitter_ratio: Double,
}

/// What is wrong with a retry configuration.
pub open spec fn retry_fault(
    max_attempts: u32,
    base_delay: Duration,
    max_delay: Duration,
    jitter_ratio: Double,
) -> Option<Seq<char>> {
    if max_attempts == 0 {
        Some("max_attempts must be at least 1"@)
    } else if base_delay.nanos == 0 {
        Some("base_delay must be positive"@)
    } else if max_delay.nanos < base_delay.nanos {
        Some("max_delay must be at least base_delay"@)
    } else if !jitter_ratio.is_share() {
        Some("jitter_ratio must be within [0, 1]"@)
    } else {
        None
    }
}

impl RetryConfig {
    /// Whether the configuration makes sense.
    pub open spec fn wf(self) -> bool {
        retry_fault(self.max_attempts, self.base_delay, self.max_delay, self.jitter_ratio) is None
    }

    /// A configuration that makes sense, or what is wrong with it.
    pub fn new(
        max_attempts: u32,
        base_delay: Duration,
        max_delay: Duration,
        jitter_ratio: Double,
    ) -> (r: Result<Self, AdapterError>)
        ensures
            match retry_fault(max_attempts, base_delay, max_delay, jitter_ratio) {
                Some(why) => r matches Err(e) && e@ == (ErrorView::Config {
                    adapter: "config"@,
                    message: why,
                }),
                None => r matches Ok(config) && config == (RetryConfig {
                    max_attempts,
                    base_delay,
                    max_delay,
                    jitter_ratio,
                }) && config.wf(),
            },
    {
        if max_attempts == 0 {
            return Err(AdapterError::config("config", "max_attempts must be at least 1"));
        }
        if base_delay.is_zero() {
            return Err(AdapterError::config("config", "base_delay must be positive"));
        }
        if max_delay.nanos < base_delay.nanos {
            return Err(AdapterError::config("config", "max_delay must be at least base_delay"));
        }
        if !jitter_ratio.is_fraction() {
            return Err(AdapterError::config("config", "jitter_ratio must be within [0, 1]"));
        }
        Ok(RetryConfig { max_attempts, base_delay, max_delay, jitter_ratio })
    }
}

/// The bits of the double-precision number one fifth.
pub const ONE_FIFTH: u64 = 0x3FC9_9999_9999_999A;

/// Three attempts, with pauses from a quarter of a second to ten seconds.
pub open spec fn default_retry() -> RetryConfig {
    RetryConfig {
        max_attempts: 3,
        base_delay: Duration { nanos: 250_000_000 },
        max_delay: Duration { nanos: 10_000_000_000 },
        jitter_ratio: Double { bits: ONE_FIFTH },
    }
}

impl Default for RetryConfig {
    fn default() -> (r: Self)
        ensures
            r == default_retry(),
            r.wf(),
    {
        RetryConfig {
            max_attempts: 3,
            base_delay: Duration::from_millis(250),
            max_delay: Duration::from_secs(10),
            jitter_ratio: Double { bits: ONE_FIFTH },
        }
    }
}

/// How long a connection, a request and a silence in a stream may last.
#[derive(Debug, Clone, Copy, PartialEq, Eq, Structural)]
pub struct TimeoutConfig {
    pub connect: Duration,
    pub request: Duration,
    pub stream_idle: Duration,
}

impl TimeoutConfig {
    /// Whether each limit leaves some time.
    pub open spec fn wf(self) -> bool {
        self.connect.nanos > 0 && self.request.nanos > 0 && self.stream_idle.nanos > 0
    }

    /// The limits, each of which must leave some time.
    pub fn new(connect: Duration, request: Duration, stream_idle: Duration) -> (r: Result<
        Self,
        AdapterError,
    >)
        ensures
            match r {
                Ok(config) => config == (TimeoutConfig { connect, request, stream_idle })
                    && config.wf(),
                Err(e) => !(TimeoutConfig { connect, request, stream_idle }).wf() && e@ == (
                ErrorView::Config { adapter: "config"@, message: "timeouts must be positive"@ }),
            },
    {
        if connect.is_zero() || request.is_zero() || stream_idle.is_zero() {
            return Err(AdapterError::config("config", "timeouts must be positive"));
        }
        Ok(TimeoutConfig { connect, request, stream_idle })
    }
}

/// Ten seconds for a connection, two minutes for a request and half a minute of silence.
pub open spec fn default_timeout() -> TimeoutConfig {
    TimeoutConfig {
        connect: Duration { nanos: 10_000_000_000 },
        request: Duration { nanos: 120_000_000_000 },
        stream_idle: Duration { nanos: 30_000_000_000 },
    }
}

impl Default for TimeoutConfig {
    fn default() -> (r: Self)
        ensures
            r == default_timeout(),
            r.wf(),
    {
        TimeoutConfig {
            connect: Duration::from_secs(10),
            request: Duration::from_secs(120),
            stream_idle: Duration::from_secs(30),
        }
    }
}

// ---------------------------------------------------------------------------------------------
// Settings from the environment
// ---------------------------------------------------------------------------------------------
/// A variable of the environment counts as set if it is not blank.
pub open spec fn set_value(value: Option<Seq<char>>) -> Option<Seq<char>> {
    match value {
        Some(s) => if trim(s).len() > 0 {
            Some(s)
        } else {
            None
        },
        None => None,
    }
}

/// A setting: the one that was given, or else the one of the environment.
pub open spec fn setting(given: Option<Seq<char>>, env: Option<Seq<char>>) -> Option<Seq<char>> {
    match given {
        Some(s) => Some(s),
        None => set_value(env),
    }
}

/// A setting: the one that was given, or else the one of the environment.
pub fn choose_setting(given: Option<String>, env: Option<String>) -> (r: Option<String>)
    ensures
        opt_text(r) == setting(opt_text(given), opt_text(env)),
{
    match given {
        Some(s) => Some(s),
        None => match env {
            Some(s) => if text::trimmed(text::chars_of(s.as_str()).as_slice()).len() > 0 {
                Some(s)
            } else {
                None
            },
            None => None,
        },
    }
}

/// A setting with a value to fall back on.
pub open spec fn setting_or(
    given: Option<Seq<char>>,
    env: Option<Seq<char>>,
    fallback: Seq<char>,
) -> Seq<char> {
    match setting(given, env) {
        Some(s) => s,
        None => fallback,
    }
}

/// A setting with a value to fall back on.
pub fn choose_setting_or(given: Option<String>, env: Option<String>, fallback: &str) -> (r: String)
    ensures
        r@ == setting_or(opt_text(given), opt_text(env), fallback@),
{
    match choose_setting(given, env) {
        Some(s) => s,
        None => fallback.to_owned(),
    }
}

/// What the environment says of a server.
pub struct Environment {
    pub api_key: Option<String>,
    pub base_url: Option<String>,
    pub default_model: Option<String>,
}

/// Why a text is not an absolute URL.
pub uninterp spec fn url_fault(url: Seq<char>) -> Option<Seq<char>>;

/// `reqwest::Url::parse` accepts a text or gives the reason why it is not an absolute URL. Both
/// depend on the text alone.
#[verifier::external_body]
pub(crate) fn check_url(url: &str) -> (r: Option<String>)
    ensures
        opt_text(r) == url_fault(url@),
{
    match reqwest::Url::parse(url) {
        Ok(_) => None,
        Err(err) => Some(err.to_string()),
    }
}

/// A text in quotation marks, with special characters escaped.
pub uninterp spec fn quoted(s: Seq<char>) -> Seq<char>;

/// The debug format of `str` puts a text in quotation marks and escapes special characters.
#[verifier::external_body]
pub(crate) fn quote(s: &str) -> (r: String)
    ensures
        r@ == quoted(s@),
{
    format!("{:?}", s)
}

/// The error for a base URL that is none.
pub open spec fn base_url_error(
    adapter: Seq<char>,
    quoted_url: Seq<char>,
    fault: Seq<char>,
) -> ErrorView {
    ErrorView::Config { adapter, message: "invalid base_url "@ + quoted_url + ": "@ + fault }
}

/// The error for a base URL that is none; `quoted_url` is the URL in quotation marks.
pub fn invalid_base_url(adapter: &str, quoted_url: &str, fault: &str) -> (r: AdapterError)
    ensures
        r@ == base_url_error(adapter@, quoted_url@, fault@),
{
    let mut message = text::glue3("invalid base_url ", quoted_url, ": ");
    message.append(fault);
    AdapterError::config(adapter, message.as_str())
}

/// A retry configuration as it is shown to developers; `jitter` is the share of the jitter as it is
/// written.
pub open spec fn retry_text(retry: RetryConfig, jitter: Seq<char>) -> Seq<char> {
    "RetryConfig { max_attempts: "@ + decimal(retry.max_attempts as nat) + ", base_delay: "@ + time_text(
        retry.base_delay.nanos as nat,
    ) + ", max_delay: "@ + time_text(retry.max_delay.nanos as nat) + ", jitter_ratio: "@ + jitter
        + " }"@
}

/// The time limits as they are shown to developers.
pub open spec fn timeout_text(timeout: TimeoutConfig) -> Seq<char> {
    "TimeoutConfig { connect: "@ + time_text(timeout.connect.nanos as nat) + ", request: "@ + time_text(
        timeout.request.nanos as nat,
    ) + ", stream_idle: "@ + time_text(timeout.stream_idle.nanos as nat) + " }"@
}

/// A configuration as it is shown to developers, with stars in place of the key. `more` are fields
/// between the model and the retries.
pub open spec fn masked_text(
    name: Seq<char>,
    quoted_url: Seq<char>,
    quoted_model: Seq<char>,
    more: Seq<char>,
    retry: RetryConfig,
    timeout: TimeoutConfig,
    jitter: Seq<char>,
) -> Seq<char> {
    name + " { api_key: \"***\", base_url: "@ + quoted_url + ", default_model: "@ + quoted_model
        + more + ", retry: "@ + retry_text(retry, jitter) + ", timeout: "@ + timeout_text(timeout)
        + " }"@
}

/// A retry configuration as it is shown to developers.
fn show_retry(retry: RetryConfig, jitter: &str) -> (r: String)
    ensures
        r@ == retry_text(retry, jitter@),
{
    let mut out = text::glue(
        "RetryConfig { max_attempts: ",
        text::number_text(retry.max_attempts as u64).as_str(),
    );
    out.append(", base_delay: ");
    out.append(retry.base_delay.shown().as_str());
    out.append(", max_delay: ");
    out.append(retry.max_delay.shown().as_str());
    out.append(", jitter_ratio: ");
    out.append(jitter);
    out.append(" }");
    out
}

/// The time limits as they are shown to developers.
fn show_timeout(timeout: TimeoutConfig) -> (r: String)
    ensures
        r@ == timeout_text(timeout),
{
    let mut out = text::glue("TimeoutConfig { connect: ", timeout.connect.shown().as_str());
    out.append(", request: ");
    out.append(timeout.request.shown().as_str());
    out.append(", stream_idle: ");
    out.append(timeout.stream_idle.shown().as_str());
    out.append(" }");
    out
}

/// A configuration as it is shown to developers, with stars in place of the key.
pub fn show_masked(
    name: &str,
    quoted_url: &str,
    quoted_model: &str,
    more: &str,
    retry: RetryConfig,
    timeout: TimeoutConfig,
    jitter: &str,
) -> (r: String)
    ensures
        r@ == masked_text(name@, quoted_url@, quoted_model@, more@, retry, timeout, jitter@),
{
    let mut out = text::glue3(name, " { api_key: \"***\", base_url: ", quoted_url);
    out.append(", default_model: ");
    out.append(quoted_model);
    out.append(more);
    out.append(", retry: ");
    out.append(show_retry(retry, jitter).as_str());
    out.append(", timeout: ");
    out.append(show_timeout(timeout).as_str());
    out.append(" }");
    out
}

} // verus!
