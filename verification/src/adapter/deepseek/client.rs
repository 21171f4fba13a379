//! The configuration of a client for DeepSeek servers, and what it asks of them.

use crate::adapter::config::{
    base_url_error, check_url, choose_setting, choose_setting_or, default_retry, default_timeout,
    invalid_base_url, masked_text, quote, quoted, setting, setting_or, show_masked, url_fault,
    Environment, RetryConfig, TimeoutConfig,
};
use crate::adapter::deepseek::wire::ThinkingConfig;
use crate::adapter::error::{AdapterError, ErrorView};
use crate::adapter::types::{AdapterCapabilities, ReasoningEffort};
use crate::text;
use crate::text::opt_text;
use vstd::prelude::*;

verus! {

/// The configuration of a client.
pub struct DeepSeekConfig {
    pub api_key: String,
    pub base_url: String,
    pub default_model: String,
    pub thinking: Option<ThinkingConfig>,
    pub retry: RetryConfig,
    pub timeout: TimeoutConfig,
}

/// A configuration that is set step by step.
pub struct DeepSeekConfigBuilder {
    pub api_key: Option<String>,
    pub base_url: Option<String>,
    pub default_model: Option<String>,
    pub thinking: Option<ThinkingConfig>,
    pub retry: Option<RetryConfig>,
    pub timeout: Option<TimeoutConfig>,
}

/// The error where no key is given.
pub open spec fn key_error() -> ErrorView {
    ErrorView::Config {
        adapter: "deepseek"@,
        message: "api key is required: set DEEPSEEK_API_KEY or pass it explicitly"@,
    }
}

impl DeepSeekConfigBuilder {
    /// Nothing is set.
    pub fn new() -> (r: Self)
        ensures
            r == (DeepSeekConfigBuilder {
                api_key: None,
                base_url: None,
                default_model: None,
                thinking: None,
                retry: None,
                timeout: None,
            }),
    {
        DeepSeekConfigBuilder {
            api_key: None,
            base_url: None,
            default_model: None,
            thinking: None,
            retry: None,
            timeout: None,
        }
    }

    /// Sets the key.
    pub fn api_key(self, value: String) -> (r: Self)
        ensures
            r == (DeepSeekConfigBuilder { api_key: Some(value), ..self }),
    {
        let mut next = self;
        next.api_key = Some(value);
        next
    }

    /// Sets the address of the server.
    pub fn base_url(self, value: String) -> (r: Self)
        ensures
            r == (DeepSeekConfigBuilder { base_url: Some(value), ..self }),
    {
        let mut next = self;
        next.base_url = Some(value);
        next
    }

    /// Sets the model for requests that name none.
    pub fn default_model(self, value: String) -> (r: Self)
        ensures
            r == (DeepSeekConfigBuilder { default_model: Some(value), ..self }),
    {
        let mut next = self;
        next.default_model = Some(value);
        next
    }

    /// Sets whether and how much the model thinks.
    pub fn thinking(self, value: ThinkingConfig) -> (r: Self)
        ensures
            r == (DeepSeekConfigBuilder { thinking: Some(value), ..self }),
    {
        let mut next = self;
        next.thinking = Some(value);
        next
    }

    /// Sets how often a request is tried.
    pub fn retry(self, value: RetryConfig) -> (r: Self)
        ensures
            r == (DeepSeekConfigBuilder { retry: Some(value), ..self }),
    {
        let mut next = self;
        next.retry = Some(value);
        next
    }

    /// Sets how long a request may last.
    pub fn timeout(self, value: TimeoutConfig) -> (r: Self)
        ensures
            r == (DeepSeekConfigBuilder { timeout: Some(value), ..self }),
    {
        let mut next = self;
        next.timeout = Some(value);
        next
    }

    /// Whether `config` is what was set, with the environment and the built-in values for the rest.
    pub open spec fn gives(self, env: Environment, config: DeepSeekConfig) -> bool {
        &&& setting(opt_text(self.api_key), opt_text(env.api_key)) == Some(config.api_key@)
        &&& config.base_url@ == setting_or(
            opt_text(self.base_url),
            opt_text(env.base_url),
            "https://api.deepseek.com"@,
        )
        &&& config.default_model@ == setting_or(
            opt_text(self.default_model),
            opt_text(env.default_model),
            "deepseek-v4-flash"@,
        )
        &&& config.thinking == self.thinking
        &&& match self.retry {
            Some(retry) => config.retry == retry,
            None => config.retry == default_retry(),
        }
        &&& match self.timeout {
            Some(timeout) => config.timeout == timeout,
            None => config.timeout == default_timeout(),
        }
    }

    /// The address of the server that results.
    pub open spec fn url(self, env: Environment) -> Seq<char> {
        setting_or(opt_text(self.base_url), opt_text(env.base_url), "https://api.deepseek.com"@)
    }

    /// The configuration, with the environment and the built-in values for what was not set. A key
    /// must be given, and the address of the server must be a URL.
    pub fn build(self, env: Environment) -> (r: Result<DeepSeekConfig, AdapterError>)
        ensures
            match setting(opt_text(self.api_key), opt_text(env.api_key)) {
                None => r matches Err(e) && e@ == key_error(),
                Some(_) => match url_fault(self.url(env)) {
                    Some(fault) => r matches Err(e) && e@ == base_url_error(
                        "deepseek"@,
                        quoted(self.url(env)),
                        fault,
                    ),
                    None => r matches Ok(config) && self.gives(env, config),
                },
            },
    {
        let api_key = match choose_setting(self.api_key, env.api_key) {
            Some(key) => key,
            None => {
                return Err(
                    AdapterError::config(
                        "deepseek",
                        "api key is required: set DEEPSEEK_API_KEY or pass it explicitly",
                    ),
                );
            },
        };
        let base_url = choose_setting_or(self.base_url, env.base_url, "https://api.deepseek.com");
        let default_model = choose_setting_or(self.default_model, env.default_model, "deepseek-v4-flash");
        let retry = match self.retry {
            Some(retry) => retry,
            None => RetryConfig::default(),
        };
        let timeout = match self.timeout {
            Some(timeout) => timeout,
            None => TimeoutConfig::default(),
        };
        match check_url(base_url.as_str()) {
            Some(fault) => Err(
                invalid_base_url("deepseek", quote(base_url.as_str()).as_str(), fault.as_str()),
            ),
            None => Ok(
                DeepSeekConfig {
                    api_key,
                    base_url,
                    default_model,
                    thinking: self.thinking,
                    retry,
                    timeout,
                },
            ),
        }
    }
}

/// The name of an effort as it is shown to developers.
pub open spec fn effort_name(effort: ReasoningEffort) -> Seq<char> {
    match effort {
        ReasoningEffort::NoReasoning => "None"@,
        ReasoningEffort::Minimal => "Minimal"@,
        ReasoningEffort::Low => "Low"@,
        ReasoningEffort::Medium => "Medium"@,
        ReasoningEffort::High => "High"@,
        ReasoningEffort::XHigh => "XHigh"@,
        ReasoningEffort::Max => "Max"@,
    }
}

/// Whether and how much the model thinks, as it is shown to developers.
pub open spec fn thinking_text(thinking: Option<ThinkingConfig>) -> Seq<char> {
    match thinking {
        None => ", thinking: None"@,
        Some(thinking) => ", thinking: Some(ThinkingConfig { enabled: "@ + if thinking.enabled {
            "true"@
        } else {
            "false"@
        } + ", reasoning_effort: "@ + match thinking.reasoning_effort {
            None => "None"@,
            Some(effort) => "Some("@ + effort_name(effort) + ")"@,
        } + " })"@,
    }
}

/// Whether and how much the model thinks, as it is shown to developers.
fn show_thinking(thinking: Option<ThinkingConfig>) -> (r: String)
    ensures
        r@ == thinking_text(thinking),
{
    match thinking {
        None => ", thinking: None".to_owned(),
        Some(thinking) => {
            let mut out = text::glue3(
                ", thinking: Some(ThinkingConfig { enabled: ",
                if thinking.enabled {
                    "true"
                } else {
                    "false"
                },
                ", reasoning_effort: ",
            );
            match thinking.reasoning_effort {
                None => out.append("None"),
                Some(effort) => {
                    let name = match effort {
                        ReasoningEffort::NoReasoning => "None",
                        ReasoningEffort::Minimal => "Minimal",
                        ReasoningEffort::Low => "Low",
                        ReasoningEffort::Medium => "Medium",
                        ReasoningEffort::High => "High",
                        ReasoningEffort::XHigh => "XHigh",
                        ReasoningEffort::Max => "Max",
                    };
                    out.append(text::glue3("Some(", name, ")").as_str());
                },
            }
            out.append(" })");
            out
        },
    }
}

impl DeepSeekConfig {
    /// The configuration as it is shown to developers. It does not depend on the key. `jitter` is the
    /// share of the jitter as it is written.
    pub fn debug_text(&self, jitter: &str) -> (r: String)
        ensures
            r@ == masked_text(
                "DeepSeekConfig"@,
                quoted(self.base_url@),
                quoted(self.default_model@),
                thinking_text(self.thinking),
                self.retry,
                self.timeout,
                jitter@,
            ),
    {
        show_masked(
            "DeepSeekConfig",
            quote(self.base_url.as_str()).as_str(),
            quote(self.default_model.as_str()).as_str(),
            show_thinking(self.thinking).as_str(),
            self.retry,
            self.timeout,
            jitter,
        )
    }

    /// The model for requests that name none.
    pub fn default_model(&self) -> (r: &str)
        ensures
            r@ == self.default_model@,
    {
        self.default_model.as_str()
    }

    /// The model that a request goes to.
    pub fn model_for(&self, requested: &str) -> (r: String)
        ensures
            r@ == if requested@.len() == 0 {
                self.default_model@
            } else {
                requested@
            },
    {
        if requested.is_empty() {
            self.default_model.clone()
        } else {
            requested.to_owned()
        }
    }

    /// Where requests go.
    pub fn completions_url(&self) -> (r: String)
        ensures
            r@ == self.base_url@ + "/chat/completions"@,
    {
        text::glue(self.base_url.as_str(), "/chat/completions")
    }

    /// Where the list of models is.
    pub fn models_url(&self) -> (r: String)
        ensures
            r@ == self.base_url@ + "/models"@,
    {
        text::glue(self.base_url.as_str(), "/models")
    }

    /// Where the model `id` is described.
    pub fn model_url(&self, id: &str) -> (r: String)
        ensures
            r@ == self.base_url@ + "/models/"@ + id@,
    {
        text::glue3(self.base_url.as_str(), "/models/", id)
    }
}

/// What the adapter can do.
pub fn capabilities() -> (r: AdapterCapabilities)
    ensures
        r == (AdapterCapabilities {
            streaming: true,
            model_listing: true,
            model_retrieval: true,
            tool_calling: true,
            json_mode: true,
            json_schema: false,
            logprobs: true,
            multimodal_text: true,
            multimodal_image: false,
            multimodal_audio: false,
            usage_in_stream: true,
        }),
{
    AdapterCapabilities {
        streaming: true,
        model_listing: true,
        model_retrieval: true,
        tool_calling: true,
        json_mode: true,
        json_schema: false,
        logprobs: true,
        multimodal_text: true,
        multimodal_image: false,
        multimodal_audio: false,
        usage_in_stream: true,
    }
}

/// Whether and how much the model thinks: as the client is configured, or else as the request asks.
pub open spec fn thinking_of(
    configured: Option<ThinkingConfig>,
    effort: Option<ReasoningEffort>,
) -> Option<ThinkingConfig> {
    match configured {
        Some(config) => Some(config),
        None => match effort {
            Some(ReasoningEffort::NoReasoning) => Some(
                ThinkingConfig { enabled: false, reasoning_effort: None },
            ),
            Some(effort) => Some(ThinkingConfig { enabled: true, reasoning_effort: Some(effort) }),
            None => None,
        },
    }
}

/// Whether and how much the model thinks.
pub fn thinking_for(configured: Option<ThinkingConfig>, effort: Option<ReasoningEffort>) -> (r:
    Option<ThinkingConfig>)
    ensures
        r == thinking_of(configured, effort),
{
    match configured {
        Some(config) => Some(config),
        None => match effort {
            Some(ReasoningEffort::NoReasoning) => Some(ThinkingConfig::disabled()),
            Some(effort) => Some(ThinkingConfig::enabled().with_effort(effort)),
            None => None,
        },
    }
}

} // verus!
