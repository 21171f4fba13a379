//! The configuration of a client for OpenAI servers, and what it asks of them.

use crate::adapter::config::{
    base_url_error, check_url, choose_setting, choose_setting_or, default_retry, default_timeout,
    invalid_base_url, masked_text, quote, quoted, setting, setting_or, show_masked, url_fault,
    Environment, RetryConfig, TimeoutConfig,
};
use crate::adapter::error::{AdapterError, ErrorView};
use crate::adapter::types::AdapterCapabilities;
use crate::text;
use crate::text::opt_text;
use vstd::prelude::*;

verus! {

/// The configuration of a client.
pub struct OpenAIConfig {
    pub api_key: String,
    pub base_url: String,
    pub default_model: String,
    pub retry: RetryConfig,
    pub timeout: TimeoutConfig,
}

/// A configuration that is set step by step.
pub struct OpenAIConfigBuilder {
    pub api_key: Option<String>,
    pub base_url: Option<String>,
    pub default_model: Option<String>,
    pub retry: Option<RetryConfig>,
    pub timeout: Option<TimeoutConfig>,
}

/// The error where no key is given.
pub open spec fn key_error() -> ErrorView {
    ErrorView::Config {
        adapter: "openai"@,
        message: "api key is required: set OPENAI_API_KEY or pass it explicitly"@,
    }
}

impl OpenAIConfigBuilder {
    /// Nothing is set.
    pub fn new() -> (r: Self)
        ensures
            r == (OpenAIConfigBuilder {
                api_key: None,
                base_url: None,
                default_model: None,
                retry: None,
                timeout: None,
            }),
    {
        OpenAIConfigBuilder {
            api_key: None,
            base_url: None,
            default_model: None,
            retry: None,
            timeout: None,
        }
    }

    /// Sets the key.
    pub fn api_key(self, value: String) -> (r: Self)
        ensures
            r == (OpenAIConfigBuilder { api_key: Some(value), ..self }),
    {
        let mut next = self;
        next.api_key = Some(value);
        next
    }

    /// Sets the address of the server.
    pub fn base_url(self, value: String) -> (r: Self)
        ensures
            r == (OpenAIConfigBuilder { base_url: Some(value), ..self }),
    {
        let mut next = self;
        next.base_url = Some(value);
        next
    }

    /// Sets the model for requests that name none.
    pub fn default_model(self, value: String) -> (r: Self)
        ensures
            r == (OpenAIConfigBuilder { default_model: Some(value), ..self }),
    {
        let mut next = self;
        next.default_model = Some(value);
        next
    }

    /// Sets how often a request is tried.
    pub fn retry(self, value: RetryConfig) -> (r: Self)
        ensures
            r == (OpenAIConfigBuilder { retry: Some(value), ..self }),
    {
        let mut next = self;
        next.retry = Some(value);
        next
    }

    /// Sets how long a request may last.
    pub fn timeout(self, value: TimeoutConfig) -> (r: Self)
        ensures
            r == (OpenAIConfigBuilder { timeout: Some(value), ..self }),
    {
        let mut next = self;
        next.timeout = Some(value);
        next
    }

    /// Whether `config` is what was set, with the environment and the built-in values for the rest.
    pub open spec fn gives(self, env: Environment, config: OpenAIConfig) -> bool {
        &&& setting(opt_text(self.api_key), opt_text(env.api_key)) == Some(config.api_key@)
        &&& config.base_url@ == setting_or(
            opt_text(self.base_url),
            opt_text(env.base_url),
            "https://api.openai.com/v1"@,
        )
        &&& config.default_model@ == setting_or(
            opt_text(self.default_model),
            opt_text(env.default_model),
            "gpt-4o"@,
        )
        &&& match self.retry {
            Some(retry) => config.retry == retry,
            None => config.retry == default_retry(),
        }
        &&& match self.timeout {
            Some(timeout) => config.timeout == timeout,
            None => config.timeout == default_timeout(),
        }
    }

    /// The address of the server that results.
    pub open spec fn url(self, env: Environment) -> Seq<char> {
        setting_or(opt_text(self.base_url), opt_text(env.base_url), "https://api.openai.com/v1"@)
    }

    /// The configuration, with the environment and the built-in values for what was not set. A key
    /// must be given, and the address of the server must be a URL.
    pub fn build(self, env: Environment) -> (r: Result<OpenAIConfig, AdapterError>)
        ensures
            match setting(opt_text(self.api_key), opt_text(env.api_key)) {
                None => r matches Err(e) && e@ == key_error(),
                Some(_) => match url_fault(self.url(env)) {
                    Some(fault) => r matches Err(e) && e@ == base_url_error(
                        "openai"@,
                        quoted(self.url(env)),
                        fault,
                    ),
                    None => r matches Ok(config) && self.gives(env, config),
                },
            },
    {
        let api_key = match choose_setting(self.api_key, env.api_key) {
            Some(key) => key,
            None => {
                return Err(
                    AdapterError::config(
                        "openai",
                        "api key is required: set OPENAI_API_KEY or pass it explicitly",
                    ),
                );
            },
        };
        let base_url = choose_setting_or(self.base_url, env.base_url, "https://api.openai.com/v1");
        let default_model = choose_setting_or(self.default_model, env.default_model, "gpt-4o");
        let retry = match self.retry {
            Some(retry) => retry,
            None => RetryConfig::default(),
        };
        let timeout = match self.timeout {
            Some(timeout) => timeout,
            None => TimeoutConfig::default(),
        };
        match check_url(base_url.as_str()) {
            Some(fault) => Err(
                invalid_base_url("openai", quote(base_url.as_str()).as_str(), fault.as_str()),
            ),
            None => Ok(
                OpenAIConfig {
                    api_key,
                    base_url,
                    default_model,
                    retry,
                    timeout,
                },
            ),
        }
    }
}

impl OpenAIConfig {
    /// The configuration as it is shown to developers. It does not depend on the key. `jitter` is the
    /// share of the jitter as it is written.
    pub fn debug_text(&self, jitter: &str) -> (r: String)
        ensures
            r@ == masked_text(
                "OpenAIConfig"@,
                quoted(self.base_url@),
                quoted(self.default_model@),
                Seq::empty(),
                self.retry,
                self.timeout,
                jitter@,
            ),
    {
        let none = String::new();
        assert(none@ =~= Seq::<char>::empty());
        show_masked(
            "OpenAIConfig",
            quote(self.base_url.as_str()).as_str(),
            quote(self.default_model.as_str()).as_str(),
            none.as_str(),
            self.retry,
            self.timeout,
            jitter,
        )
    }

    /// The model for requests that name none.
    pub fn default_model(&self) -> (r: &str)
        ensures
            r@ == self.default_model@,
    {
        self.default_model.as_str()
    }

    /// The model that a request goes to.
    pub fn model_for(&self, requested: &str) -> (r: String)
        ensures
            r@ == if requested@.len() == 0 {
                self.default_model@
            } else {
                requested@
            },
    {
        if requested.is_empty() {
            self.default_model.clone()
        } else {
            requested.to_owned()
        }
    }

    /// Where requests go.
    pub fn completions_url(&self) -> (r: String)
        ensures
            r@ == self.base_url@ + "/chat/completions"@,
    {
        text::glue(self.base_url.as_str(), "/chat/completions")
    }

    /// Where the list of models is.
    pub fn models_url(&self) -> (r: String)
        ensures
            r@ == self.base_url@ + "/models"@,
    {
        text::glue(self.base_url.as_str(), "/models")
    }

    /// Where the model `id` is described.
    pub fn model_url(&self, id: &str) -> (r: String)
        ensures
            r@ == self.base_url@ + "/models/"@ + id@,
    {
        text::glue3(self.base_url.as_str(), "/models/", id)
    }
}

/// What the adapter can do.
pub fn capabilities() -> (r: AdapterCapabilities)
    ensures
        r == (AdapterCapabilities {
            streaming: true,
            model_listing: true,
            model_retrieval: true,
            tool_calling: true,
            json_mode: true,
            json_schema: true,
            logprobs: true,
            multimodal_text: true,
            multimodal_image: true,
            multimodal_audio: true,
            usage_in_stream: true,
        }),
{
    AdapterCapabilities {
        streaming: true,
        model_listing: true,
        model_retrieval: true,
        tool_calling: true,
        json_mode: true,
        json_schema: true,
        logprobs: true,
        multimodal_text: true,
        multimodal_image: true,
        multimodal_audio: true,
        usage_in_stream: true,
    }
}

} // verus!
