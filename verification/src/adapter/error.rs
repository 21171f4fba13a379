//! What can go wrong when a model is asked.

use crate::number::Duration;
use crate::text;
use crate::text::{decimal, opt_text};
use vstd::prelude::*;

verus! {

/// An error of an adapter.
#[derive(Debug)]
pub enum AdapterError {
    Config { adapter: String, message: String },
    InvalidRequest { adapter: String, message: String },
    PermissionDenied { adapter: String, message: String, request_id: Option<String> },
    NotFound { adapter: String, message: String, request_id: Option<String> },
    Authentication { adapter: String, message: String, request_id: Option<String> },
    RateLimit {
        adapter: String,
        message: String,
        retry_after: Option<Duration>,
        request_id: Option<String>,
    },
    ServerError { adapter: String, status: u16, message: String, request_id: Option<String> },
    Timeout { adapter: String, message: String },
    Network { adapter: String, message: String, source: String },
    Decode { adapter: String, message: String },
    Stream { adapter: String, message: String },
    Unsupported { adapter: String, feature: String },
    Cancelled { adapter: String },
}

/// An `AdapterError` with its texts as characters.
pub ghost enum ErrorView {
    Config { adapter: Seq<char>, message: Seq<char> },
    InvalidRequest { adapter: Seq<char>, message: Seq<char> },
    PermissionDenied { adapter: Seq<char>, message: Seq<char>, request_id: Option<Seq<char>> },
    NotFound { adapter: Seq<char>, message: Seq<char>, request_id: Option<Seq<char>> },
    Authentication { adapter: Seq<char>, message: Seq<char>, request_id: Option<Seq<char>> },
    RateLimit {
        adapter: Seq<char>,
        message: Seq<char>,
        retry_after: Option<Duration>,
        request_id: Option<Seq<char>>,
    },
    ServerError {
        adapter: Seq<char>,
        status: u16,
        message: Seq<char>,
        request_id: Option<Seq<char>>,
    },
    Timeout { adapter: Seq<char>, message: Seq<char> },
    Network { adapter: Seq<char>, message: Seq<char>, source: Seq<char> },
    Decode { adapter: Seq<char>, message: Seq<char> },
    Stream { adapter: Seq<char>, message: Seq<char> },
    Unsupported { adapter: Seq<char>, feature: Seq<char> },
    Cancelled { adapter: Seq<char> },
}

impl View for AdapterError {
    type V = ErrorView;

    open spec fn view(&self) -> ErrorView {
        match self {
            AdapterError::Config { adapter, message } => ErrorView::Config {
                adapter: adapter@,
                message: message@,
            },
            AdapterError::InvalidRequest { adapter, message } => ErrorView::InvalidRequest {
                adapter: adapter@,
                message: message@,
            },
            AdapterError::PermissionDenied { adapter, message, request_id } => {
                ErrorView::PermissionDenied {
                    adapter: adapter@,
                    message: message@,
                    request_id: opt_text(*request_id),
                }
            },
            AdapterError::NotFound { adapter, message, request_id } => ErrorView::NotFound {
                adapter: adapter@,
                message: message@,
                request_id: opt_text(*request_id),
            },
            AdapterError::Authentication { adapter, message, request_id } => {
                ErrorView::Authentication {
                    adapter: adapter@,
                    message: message@,
                    request_id: opt_text(*request_id),
                }
            },
            AdapterError::RateLimit { adapter, message, retry_after, request_id } => {
                ErrorView::RateLimit {
                    adapter: adapter@,
                    message: message@,
                    retry_after: *retry_after,
                    request_id: opt_text(*request_id),
                }
            },
            AdapterError::ServerError { adapter, status, message, request_id } => {
                ErrorView::ServerError {
                    adapter: adapter@,
                    status: *status,
                    message: message@,
                    request_id: opt_text(*request_id),
                }
            },
            AdapterError::Timeout { adapter, message } => ErrorView::Timeout {
                adapter: adapter@,
                message: message@,
            },
            AdapterError::Network { adapter, message, source } => ErrorView::Network {
                adapter: adapter@,
                message: message@,
                source: source@,
            },
            AdapterError::Decode { adapter, message } => ErrorView::Decode {
                adapter: adapter@,
                message: message@,
            },
            AdapterError::Stream { adapter, message } => ErrorView::Stream {
                adapter: adapter@,
                message: message@,
            },
            AdapterError::Unsupported { adapter, feature } => ErrorView::Unsupported {
                adapter: adapter@,
                feature: feature@,
            },
            AdapterError::Cancelled { adapter } => ErrorView::Cancelled { adapter: adapter@ },
        }
    }
}

impl ErrorView {
    /// The adapter that the error comes from.
    pub open spec fn name(self) -> Seq<char> {
        match self {
            ErrorView::Config { adapter, .. } => adapter,
            ErrorView::InvalidRequest { adapter, .. } => adapter,
            ErrorView::PermissionDenied { adapter, .. } => adapter,
            ErrorView::NotFound { adapter, .. } => adapter,
            ErrorView::Authentication { adapter, .. } => adapter,
            ErrorView::RateLimit { adapter, .. } => adapter,
            ErrorView::ServerError { adapter, .. } => adapter,
            ErrorView::Timeout { adapter, .. } => adapter,
            ErrorView::Network { adapter, .. } => adapter,
            ErrorView::Decode { adapter, .. } => adapter,
            ErrorView::Stream { adapter, .. } => adapter,
            ErrorView::Unsupported { adapter, .. } => adapter,
            ErrorView::Cancelled { adapter } => adapter,
        }
    }

    /// Whether the request may succeed if it is made again.
    pub open spec fn retryable(self) -> bool {
        self is Network || self is Timeout || self is RateLimit || self is ServerError
    }

    /// How long the server asks to wait.
    pub open spec fn wait(self) -> Option<Duration> {
        match self {
            ErrorView::RateLimit { retry_after, .. } => retry_after,
            _ => None,
        }
    }

    /// What is said of the error after the adapter's name.
    pub open spec fn saying(self) -> Seq<char> {
        match self {
            ErrorView::Config { message, .. } => "Setup failed: "@ + message,
            ErrorView::InvalidRequest { message, .. } => "Invalid Request: "@ + message,
            ErrorView::PermissionDenied { message, .. } => "Permission denied: "@ + message,
            ErrorView::NotFound { message, .. } => "Not found: "@ + message,
            ErrorView::Authentication { message, .. } => "Authentication failed: "@ + message,
            ErrorView::RateLimit { message, .. } => "Rate limit exceeded: "@ + message,
            ErrorView::ServerError { status, message, .. } => "Server Error (HTTP "@ + decimal(
                status as nat,
            ) + "): "@ + message,
            ErrorView::Timeout { message, .. } => "Timeout: "@ + message,
            ErrorView::Network { message, .. } => "Network Error: "@ + message,
            ErrorView::Decode { message, .. } => "Decode Error: "@ + message,
            ErrorView::Stream { message, .. } => "Stream Error: "@ + message,
            ErrorView::Unsupported { feature, .. } => "Unsupported Feature: "@ + feature,
            ErrorView::Cancelled { .. } => "Request Cancelled"@,
        }
    }

    /// The error as it is shown.
    pub open spec fn shown(self) -> Seq<char> {
        "["@ + self.name() + "] "@ + self.saying()
    }
}

impl AdapterError {
    /// A setup error.
    pub fn config(adapter: &str, message: &str) -> (r: Self)
        ensures
            r@ == (ErrorView::Config { adapter: adapter@, message: message@ }),
    {
        AdapterError::Config { adapter: adapter.to_owned(), message: message.to_owned() }
    }

    /// An error in the request.
    pub fn invalid_request(adapter: &str, message: &str) -> (r: Self)
        ensures
            r@ == (ErrorView::InvalidRequest { adapter: adapter@, message: message@ }),
    {
        AdapterError::InvalidRequest { adapter: adapter.to_owned(), message: message.to_owned() }
    }

    /// The end of a request that was called off.
    pub fn cancelled(adapter: &str) -> (r: Self)
        ensures
            r@ == (ErrorView::Cancelled { adapter: adapter@ }),
    {
        AdapterError::Cancelled { adapter: adapter.to_owned() }
    }

    /// Whether the request may succeed if it is made again.
    pub fn is_retryable(&self) -> (r: bool)
        ensures
            r == self@.retryable(),
    {
        match self {
            AdapterError::Network { .. } => true,
            AdapterError::Timeout { .. } => true,
            AdapterError::RateLimit { .. } => true,
            AdapterError::ServerError { .. } => true,
            _ => false,
        }
    }

    /// The adapter that the error comes from.
    pub fn adapter_name(&self) -> (r: &str)
        ensures
            r@ == self@.name(),
    {
        match self {
            AdapterError::Config { adapter, .. } => adapter.as_str(),
            AdapterError::InvalidRequest { adapter, .. } => adapter.as_str(),
            AdapterError::PermissionDenied { adapter, .. } => adapter.as_str(),
            AdapterError::NotFound { adapter, .. } => adapter.as_str(),
            AdapterError::Authentication { adapter, .. } => adapter.as_str(),
            AdapterError::RateLimit { adapter, .. } => adapter.as_str(),
            AdapterError::ServerError { adapter, .. } => adapter.as_str(),
            AdapterError::Timeout { adapter, .. } => adapter.as_str(),
            AdapterError::Network { adapter, .. } => adapter.as_str(),
            AdapterError::Decode { adapter, .. } => adapter.as_str(),
            AdapterError::Stream { adapter, .. } => adapter.as_str(),
            AdapterError::Unsupported { adapter, .. } => adapter.as_str(),
            AdapterError::Cancelled { adapter } => adapter.as_str(),
        }
    }

    /// How long the server asks to wait.
    pub fn retry_after(&self) -> (r: Option<Duration>)
        ensures
            r == self@.wait(),
    {
        match self {
            AdapterError::RateLimit { retry_after, .. } => *retry_after,
            _ => None,
        }
    }

    /// The error as it is shown.
    pub fn to_string(&self) -> (r: String)
        ensures
            r@ == self@.shown(),
    {
        let mut out = text::glue3("[", self.adapter_name(), "] ");
        let saying = match self {
            AdapterError::Config { message, .. } => text::glue("Setup failed: ", message.as_str()),
            AdapterError::InvalidRequest { message, .. } => text::glue(
                "Invalid Request: ",
                message.as_str(),
            ),
            AdapterError::PermissionDenied { message, .. } => text::glue(
                "Permission denied: ",
                message.as_str(),
            ),
            AdapterError::NotFound { message, .. } => text::glue("Not found: ", message.as_str()),
            AdapterError::Authentication { message, .. } => text::glue(
                "Authentication failed: ",
                message.as_str(),
            ),
            AdapterError::RateLimit { message, .. } => text::glue(
                "Rate limit exceeded: ",
                message.as_str(),
            ),
            AdapterError::ServerError { status, message, .. } => {
                let mut out = text::glue3(
                    "Server Error (HTTP ",
                    text::number_text(*status as u64).as_str(),
                    "): ",
                );
                out.append(message.as_str());
                out
            },
            AdapterError::Timeout { message, .. } => text::glue("Timeout: ", message.as_str()),
            AdapterError::Network { message, .. } => text::glue("Network Error: ", message.as_str()),
            AdapterError::Decode { message, .. } => text::glue("Decode Error: ", message.as_str()),
            AdapterError::Stream { message, .. } => text::glue("Stream Error: ", message.as_str()),
            AdapterError::Unsupported { feature, .. } => text::glue(
                "Unsupported Feature: ",
                feature.as_str(),
            ),
            AdapterError::Cancelled { .. } => "Request Cancelled".to_owned(),
        };
        out.append(saying.as_str());
        out
    }
}

impl Clone for AdapterError {
    fn clone(&self) -> (r: Self)
        ensures
            r@ == self@,
    {
        match self {
            AdapterError::Config { adapter, message } => AdapterError::Config {
                adapter: adapter.clone(),
                message: message.clone(),
            },
            AdapterError::InvalidRequest { adapter, message } => AdapterError::InvalidRequest {
                adapter: adapter.clone(),
                message: message.clone(),
            },
            AdapterError::PermissionDenied { adapter, message, request_id } => {
                AdapterError::PermissionDenied {
                    adapter: adapter.clone(),
                    message: message.clone(),
                    request_id: text::copy_opt(request_id),
                }
            },
            AdapterError::NotFound { adapter, message, request_id } => AdapterError::NotFound {
                adapter: adapter.clone(),
                message: message.clone(),
                request_id: text::copy_opt(request_id),
            },
            AdapterError::Authentication { adapter, message, request_id } => {
                AdapterError::Authentication {
                    adapter: adapter.clone(),
                    message: message.clone(),
                    request_id: text::copy_opt(request_id),
                }
            },
            AdapterError::RateLimit { adapter, message, retry_after, request_id } => {
                AdapterError::RateLimit {
                    adapter: adapter.clone(),
                    message: message.clone(),
                    retry_after: *retry_after,
                    request_id: text::copy_opt(request_id),
                }
            },
            AdapterError::ServerError { adapter, status, message, request_id } => {
                AdapterError::ServerError {
                    adapter: adapter.clone(),
                    status: *status,
                    message: message.clone(),
                    request_id: text::copy_opt(request_id),
                }
            },
            AdapterError::Timeout { adapter, message } => AdapterError::Timeout {
                adapter: adapter.clone(),
                message: message.clone(),
            },
            AdapterError::Network { adapter, message, source } => AdapterError::Network {
                adapter: adapter.clone(),
                message: message.clone(),
                source: source.clone(),
            },
            AdapterError::Decode { adapter, message } => AdapterError::Decode {
                adapter: adapter.clone(),
                message: message.clone(),
            },
            AdapterError::Stream { adapter, message } => AdapterError::Stream {
                adapter: adapter.clone(),
                message: message.clone(),
            },
            AdapterError::Unsupported { adapter, feature } => AdapterError::Unsupported {
                adapter: adapter.clone(),
                feature: feature.clone(),
            },
            AdapterError::Cancelled { adapter } => AdapterError::Cancelled {
                adapter: adapter.clone(),
            },
        }
    }
}

/// Only an error that may pass is worth another attempt: no error in the request, in the setup or in
/// the answer is.
pub proof fn retryable_errors(e: ErrorView)
    ensures
        e.wait() is Some ==> e.retryable(),
        e is Cancelled || e is Authentication || e is InvalidRequest || e is Decode
            ==> !e.retryable(),
{
}

} // verus!
