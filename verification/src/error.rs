//! The error type of the library.

use vstd::prelude::*;
use crate::text::concat2;
use crate::text::concat3;
use crate::number::decimal_string;

verus! {

/// Errors of configuration, of the AI API and of the protocol.
#[derive(Debug, Clone)]
pub enum AISearchError {
    /// The configuration is missing or invalid.
    Config(String),
    /// The AI API answered with an HTTP error status.
    Api { code: u16, message: String },
    /// The request could not be carried out.
    Network { message: String, suggestion: String },
    /// The answer did not have the expected form.
    Protocol(String),
    /// The HTTP client failed.
    Http(String),
    /// JSON could not be read or written.
    Json(String),
    /// Reading or writing a stream failed.
    Io(String),
}

impl AISearchError {
    /// A configuration error whose message is `m`.
    pub open spec fn is_config(&self, m: Seq<char>) -> bool {
        self matches AISearchError::Config(x) && x@ == m
    }

    /// A protocol error whose message is `m`.
    pub open spec fn is_protocol(&self, m: Seq<char>) -> bool {
        self matches AISearchError::Protocol(x) && x@ == m
    }

    /// The text of the error, as shown to users and written to logs.
    pub open spec fn message_spec(&self) -> Seq<char> {
        match self {
            AISearchError::Config(m) => "配置错误: "@ + m@,
            AISearchError::Api { code, message } => "API 错误 (HTTP "@ + crate::number::decimal(
                *code as nat,
            ) + "): "@ + message@,
            AISearchError::Network { message, suggestion } => "网络错误: "@ + message@ + "，"@
                + suggestion@,
            AISearchError::Protocol(m) => "协议错误: "@ + m@,
            AISearchError::Http(m) => "HTTP 请求错误: "@ + m@,
            AISearchError::Json(m) => "JSON 错误: "@ + m@,
            AISearchError::Io(m) => "IO 错误: "@ + m@,
        }
    }

    /// The text of the error.
    pub fn message(&self) -> (r: String)
        ensures
            r@ == self.message_spec(),
    {
        match self {
            AISearchError::Config(m) => concat2("配置错误: ", m.as_str()),
            AISearchError::Api { code, message } => {
                let n = decimal_string(*code as u64);
                let head = concat3("API 错误 (HTTP ", n.as_str(), "): ");
                concat2(head.as_str(), message.as_str())
            },
            AISearchError::Network { message, suggestion } => {
                let head = concat3("网络错误: ", message.as_str(), "，");
                concat2(head.as_str(), suggestion.as_str())
            },
            AISearchError::Protocol(m) => concat2("协议错误: ", m.as_str()),
            AISearchError::Http(m) => concat2("HTTP 请求错误: ", m.as_str()),
            AISearchError::Json(m) => concat2("JSON 错误: ", m.as_str()),
            AISearchError::Io(m) => concat2("IO 错误: ", m.as_str()),
        }
    }
}

/// A configuration error with message `m`.
pub fn config_error(m: &str) -> (e: AISearchError)
    ensures
        e.is_config(m@),
{
    AISearchError::Config(m.to_owned())
}

/// A protocol error with message `m`.
pub fn protocol_error(m: &str) -> (e: AISearchError)
    ensures
        e.is_protocol(m@),
{
    AISearchError::Protocol(m.to_owned())
}

} // verus!
