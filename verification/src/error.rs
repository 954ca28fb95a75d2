//! The library's error type.
use vstd::prelude::*;

use crate::text::{owned, push_str};

verus! {

/// Every error that the library reports.
#[derive(Debug)]
pub enum AppError {
    Http { message: String },
    Ws { message: String },
    Json { source: serde_json::Error },
    Base64 { source: base64::DecodeError },
    Auth { details: String },
    Protocol { details: String },
    Internal { details: String },
}

pub type Result<T> = core::result::Result<T, AppError>;

/// serde_json's own message for a JSON error.
#[verifier::external_body]
fn json_error_text(e: &serde_json::Error) -> String {
    e.to_string()
}

/// base64's own message for a decoding error.
#[verifier::external_body]
fn base64_error_text(e: &base64::DecodeError) -> String {
    e.to_string()
}

impl AppError {
    pub fn auth(details: &str) -> (r: AppError)
        ensures
            r matches AppError::Auth { details: d } && d@ == details@,
    {
        AppError::Auth { details: owned(details) }
    }

    pub fn protocol(details: &str) -> (r: AppError)
        ensures
            r matches AppError::Protocol { details: d } && d@ == details@,
    {
        AppError::Protocol { details: owned(details) }
    }

    pub fn http(message: &str) -> (r: AppError)
        ensures
            r matches AppError::Http { message: m } && m@ == message@,
    {
        AppError::Http { message: owned(message) }
    }

    pub fn ws(message: &str) -> (r: AppError)
        ensures
            r matches AppError::Ws { message: m } && m@ == message@,
    {
        AppError::Ws { message: owned(message) }
    }

    pub fn internal(details: &str) -> (r: AppError)
        ensures
            r matches AppError::Internal { details: d } && d@ == details@,
    {
        AppError::Internal { details: owned(details) }
    }

    /// The error's message: a fixed lead-in for its kind, then its details.
    pub fn message(&self) -> (r: String)
        ensures
            match self {
                AppError::Http { message } => r@ == "HTTP request failed: "@ + message@,
                AppError::Ws { message } => r@ == "WebSocket error: "@ + message@,
                AppError::Auth { details } => r@ == "Authentication failed: "@ + details@,
                AppError::Protocol { details } => r@ == "Protocol error: "@ + details@,
                AppError::Internal { details } => r@ == "Internal error: "@ + details@,
                AppError::Json { .. } => "JSON error: "@.len() <= r@.len() && r@.subrange(
                    0,
                    "JSON error: "@.len() as int,
                ) == "JSON error: "@,
                AppError::Base64 { .. } => "Base64 decode error: "@.len() <= r@.len()
                    && r@.subrange(0, "Base64 decode error: "@.len() as int)
                    == "Base64 decode error: "@,
            },
    {
        let (lead, rest) = match self {
            AppError::Http { message } => ("HTTP request failed: ", message.clone()),
            AppError::Ws { message } => ("WebSocket error: ", message.clone()),
            AppError::Json { source } => ("JSON error: ", json_error_text(source)),
            AppError::Base64 { source } => ("Base64 decode error: ", base64_error_text(source)),
            AppError::Auth { details } => ("Authentication failed: ", details.clone()),
            AppError::Protocol { details } => ("Protocol error: ", details.clone()),
            AppError::Internal { details } => ("Internal error: ", details.clone()),
        };
        let mut out = owned(lead);
        push_str(&mut out, rest.as_str());
        assert(out@.subrange(0, lead@.len() as int) =~= lead@);
        out
    }
}

impl From<serde_json::Error> for AppError {
    fn from(source: serde_json::Error) -> (r: AppError) {
        AppError::Json { source }
    }
}

impl vstd::std_specs::convert::FromSpecImpl<serde_json::Error> for AppError {
    open spec fn obeys_from_spec() -> bool {
        true
    }

    open spec fn from_spec(v: serde_json::Error) -> AppError {
        AppError::Json { source: v }
    }
}

impl From<base64::DecodeError> for AppError {
    fn from(source: base64::DecodeError) -> (r: AppError) {
        AppError::Base64 { source }
    }
}

impl vstd::std_specs::convert::FromSpecImpl<base64::DecodeError> for AppError {
    open spec fn obeys_from_spec() -> bool {
        true
    }

    open spec fn from_spec(v: base64::DecodeError) -> AppError {
        AppError::Base64 { source: v }
    }
}

} // verus!
