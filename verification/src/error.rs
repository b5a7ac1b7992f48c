//! The errors that the client reports.
use vstd::prelude::*;

verus! {

/// `url::ParseError`, carried in `FredError::Url`.
#[verifier::external_type_specification]
#[verifier::external_body]
pub struct ExUrlParseError(url::ParseError);

/// `reqwest::Error`, carried in `FredError::Transport`.
#[verifier::external_type_specification]
#[verifier::external_body]
pub struct ExReqwestError(reqwest::Error);

/// `serde_json::Error`, carried in `FredError::Decode`.
#[verifier::external_type_specification]
#[verifier::external_body]
pub struct ExJsonError(serde_json::Error);

/// Error body returned by FRED for invalid API requests.
#[derive(Clone, Debug, PartialEq, Eq)]
pub struct FredApiError {
    pub error_code: u16,
    pub error_message: String,
}

impl FredApiError {
    pub fn code(&self) -> (r: u16)
        ensures
            r == self.error_code,
    {
        self.error_code
    }

    pub fn message(&self) -> (r: &str)
        ensures
            r@ == self.error_message@,
    {
        self.error_message.as_str()
    }
}

/// Errors returned by this crate.
#[derive(Debug)]
pub enum FredError {
    /// The FRED API key must contain exactly 32 alphanumeric characters.
    InvalidApiKey,
    /// A base URL or a request URL is invalid.
    Url(url::ParseError),
    /// The HTTP transport failed.
    Transport(reqwest::Error),
    /// FRED answered with its own error body.
    Api(FredApiError),
    /// FRED answered with an unsuccessful HTTP status and another body.
    Http { status: u16, body: String },
    /// FRED's response could not be decoded.
    Decode(serde_json::Error),
    /// FRED returned no record of a kind that the request requires one of.
    EmptyResponse { resource: &'static str },
    /// The request queue could not take or answer a request.
    Unavailable(String),
}

} // verus!
