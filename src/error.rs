//! The library's error type.
use vstd::prelude::*;
use vstd::string::*;

verus! {

/// What can go wrong while asking for a translation.
#[derive(Debug)]
pub enum TranslateError {
    /// The HTTP fetch could not be run or ended unsuccessfully.
    CommandFailed(String),
    /// The response body was not valid UTF-8.
    Utf8Error(String),
    /// The response body did not hold a translation where one belongs.
    ParseError(String),
    /// The response, or the translation in it, was blank.
    EmptyResponse,
    /// The endpoint refused or blocked the request.
    RateLimited,
}

/// The human-readable description of an error.
pub open spec fn describe(e: TranslateError) -> Seq<char> {
    match e {
        TranslateError::CommandFailed(s) => "Command failed: "@ + s@,
        TranslateError::Utf8Error(s) => "UTF-8 decode failed: "@ + s@,
        TranslateError::ParseError(s) => "Parse error: "@ + s@,
        TranslateError::EmptyResponse => "Empty response from server"@,
        TranslateError::RateLimited => "Rate limited by Google Translate"@,
    }
}

impl TranslateError {
    /// The human-readable description of this error.
    pub fn message(&self) -> (r: String)
        ensures
            r@ == describe(*self),
    {
        match self {
            TranslateError::CommandFailed(s) => String::from_str("Command failed: ").concat(
                s.as_str(),
            ),
            TranslateError::Utf8Error(s) => String::from_str("UTF-8 decode failed: ").concat(
                s.as_str(),
            ),
            TranslateError::ParseError(s) => String::from_str("Parse error: ").concat(s.as_str()),
            TranslateError::EmptyResponse => String::from_str("Empty response from server"),
            TranslateError::RateLimited => String::from_str("Rate limited by Google Translate"),
        }
    }
}

} // verus!
