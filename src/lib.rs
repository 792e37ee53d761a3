//! A small client library for a public translation web endpoint: it builds
//! request URLs, percent-encodes query text and reads the translated text
//! out of the endpoint's response body.
pub mod error;
pub mod fetch;
pub mod response;
mod text;
pub mod url;

pub use error::{describe, TranslateError};
pub use fetch::{check_exit, decode_body, fetch_result};
pub use response::{parse_translation, translation_from_body};
pub use url::{request_url, url_encode};
