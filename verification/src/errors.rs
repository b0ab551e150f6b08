//! The failures the client can report.

use vstd::prelude::*;

verus! {

/// Every failure of the client is exactly one of these.
#[derive(Debug, PartialEq, Eq)]
pub enum Error {
    /// A required configuration value is absent.
    ConfigMissing,
    /// A base address or a path cannot be made into a URL.
    UrlParseError,
    /// The service could not be reached or its answer could not be read; holds the cause.
    TransportError(String),
    /// The service answered with a status other than success; holds the status code and
    /// the reason phrase as they were received.
    HttpError { status: u16, reason: String },
    /// A response body could not be decoded into a structured value. The client hands
    /// bodies on as bytes, so nothing here reports it; it is for those who decode them.
    DeserializationError,
}

} // verus!
