//! The failures that the client reports.

use vstd::prelude::*;
use vstd::string::StringExecFns;

verus! {

/// How a transport call failed.
#[derive(Clone, Copy, Debug, PartialEq, Eq, Structural)]
pub enum TransportFailure {
    /// The per-request deadline passed before a response was complete.
    Timeout,
    /// No connection could be established.
    Connect,
    /// Any other network or TLS fault.
    Other,
}

/// Every failure the client reports to its caller.
#[derive(Clone, Copy, Debug, PartialEq, Eq, Structural)]
pub enum HttpClientError {
    /// The input handle was null.
    NullInput,
    /// The input held no bytes.
    EmptyInput,
    /// The declared length exceeds the capacity of the input buffer.
    LengthExceedsCapacity,
    /// The input is not valid UTF-8.
    InvalidUtf8,
    /// The input is not a well-formed JSON request.
    InvalidJson,
    /// The request has no URL.
    EmptyUrl,
    /// The URL does not begin with `http://` or `https://`.
    MissingScheme,
    /// The method is not an HTTP token.
    InvalidMethod,
    /// A header name is not an HTTP token or is too long.
    InvalidHeaderName,
    /// A header value holds a control character.
    InvalidHeaderValue,
    /// More headers than a header map can hold.
    TooManyHeaders,
    /// The batch holds more requests than the caller allowed.
    BatchTooLarge,
    /// An operation was invoked before initialisation.
    Uninitialized,
    /// Every admission slot is taken; the call may be retried.
    RateLimited,
    /// The transport failed.
    Transport(TransportFailure),
    /// The response could not be encoded.
    Serialization,
    /// A buffer was released that this side never issued, or with other dimensions.
    UnknownBuffer,
    /// A buffer was issued whose address is still held by the other side.
    BufferAlreadyIssued,
    /// A failure that none of the others describes, caught at the boundary.
    Internal,
}

impl HttpClientError {
    /// Malformed input is rejected before anything reaches the transport.
    pub open spec fn is_malformed_input_spec(self) -> bool {
        self is NullInput || self is EmptyInput || self is LengthExceedsCapacity
            || self is InvalidUtf8 || self is InvalidJson
    }

    pub fn is_malformed_input(&self) -> (b: bool)
        ensures
            b == self.is_malformed_input_spec(),
    {
        match self {
            HttpClientError::NullInput => true,
            HttpClientError::EmptyInput => true,
            HttpClientError::LengthExceedsCapacity => true,
            HttpClientError::InvalidUtf8 => true,
            HttpClientError::InvalidJson => true,
            _ => false,
        }
    }

    /// Only a refused admission invites a retry.
    pub fn is_retriable(&self) -> (b: bool)
        ensures
            b == (*self is RateLimited),
    {
        match self {
            HttpClientError::RateLimited => true,
            _ => false,
        }
    }

    /// The text carried in the `error` field of the error payload.
    pub open spec fn message_spec(self) -> Seq<char> {
        match self {
            HttpClientError::NullInput => "input pointer is null"@,
            HttpClientError::EmptyInput => "input is empty"@,
            HttpClientError::LengthExceedsCapacity => "input length exceeds capacity"@,
            HttpClientError::InvalidUtf8 => "input is not valid UTF-8"@,
            HttpClientError::InvalidJson => "input is not valid JSON"@,
            HttpClientError::EmptyUrl => "URL cannot be empty"@,
            HttpClientError::MissingScheme => "URL must start with http:// or https://"@,
            HttpClientError::InvalidMethod => "invalid HTTP method"@,
            HttpClientError::InvalidHeaderName => "invalid HTTP header name"@,
            HttpClientError::InvalidHeaderValue => "failed to parse header value"@,
            HttpClientError::TooManyHeaders => "too many headers"@,
            HttpClientError::BatchTooLarge => "batch exceeds the item limit"@,
            HttpClientError::Uninitialized => "client is not initialised"@,
            HttpClientError::RateLimited => "rate limited"@,
            HttpClientError::Transport(TransportFailure::Timeout) => "request timed out"@,
            HttpClientError::Transport(TransportFailure::Connect) => "connection failed"@,
            HttpClientError::Transport(TransportFailure::Other) => "transport error"@,
            HttpClientError::Serialization => "response could not be serialised"@,
            HttpClientError::UnknownBuffer => "buffer was not issued with these dimensions"@,
            HttpClientError::BufferAlreadyIssued => "buffer is already issued"@,
            HttpClientError::Internal => "internal error"@,
        }
    }

    /// Every error has something to say.
    pub proof fn lemma_message_is_not_empty(self)
        ensures
            self.message_spec().len() > 0,
            self.payload_spec().len() > self.message_spec().len(),
    {
        reveal_strlit("input pointer is null");
        reveal_strlit("input is empty");
        reveal_strlit("input length exceeds capacity");
        reveal_strlit("input is not valid UTF-8");
        reveal_strlit("input is not valid JSON");
        reveal_strlit("URL cannot be empty");
        reveal_strlit("URL must start with http:// or https://");
        reveal_strlit("invalid HTTP method");
        reveal_strlit("invalid HTTP header name");
        reveal_strlit("failed to parse header value");
        reveal_strlit("too many headers");
        reveal_strlit("batch exceeds the item limit");
        reveal_strlit("client is not initialised");
        reveal_strlit("rate limited");
        reveal_strlit("request timed out");
        reveal_strlit("connection failed");
        reveal_strlit("transport error");
        reveal_strlit("response could not be serialised");
        reveal_strlit("buffer was not issued with these dimensions");
        reveal_strlit("buffer is already issued");
        reveal_strlit("internal error");
        reveal_strlit("{\"error\":\"");
    }

    /// The error payload that is handed across the boundary: a JSON object
    /// with the message under `error`.
    pub open spec fn payload_spec(self) -> Seq<char> {
        "{\"error\":\""@ + self.message_spec() + "\"}"@
    }

    pub fn payload(&self) -> (s: String)
        ensures
            s@ == self.payload_spec(),
    {
        let mut s = "{\"error\":\"".to_owned();
        let message = self.message();
        s.append(message.as_str());
        s.append("\"}");
        s
    }

    pub fn message(&self) -> (s: String)
        ensures
            s@ == self.message_spec(),
    {
        match self {
            HttpClientError::NullInput => "input pointer is null".to_owned(),
            HttpClientError::EmptyInput => "input is empty".to_owned(),
            HttpClientError::LengthExceedsCapacity => "input length exceeds capacity".to_owned(),
            HttpClientError::InvalidUtf8 => "input is not valid UTF-8".to_owned(),
            HttpClientError::InvalidJson => "input is not valid JSON".to_owned(),
            HttpClientError::EmptyUrl => "URL cannot be empty".to_owned(),
            HttpClientError::MissingScheme => "URL must start with http:// or https://".to_owned(),
            HttpClientError::InvalidMethod => "invalid HTTP method".to_owned(),
            HttpClientError::InvalidHeaderName => "invalid HTTP header name".to_owned(),
            HttpClientError::InvalidHeaderValue => "failed to parse header value".to_owned(),
            HttpClientError::TooManyHeaders => "too many headers".to_owned(),
            HttpClientError::BatchTooLarge => "batch exceeds the item limit".to_owned(),
            HttpClientError::Uninitialized => "client is not initialised".to_owned(),
            HttpClientError::RateLimited => "rate limited".to_owned(),
            HttpClientError::Transport(TransportFailure::Timeout) => "request timed out".to_owned(),
            HttpClientError::Transport(TransportFailure::Connect) => "connection failed".to_owned(),
            HttpClientError::Transport(TransportFailure::Other) => "transport error".to_owned(),
            HttpClientError::Serialization => "response could not be serialised".to_owned(),
            HttpClientError::UnknownBuffer => "buffer was not issued with these dimensions".to_owned(),
            HttpClientError::BufferAlreadyIssued => "buffer is already issued".to_owned(),
            HttpClientError::Internal => "internal error".to_owned(),
        }
    }
}

} // verus!
