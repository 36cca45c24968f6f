//! The request and response model.

use std::sync::Arc;
use vstd::prelude::*;
use vstd::utf8::encode_utf8;
use crate::error::HttpClientError;
use crate::method_utils::{parse_method_spec, HttpMethod, MethodUtils};
use crate::parser::{json_well_formed, parse_json_with_schema_bytes};
use crate::string_map::{StringMap, Text};
use crate::utils::{url_is_valid, validate_url};

verus! {

pub const DEFAULT_TIMEOUT_MS: u64 = 10000;

pub const DEFAULT_CONNECT_TIMEOUT_MS: u64 = 5000;

pub const DEFAULT_READ_TIMEOUT_MS: u64 = 10000;

pub const DEFAULT_WRITE_TIMEOUT_MS: u64 = 10000;

pub const DEFAULT_MAX_REDIRECTS: usize = 5;

/// One HTTP request as the caller describes it.
pub struct HttpRequest {
    pub url: String,
    pub method: String,
    pub headers: StringMap,
    pub body: Option<String>,
    pub query_params: StringMap,
    pub timeout_ms: u64,
    pub follow_redirects: bool,
    pub max_redirects: usize,
    pub connect_timeout_ms: u64,
    pub read_timeout_ms: u64,
    pub write_timeout_ms: u64,
    pub auto_referer: bool,
    pub decompress: bool,
    pub http3_only: bool,
}

impl HttpRequest {
    pub open spec fn wf(&self) -> bool {
        self.headers.wf() && self.query_params.wf()
    }

    /// The request is fit to be sent: its URL names an HTTP scheme and its
    /// method is a token.
    pub open spec fn is_valid(&self) -> bool {
        url_is_valid(self.url@) && parse_method_spec(self.method@).is_some()
    }

    /// What keeps the request from being sent, if anything: the URL is looked
    /// at first, then the method.
    pub open spec fn error_spec(&self) -> Option<HttpClientError> {
        if self.url@.len() == 0 {
            Some(HttpClientError::EmptyUrl)
        } else if !url_is_valid(self.url@) {
            Some(HttpClientError::MissingScheme)
        } else if parse_method_spec(self.method@).is_none() {
            Some(HttpClientError::InvalidMethod)
        } else {
            None
        }
    }

    /// A request for `url` with every optional field at its default: no
    /// headers, body or query, redirects followed, responses decompressed.
    pub fn new(url: String, method: String) -> (r: Self)
        ensures
            r.wf(),
            r.url@ == url@,
            r.method@ == method@,
            r.headers@.len() == 0,
            r.query_params@.len() == 0,
            r.body.is_none(),
            r.timeout_ms == DEFAULT_TIMEOUT_MS,
            r.connect_timeout_ms == DEFAULT_CONNECT_TIMEOUT_MS,
            r.read_timeout_ms == DEFAULT_READ_TIMEOUT_MS,
            r.write_timeout_ms == DEFAULT_WRITE_TIMEOUT_MS,
            r.max_redirects == DEFAULT_MAX_REDIRECTS,
            r.follow_redirects,
            r.auto_referer,
            r.decompress,
            !r.http3_only,
    {
        HttpRequest {
            url,
            method,
            headers: StringMap::new(),
            body: None,
            query_params: StringMap::new(),
            timeout_ms: DEFAULT_TIMEOUT_MS,
            follow_redirects: true,
            max_redirects: DEFAULT_MAX_REDIRECTS,
            connect_timeout_ms: DEFAULT_CONNECT_TIMEOUT_MS,
            read_timeout_ms: DEFAULT_READ_TIMEOUT_MS,
            write_timeout_ms: DEFAULT_WRITE_TIMEOUT_MS,
            auto_referer: true,
            decompress: true,
            http3_only: false,
        }
    }

    /// Checks the URL, then the method, and hands back the parsed method.
    pub fn validate(&self) -> (r: Result<HttpMethod, HttpClientError>)
        ensures
            r.is_ok() <==> self.is_valid(),
            r matches Ok(m) ==> parse_method_spec(self.method@) == Some(m@),
            r matches Err(e) ==> self.error_spec() == Some(e),
            r.is_ok() ==> self.error_spec().is_none(),
    {
        match validate_url(self.url.as_str()) {
            Err(e) => Err(e),
            Ok(()) => MethodUtils::parse_method(self.method.as_str()),
        }
    }
}

/// One HTTP response as the transport delivered it.
pub struct HttpResponse {
    pub status_code: u16,
    pub headers: StringMap,
    pub body: String,
    pub version: String,
    pub url: String,
    pub elapsed_ms: u128,
}

pub struct HttpResponseView {
    pub status_code: u16,
    pub headers: Seq<(Text, Text)>,
    pub body: Text,
    pub version: Text,
    pub url: Text,
    pub elapsed_ms: u128,
}

impl View for HttpResponse {
    type V = HttpResponseView;

    open spec fn view(&self) -> HttpResponseView {
        HttpResponseView {
            status_code: self.status_code,
            headers: self.headers@,
            body: self.body@,
            version: self.version@,
            url: self.url@,
            elapsed_ms: self.elapsed_ms,
        }
    }
}

impl HttpResponse {
    pub open spec fn wf(&self) -> bool {
        self.headers.wf()
    }

    /// The status that marks a response as successful for caching.
    pub open spec fn is_success_spec(&self) -> bool {
        self.status_code == 200
    }

    pub fn is_success(&self) -> (b: bool)
        ensures
            b == self.is_success_spec(),
    {
        self.status_code == 200
    }

    /// A snapshot equal to this response field for field.
    pub fn duplicate(&self) -> (r: Self)
        ensures
            r@ == self@,
            self.wf() ==> r.wf(),
    {
        HttpResponse {
            status_code: self.status_code,
            headers: self.headers.duplicate(),
            body: self.body.clone(),
            version: self.version.clone(),
            url: self.url.clone(),
            elapsed_ms: self.elapsed_ms,
        }
    }
}

/// A response snapshot under shared ownership. A snapshot is never changed
/// once it is made; it is handed on by reference count.
pub type SharedResponse = Arc<HttpResponse>;

/// Makes one more handle to a snapshot with `Arc::clone`.
///
/// Assumed of that function: the new handle points to the same snapshot.
#[verifier::external_body]
pub(crate) fn share(snapshot: &Arc<HttpResponse>) -> (r: Arc<HttpResponse>)
    ensures
        r == *snapshot,
{
    Arc::clone(snapshot)
}

/// Scheduling hint carried by a request. No component orders work by it.
#[derive(Clone, Copy, Debug, PartialEq, Eq, Structural)]
pub enum Priority {
    High,
    Normal,
    Low,
}

impl Default for Priority {
    fn default() -> (p: Self)
        ensures
            p == Priority::Normal,
    {
        Priority::Normal
    }
}

/// A request with the metadata that steers caching and response parsing.
pub struct EnhancedRequest {
    pub request: HttpRequest,
    pub cache_key: Option<String>,
    pub response_schema: Option<String>,
    pub parse_response: bool,
    pub priority: Priority,
}

impl EnhancedRequest {
    pub open spec fn wf(&self) -> bool {
        self.request.wf()
    }

    /// Wraps a plain request: no explicit cache key, no schema, no parsing,
    /// normal priority.
    pub fn new(request: HttpRequest) -> (r: Self)
        ensures
            r.request == request,
            r.cache_key.is_none(),
            r.response_schema.is_none(),
            !r.parse_response,
            r.priority == Priority::Normal,
    {
        EnhancedRequest {
            request,
            cache_key: None,
            response_schema: None,
            parse_response: false,
            priority: Priority::Normal,
        }
    }
}

/// Bytes that compression kept off the wire: the decoded length less the
/// length received, and zero where the wire length is unknown or not smaller.
pub open spec fn bytes_saved_spec(decoded_len: nat, wire_len: Option<u64>) -> nat {
    match wire_len {
        Some(w) => if w < decoded_len {
            (decoded_len - w) as nat
        } else {
            0
        },
        None => 0,
    }
}

pub fn bytes_saved(decoded_len: usize, wire_len: Option<u64>) -> (n: u64)
    ensures
        n == bytes_saved_spec(decoded_len as nat, wire_len),
{
    match wire_len {
        Some(w) => {
            let d = decoded_len as u64;
            if w < d {
                d - w
            } else {
                0
            }
        },
        None => 0,
    }
}

/// A response with what the client learned while producing it.
pub struct EnhancedResponse {
    pub response: HttpResponse,
    pub parsed: Option<simd_json::OwnedValue>,
    pub cache_hit: bool,
    pub bytes_saved: u64,
}

impl EnhancedResponse {
    /// Attaches the metadata to a response. The body is parsed only where the
    /// request asked for it, and the parsed payload is present only where the
    /// body is well-formed JSON.
    pub fn build(
        response: HttpResponse,
        parse_response: bool,
        schema: Option<&str>,
        cache_hit: bool,
        wire_len: Option<u64>,
    ) -> (r: Self)
        ensures
            r.response == response,
            r.cache_hit == cache_hit,
            r.parsed.is_some() == (parse_response && json_well_formed(
                encode_utf8(response.body@),
            )),
            r.bytes_saved == bytes_saved_spec(encode_utf8(response.body@).len(), wire_len),
    {
        let parsed = if parse_response {
            match parse_json_with_schema_bytes(response.body.as_str().as_bytes(), schema) {
                Ok(v) => Some(v),
                Err(_) => None,
            }
        } else {
            None
        };
        let saved = bytes_saved(response.body.as_str().as_bytes().len(), wire_len);
        EnhancedResponse { response, parsed, cache_hit, bytes_saved: saved }
    }
}

/// A failure as it is reported in structured form.
pub struct HttpError {
    pub code: String,
    pub message: String,
    pub details: Option<simd_json::OwnedValue>,
}

impl HttpError {
    /// The structured form of a client error: its message, no details.
    pub fn from_error(code: String, error: HttpClientError) -> (r: Self)
        ensures
            r.code@ == code@,
            r.message@ == error.message_spec(),
            r.details.is_none(),
    {
        HttpError { code, message: error.message(), details: None }
    }
}

} // verus!
