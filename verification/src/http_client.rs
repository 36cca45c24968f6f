//! What is computed before a transport call and after it.

use vstd::prelude::*;
use vstd::utf8::{decode_utf8, valid_utf8};
use crate::error::HttpClientError;
use crate::header_utils::{
    built_entries, extracted, first_error, header_map_entries, names_lower_case, HeaderUtils,
    MAX_HEADERS, MAX_MAP_CAPACITY,
};
use crate::method_utils::{parse_method_spec, HttpMethod};
use crate::models::{HttpRequest, HttpResponse};

verus! {

/// The version of HTTP a response was carried in.
#[derive(Clone, Copy, Debug, PartialEq, Eq, Structural)]
pub enum ProtocolVersion {
    Http09,
    Http10,
    Http11,
    Http2,
    Http3,
}

/// How a protocol version is written in a response. HTTP/3 has no name
/// of its own.
pub open spec fn version_text(version: ProtocolVersion) -> Seq<char> {
    match version {
        ProtocolVersion::Http09 => "HTTP/0.9"@,
        ProtocolVersion::Http10 => "HTTP/1.0"@,
        ProtocolVersion::Http11 => "HTTP/1.1"@,
        ProtocolVersion::Http2 => "HTTP/2"@,
        ProtocolVersion::Http3 => "Unknown"@,
    }
}

pub fn version_to_string(version: ProtocolVersion) -> (s: String)
    ensures
        s@ == version_text(version),
{
    match version {
        ProtocolVersion::Http09 => "HTTP/0.9".to_owned(),
        ProtocolVersion::Http10 => "HTTP/1.0".to_owned(),
        ProtocolVersion::Http11 => "HTTP/1.1".to_owned(),
        ProtocolVersion::Http2 => "HTTP/2".to_owned(),
        ProtocolVersion::Http3 => "Unknown".to_owned(),
    }
}

/// The text that a body of these bytes is read as.
pub uninterp spec fn lossy_decode(bytes: Seq<u8>) -> Seq<char>;

/// Reads bytes as text with `String::from_utf8_lossy`.
///
/// Assumed of that function: the text depends on the bytes alone, and bytes
/// that are valid UTF-8 are read as the text they encode. What stands in for
/// a sequence that is not valid is left to that function.
#[verifier::external_body]
fn lossy_text(bytes: &[u8]) -> (s: String)
    ensures
        s@ == lossy_decode(bytes@),
        valid_utf8(bytes@) ==> s@ == decode_utf8(bytes@),
{
    String::from_utf8_lossy(bytes).into_owned()
}

/// A request made ready for the transport.
pub struct PreparedRequest {
    pub method: HttpMethod,
    pub url: String,
    /// The header map, where the request has headers.
    pub headers: Option<reqwest::header::HeaderMap>,
    /// Whether the query parameters are to be added to the URL.
    pub has_query: bool,
    pub body: Option<String>,
    /// The protocol version the request is pinned to.
    pub version: ProtocolVersion,
}

/// What keeps the headers of a request from being sent, if anything: more
/// headers than a header map can be made for, or the first header whose name
/// or value is not valid.
pub open spec fn header_error(request: &HttpRequest) -> Option<HttpClientError> {
    if request.headers@.len() > MAX_MAP_CAPACITY {
        Some(HttpClientError::TooManyHeaders)
    } else {
        first_error(request.headers@)
    }
}

/// The request has so many headers that the header map may refuse one of
/// them although each is valid.
pub open spec fn may_overflow(request: &HttpRequest) -> bool {
    request.error_spec().is_none() && request.headers@.len() > MAX_HEADERS
}

/// What keeps a request from being sent, if anything: its URL, then its
/// method, then its headers.
pub open spec fn fault_spec(request: &HttpRequest) -> Option<HttpClientError> {
    if request.error_spec().is_some() {
        request.error_spec()
    } else {
        header_error(request)
    }
}

/// `p` is `request` made ready: the parsed method, the URL and body as they
/// are, the header map where there are headers, and the pin to HTTP/2.
pub open spec fn prepared_from(request: &HttpRequest, p: PreparedRequest) -> bool {
    &&& parse_method_spec(request.method@) == Some(p.method@)
    &&& p.url@ == request.url@
    &&& p.headers.is_some() <==> request.headers@.len() > 0
    &&& p.headers matches Some(map) ==> header_map_entries(map) == built_entries(
        request.headers@,
    )
    &&& p.has_query == (request.query_params@.len() > 0)
    &&& p.body == request.body
    &&& p.version == ProtocolVersion::Http2
}

/// Makes a request ready for the transport: the URL and the method are
/// checked, the headers are converted if there are any, and the request is
/// pinned to HTTP/2.
pub fn prepare_request(request: &HttpRequest) -> (r: Result<PreparedRequest, HttpClientError>)
    ensures
        match r {
            Ok(p) => fault_spec(request).is_none() && prepared_from(request, p),
            Err(e) => fault_spec(request) == Some(e) || (e == HttpClientError::TooManyHeaders
                && may_overflow(request)),
        },
{
    let method = match request.validate() {
        Ok(m) => m,
        Err(e) => {
            return Err(e);
        },
    };
    let headers = if !request.headers.is_empty() {
        match HeaderUtils::build_header_map(&request.headers) {
            Ok(map) => Some(map),
            Err(e) => {
                return Err(e);
            },
        }
    } else {
        None
    };
    let body = match &request.body {
        Some(b) => Some(b.clone()),
        None => None,
    };
    Ok(
        PreparedRequest {
            method,
            url: request.url.clone(),
            headers,
            has_query: !request.query_params.is_empty(),
            body,
            version: ProtocolVersion::Http2,
        },
    )
}

/// Puts a response together from what the transport delivered. A header
/// value that does not read as text is left out, and the body is read as
/// text.
pub fn assemble_response(
    status_code: u16,
    version: ProtocolVersion,
    response_headers: &reqwest::header::HeaderMap,
    body: &[u8],
    url: &str,
    elapsed_ms: u128,
) -> (r: HttpResponse)
    ensures
        r.wf(),
        r.status_code == status_code,
        r.headers@ == extracted(header_map_entries(*response_headers)),
        names_lower_case(r.headers@),
        r.body@ == lossy_decode(body@),
        valid_utf8(body@) ==> r.body@ == decode_utf8(body@),
        r.version@ == version_text(version),
        r.url@ == url@,
        r.elapsed_ms == elapsed_ms,
{
    HttpResponse {
        status_code,
        headers: HeaderUtils::extract_response_headers(response_headers),
        body: lossy_text(body),
        version: version_to_string(version),
        url: url.to_owned(),
        elapsed_ms,
    }
}

} // verus!
