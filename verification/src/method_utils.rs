//! Request methods.

use vstd::prelude::*;
use crate::error::HttpClientError;
use crate::text::{chars_of, str_eq, string_of, to_upper, upper_text};

verus! {

/// The characters an HTTP token is made of: letters, digits and
/// ``! # $ % & ' * + - . ^ _ ` | ~``.
pub open spec fn is_tchar(c: char) -> bool {
    ('a' <= c && c <= 'z') || ('A' <= c && c <= 'Z') || ('0' <= c && c <= '9') || c == '!' || c
        == '#' || c == '$' || c == '%' || c == '&' || c == '\'' || c == '*' || c == '+' || c == '-'
        || c == '.' || c == '^' || c == '_' || c == '`' || c == '|' || c == '~'
}

/// A method is a non-empty run of token characters.
pub open spec fn is_method_token(s: Seq<char>) -> bool {
    s.len() > 0 && forall|i: int| 0 <= i < s.len() ==> is_tchar(#[trigger] s[i])
}

/// A request method: one of the nine common ones, or an extension token.
#[derive(Debug, PartialEq, Eq)]
pub enum HttpMethod {
    Get,
    Post,
    Put,
    Delete,
    Head,
    Patch,
    Options,
    Trace,
    Connect,
    Extension(String),
}

pub enum MethodView {
    Get,
    Post,
    Put,
    Delete,
    Head,
    Patch,
    Options,
    Trace,
    Connect,
    Extension(Seq<char>),
}

impl View for HttpMethod {
    type V = MethodView;

    open spec fn view(&self) -> MethodView {
        match self {
            HttpMethod::Get => MethodView::Get,
            HttpMethod::Post => MethodView::Post,
            HttpMethod::Put => MethodView::Put,
            HttpMethod::Delete => MethodView::Delete,
            HttpMethod::Head => MethodView::Head,
            HttpMethod::Patch => MethodView::Patch,
            HttpMethod::Options => MethodView::Options,
            HttpMethod::Trace => MethodView::Trace,
            HttpMethod::Connect => MethodView::Connect,
            HttpMethod::Extension(s) => MethodView::Extension(s@),
        }
    }
}

/// The method as it is written on the wire.
pub open spec fn method_name(m: MethodView) -> Seq<char> {
    match m {
        MethodView::Get => "GET"@,
        MethodView::Post => "POST"@,
        MethodView::Put => "PUT"@,
        MethodView::Delete => "DELETE"@,
        MethodView::Head => "HEAD"@,
        MethodView::Patch => "PATCH"@,
        MethodView::Options => "OPTIONS"@,
        MethodView::Trace => "TRACE"@,
        MethodView::Connect => "CONNECT"@,
        MethodView::Extension(s) => s,
    }
}

/// The standard method that `upper` spells in upper case.
pub open spec fn standard_method(upper: Seq<char>) -> Option<MethodView> {
    if upper == "GET"@ {
        Some(MethodView::Get)
    } else if upper == "POST"@ {
        Some(MethodView::Post)
    } else if upper == "PUT"@ {
        Some(MethodView::Put)
    } else if upper == "DELETE"@ {
        Some(MethodView::Delete)
    } else if upper == "HEAD"@ {
        Some(MethodView::Head)
    } else if upper == "PATCH"@ {
        Some(MethodView::Patch)
    } else if upper == "OPTIONS"@ {
        Some(MethodView::Options)
    } else if upper == "TRACE"@ {
        Some(MethodView::Trace)
    } else if upper == "CONNECT"@ {
        Some(MethodView::Connect)
    } else {
        None
    }
}

/// What a method string denotes. The case of its letters does not matter
/// where it spells a standard method: `get`, `Get` and `GET` are all GET.
/// Any other token is an extension method under the spelling it has, and
/// what is no token is no method.
pub open spec fn parse_method_spec(s: Seq<char>) -> Option<MethodView> {
    if standard_method(upper_text(s)).is_some() {
        standard_method(upper_text(s))
    } else if is_method_token(s) {
        Some(MethodView::Extension(s))
    } else {
        None
    }
}

pub open spec fn has_body_spec(m: MethodView) -> bool {
    m is Post || m is Put || m is Patch
}

pub open spec fn is_safe_spec(m: MethodView) -> bool {
    m is Get || m is Head || m is Options || m is Trace
}

pub open spec fn is_idempotent_spec(m: MethodView) -> bool {
    is_safe_spec(m) || m is Put || m is Delete
}

/// Only retrieval by GET is eligible for caching and for sharing one
/// in-flight execution among identical requests.
pub open spec fn is_get_class(m: MethodView) -> bool {
    m is Get
}

/// Validates a method token with `reqwest::Method::from_bytes` and hands back
/// the text of the method it produced.
///
/// Assumed of that function: it accepts exactly the non-empty strings made of
/// token characters, and the accepted method reads back as the input.
#[verifier::external_body]
fn method_from_token(s: &str) -> (r: Option<String>)
    ensures
        r.is_some() <==> is_method_token(s@),
        r matches Some(t) ==> t@ == s@,
{
    match reqwest::Method::from_bytes(s.as_bytes()) {
        Ok(m) => Some(m.as_str().to_owned()),
        Err(_) => None,
    }
}

impl HttpMethod {
    pub fn name(&self) -> (s: String)
        ensures
            s@ == method_name(self@),
    {
        match self {
            HttpMethod::Get => "GET".to_owned(),
            HttpMethod::Post => "POST".to_owned(),
            HttpMethod::Put => "PUT".to_owned(),
            HttpMethod::Delete => "DELETE".to_owned(),
            HttpMethod::Head => "HEAD".to_owned(),
            HttpMethod::Patch => "PATCH".to_owned(),
            HttpMethod::Options => "OPTIONS".to_owned(),
            HttpMethod::Trace => "TRACE".to_owned(),
            HttpMethod::Connect => "CONNECT".to_owned(),
            HttpMethod::Extension(s) => s.clone(),
        }
    }

    pub fn is_get(&self) -> (b: bool)
        ensures
            b == is_get_class(self@),
    {
        match self {
            HttpMethod::Get => true,
            _ => false,
        }
    }
}

pub struct MethodUtils;

impl MethodUtils {
    /// The standard method that `upper` spells.
    fn match_standard(upper: &str) -> (r: Option<HttpMethod>)
        ensures
            match r {
                Some(m) => standard_method(upper@) == Some(m@),
                None => standard_method(upper@).is_none(),
            },
    {
        if str_eq(upper, "GET") {
            Some(HttpMethod::Get)
        } else if str_eq(upper, "POST") {
            Some(HttpMethod::Post)
        } else if str_eq(upper, "PUT") {
            Some(HttpMethod::Put)
        } else if str_eq(upper, "DELETE") {
            Some(HttpMethod::Delete)
        } else if str_eq(upper, "HEAD") {
            Some(HttpMethod::Head)
        } else if str_eq(upper, "PATCH") {
            Some(HttpMethod::Patch)
        } else if str_eq(upper, "OPTIONS") {
            Some(HttpMethod::Options)
        } else if str_eq(upper, "TRACE") {
            Some(HttpMethod::Trace)
        } else if str_eq(upper, "CONNECT") {
            Some(HttpMethod::Connect)
        } else {
            None
        }
    }

    /// Converts a method string to a method. A standard method is recognised
    /// in any letter case; anything else must be a valid token and becomes
    /// an extension method under its own spelling.
    pub fn parse_method(method_str: &str) -> (r: Result<HttpMethod, HttpClientError>)
        ensures
            match r {
                Ok(m) => parse_method_spec(method_str@) == Some(m@),
                Err(e) => e == HttpClientError::InvalidMethod && parse_method_spec(
                    method_str@,
                ).is_none(),
            },
    {
        let upper = string_of(&to_upper(&chars_of(method_str)));
        match Self::match_standard(upper.as_str()) {
            Some(m) => Ok(m),
            None => match method_from_token(method_str) {
                Some(text) => Ok(HttpMethod::Extension(text)),
                None => Err(HttpClientError::InvalidMethod),
            },
        }
    }

    /// Whether a method typically carries a request body.
    pub fn method_has_body(method: &HttpMethod) -> (b: bool)
        ensures
            b == has_body_spec(method@),
    {
        match method {
            HttpMethod::Post => true,
            HttpMethod::Put => true,
            HttpMethod::Patch => true,
            _ => false,
        }
    }

    /// Whether a method is read-only.
    pub fn is_safe_method(method: &HttpMethod) -> (b: bool)
        ensures
            b == is_safe_spec(method@),
    {
        match method {
            HttpMethod::Get => true,
            HttpMethod::Head => true,
            HttpMethod::Options => true,
            HttpMethod::Trace => true,
            _ => false,
        }
    }

    /// Whether repeating a request with this method has the effect of making it once.
    pub fn is_idempotent_method(method: &HttpMethod) -> (b: bool)
        ensures
            b == is_idempotent_spec(method@),
    {
        match method {
            HttpMethod::Get => true,
            HttpMethod::Head => true,
            HttpMethod::Put => true,
            HttpMethod::Delete => true,
            HttpMethod::Options => true,
            HttpMethod::Trace => true,
            _ => false,
        }
    }
}

} // verus!
