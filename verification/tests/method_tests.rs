use flutter_rust_http::error::HttpClientError;
use flutter_rust_http::method_utils::{HttpMethod, MethodUtils};

#[test]
fn common_methods_parse_in_upper_case() {
    assert_eq!(MethodUtils::parse_method("GET"), Ok(HttpMethod::Get));
    assert_eq!(MethodUtils::parse_method("POST"), Ok(HttpMethod::Post));
    assert_eq!(MethodUtils::parse_method("PUT"), Ok(HttpMethod::Put));
    assert_eq!(MethodUtils::parse_method("DELETE"), Ok(HttpMethod::Delete));
    assert_eq!(MethodUtils::parse_method("HEAD"), Ok(HttpMethod::Head));
    assert_eq!(MethodUtils::parse_method("PATCH"), Ok(HttpMethod::Patch));
    assert_eq!(MethodUtils::parse_method("OPTIONS"), Ok(HttpMethod::Options));
    assert_eq!(MethodUtils::parse_method("TRACE"), Ok(HttpMethod::Trace));
    assert_eq!(MethodUtils::parse_method("CONNECT"), Ok(HttpMethod::Connect));
}

#[test]
fn standard_methods_parse_in_any_letter_case() {
    assert_eq!(MethodUtils::parse_method("get"), Ok(HttpMethod::Get));
    assert_eq!(MethodUtils::parse_method("post"), Ok(HttpMethod::Post));
    assert_eq!(MethodUtils::parse_method("put"), Ok(HttpMethod::Put));
    assert_eq!(MethodUtils::parse_method("delete"), Ok(HttpMethod::Delete));
    assert_eq!(MethodUtils::parse_method("head"), Ok(HttpMethod::Head));
    assert_eq!(MethodUtils::parse_method("patch"), Ok(HttpMethod::Patch));
    assert_eq!(MethodUtils::parse_method("options"), Ok(HttpMethod::Options));
    assert_eq!(MethodUtils::parse_method("trace"), Ok(HttpMethod::Trace));
    assert_eq!(MethodUtils::parse_method("connect"), Ok(HttpMethod::Connect));
    assert_eq!(MethodUtils::parse_method("Get"), Ok(HttpMethod::Get));
    assert_eq!(MethodUtils::parse_method("gEt"), Ok(HttpMethod::Get));
    assert_eq!(MethodUtils::parse_method("Post"), Ok(HttpMethod::Post));
    assert_eq!(MethodUtils::parse_method("DeLeTe"), Ok(HttpMethod::Delete));
    assert_eq!(MethodUtils::parse_method("Trace"), Ok(HttpMethod::Trace));
    assert_eq!(MethodUtils::parse_method("Connect"), Ok(HttpMethod::Connect));
    assert_eq!(MethodUtils::parse_method("oPTIONs"), Ok(HttpMethod::Options));
}

#[test]
fn other_tokens_become_extension_methods() {
    assert_eq!(
        MethodUtils::parse_method("PROPFIND"),
        Ok(HttpMethod::Extension("PROPFIND".to_string()))
    );
    assert_eq!(
        MethodUtils::parse_method("propfind"),
        Ok(HttpMethod::Extension("propfind".to_string()))
    );
    assert_eq!(
        MethodUtils::parse_method("QUERY"),
        Ok(HttpMethod::Extension("QUERY".to_string()))
    );
    assert_eq!(MethodUtils::parse_method("GETS"), Ok(HttpMethod::Extension("GETS".to_string())));
    assert_eq!(MethodUtils::parse_method("GE"), Ok(HttpMethod::Extension("GE".to_string())));
    assert_eq!(
        MethodUtils::parse_method("M-SEARCH!#$%&'*+.^_`|~09"),
        Ok(HttpMethod::Extension("M-SEARCH!#$%&'*+.^_`|~09".to_string()))
    );
}

#[test]
fn a_long_token_is_a_method() {
    let long = "X".repeat(300);
    assert_eq!(MethodUtils::parse_method(&long), Ok(HttpMethod::Extension(long.clone())));
}

#[test]
fn what_is_no_token_is_no_method() {
    assert_eq!(MethodUtils::parse_method(""), Err(HttpClientError::InvalidMethod));
    assert_eq!(MethodUtils::parse_method("GET "), Err(HttpClientError::InvalidMethod));
    assert_eq!(MethodUtils::parse_method("bad method"), Err(HttpClientError::InvalidMethod));
    assert_eq!(MethodUtils::parse_method("GE\tT"), Err(HttpClientError::InvalidMethod));
    assert_eq!(MethodUtils::parse_method("G(T"), Err(HttpClientError::InvalidMethod));
    assert_eq!(MethodUtils::parse_method("GÉT"), Err(HttpClientError::InvalidMethod));
    assert_eq!(MethodUtils::parse_method("ge\u{74}\u{0301}"), Err(HttpClientError::InvalidMethod));
    assert_eq!(MethodUtils::parse_method("a\"b"), Err(HttpClientError::InvalidMethod));
}

#[test]
fn method_names_are_canonical() {
    assert_eq!(HttpMethod::Get.name(), "GET");
    assert_eq!(HttpMethod::Post.name(), "POST");
    assert_eq!(HttpMethod::Put.name(), "PUT");
    assert_eq!(HttpMethod::Delete.name(), "DELETE");
    assert_eq!(HttpMethod::Head.name(), "HEAD");
    assert_eq!(HttpMethod::Patch.name(), "PATCH");
    assert_eq!(HttpMethod::Options.name(), "OPTIONS");
    assert_eq!(HttpMethod::Trace.name(), "TRACE");
    assert_eq!(HttpMethod::Connect.name(), "CONNECT");
    assert_eq!(HttpMethod::Extension("purge".to_string()).name(), "purge");
    assert_eq!(MethodUtils::parse_method("get").unwrap().name(), "GET");
}

#[test]
fn methods_with_a_body() {
    let with: Vec<HttpMethod> = vec![HttpMethod::Post, HttpMethod::Put, HttpMethod::Patch];
    for m in &with {
        assert!(MethodUtils::method_has_body(m));
    }
    let without = vec![
        HttpMethod::Get,
        HttpMethod::Delete,
        HttpMethod::Head,
        HttpMethod::Options,
        HttpMethod::Trace,
        HttpMethod::Connect,
        HttpMethod::Extension("POSTX".to_string()),
    ];
    for m in &without {
        assert!(!MethodUtils::method_has_body(m));
    }
}

#[test]
fn safe_methods() {
    let safe = vec![HttpMethod::Get, HttpMethod::Head, HttpMethod::Options, HttpMethod::Trace];
    for m in &safe {
        assert!(MethodUtils::is_safe_method(m));
    }
    let not_safe = vec![
        HttpMethod::Post,
        HttpMethod::Put,
        HttpMethod::Delete,
        HttpMethod::Patch,
        HttpMethod::Connect,
        HttpMethod::Extension("QUERY".to_string()),
    ];
    for m in &not_safe {
        assert!(!MethodUtils::is_safe_method(m));
    }
}

#[test]
fn idempotent_methods() {
    let idem = vec![
        HttpMethod::Get,
        HttpMethod::Head,
        HttpMethod::Put,
        HttpMethod::Delete,
        HttpMethod::Options,
        HttpMethod::Trace,
    ];
    for m in &idem {
        assert!(MethodUtils::is_idempotent_method(m));
    }
    let not_idem = vec![
        HttpMethod::Post,
        HttpMethod::Patch,
        HttpMethod::Connect,
        HttpMethod::Extension("get".to_string()),
    ];
    for m in &not_idem {
        assert!(!MethodUtils::is_idempotent_method(m));
    }
}

#[test]
fn only_get_is_shared() {
    assert!(HttpMethod::Get.is_get());
    assert!(!HttpMethod::Head.is_get());
    assert!(!HttpMethod::Post.is_get());
    assert!(!HttpMethod::Extension("GET".to_string()).is_get());
}
