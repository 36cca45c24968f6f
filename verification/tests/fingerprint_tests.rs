use flutter_rust_http::fingerprint::{cache_key, fingerprint};
use flutter_rust_http::method_utils::HttpMethod;
use flutter_rust_http::models::{EnhancedRequest, HttpRequest};
use flutter_rust_http::string_map::StringMap;

fn params(pairs: &[(&str, &str)]) -> StringMap {
    let mut m = StringMap::new();
    for (k, v) in pairs {
        m.insert(k.to_string(), v.to_string());
    }
    m
}

#[test]
fn fingerprint_has_the_documented_shape() {
    let q = params(&[("b", "2"), ("a", "1")]);
    let f = fingerprint(&HttpMethod::Get, "https://example.com/items", &q);
    assert_eq!(f, "GET https://example.com/items?a=1&b=2&");
}

#[test]
fn fingerprint_without_parameters_ends_in_question_mark() {
    let f = fingerprint(&HttpMethod::Head, "http://h/", &StringMap::new());
    assert_eq!(f, "HEAD http://h/?");
}

#[test]
fn fingerprint_ignores_parameter_order() {
    let a = params(&[("page", "3"), ("q", "rust"), ("sort", "stars"), ("lang", "en")]);
    let b = params(&[("sort", "stars"), ("lang", "en"), ("q", "rust"), ("page", "3")]);
    let fa = fingerprint(&HttpMethod::Get, "https://api.example.com/search", &a);
    let fb = fingerprint(&HttpMethod::Get, "https://api.example.com/search", &b);
    assert_eq!(fa, fb);
    assert_eq!(fa, "GET https://api.example.com/search?lang=en&page=3&q=rust&sort=stars&");
}

#[test]
fn fingerprint_sorts_by_code_point() {
    let q = params(&[("b", "x"), ("B", "y"), ("ab", "z"), ("a", "w"), ("é", "v")]);
    let f = fingerprint(&HttpMethod::Get, "https://e.org", &q);
    assert_eq!(f, "GET https://e.org?B=y&a=w&ab=z&b=x&é=v&");
}

#[test]
fn fingerprint_tells_methods_urls_and_values_apart() {
    let q = params(&[("a", "1")]);
    let base = fingerprint(&HttpMethod::Get, "https://e.org/x", &q);
    assert_ne!(base, fingerprint(&HttpMethod::Head, "https://e.org/x", &q));
    assert_ne!(base, fingerprint(&HttpMethod::Get, "https://e.org/y", &q));
    assert_ne!(base, fingerprint(&HttpMethod::Get, "https://e.org/x", &params(&[("a", "2")])));
}

#[test]
fn fingerprint_of_extension_method_uses_its_text() {
    let m = HttpMethod::Extension("PURGE".to_string());
    assert_eq!(fingerprint(&m, "https://e.org", &StringMap::new()), "PURGE https://e.org?");
}

#[test]
fn explicit_cache_key_is_used_verbatim() {
    let mut req = EnhancedRequest::new(HttpRequest::new(
        "https://example.com/a".to_string(),
        "GET".to_string(),
    ));
    req.request.query_params.insert("z".to_string(), "1".to_string());
    assert_eq!(cache_key(&req, &HttpMethod::Get), "GET https://example.com/a?z=1&");
    req.cache_key = Some("  My Key?b=2&a=1 ".to_string());
    assert_eq!(cache_key(&req, &HttpMethod::Get), "  My Key?b=2&a=1 ");
}

#[test]
fn fingerprint_escapes_what_ends_a_field() {
    let q = params(&[("a=b", "1&2"), ("c\\", "=?")]);
    let f = fingerprint(&HttpMethod::Get, "https://e.org/p?x=1 y", &q);
    assert_eq!(f, "GET https://e.org/p\\?x=1 y?a\\=b=1\\&2&c\\\\==?&");
    let m = HttpMethod::Extension("A B\\".to_string());
    assert_eq!(fingerprint(&m, "u", &StringMap::new()), "A\\ B\\\\ u?");
}

#[test]
fn fingerprint_keeps_different_parameters_apart() {
    let one = params(&[("a", "1&b=2")]);
    let two = params(&[("a", "1"), ("b", "2")]);
    let url = "https://e.org";
    assert_ne!(
        fingerprint(&HttpMethod::Get, url, &one),
        fingerprint(&HttpMethod::Get, url, &two)
    );
    let in_url = fingerprint(&HttpMethod::Get, "https://e.org?a=1&", &StringMap::new());
    let in_params = fingerprint(&HttpMethod::Get, url, &params(&[("a", "1")]));
    assert_ne!(in_url, in_params);
    let empty_value = params(&[("a", "")]);
    let empty_key = params(&[("", "a")]);
    assert_ne!(
        fingerprint(&HttpMethod::Get, url, &empty_value),
        fingerprint(&HttpMethod::Get, url, &empty_key)
    );
    assert_eq!(fingerprint(&HttpMethod::Get, url, &empty_value), "GET https://e.org?a=&");
    assert_eq!(fingerprint(&HttpMethod::Get, url, &empty_key), "GET https://e.org?=a&");
}
