use flutter_rust_http::error::HttpClientError;
use flutter_rust_http::header_utils::{
    HeaderUtils, MAX_HEADERS, MAX_HEADER_NAME_LEN, MAX_MAP_CAPACITY,
};
use flutter_rust_http::string_map::StringMap;
use reqwest::header::{HeaderMap, HeaderName, HeaderValue};

fn map_of(pairs: &[(&str, &str)]) -> StringMap {
    let mut m = StringMap::new();
    for (k, v) in pairs {
        m.insert(k.to_string(), v.to_string());
    }
    m
}

#[test]
fn common_header_names_come_from_the_table() {
    let names = [
        "content-type",
        "authorization",
        "user-agent",
        "accept",
        "accept-encoding",
        "cache-control",
        "content-length",
        "host",
        "referer",
        "cookie",
        "set-cookie",
        "location",
        "etag",
        "last-modified",
        "if-none-match",
        "if-modified-since",
        "x-api-key",
        "x-auth-token",
        "x-request-id",
        "x-correlation-id",
        "x-device-id",
        "x-app-version",
        "x-platform",
    ];
    for name in names.iter() {
        let got = HeaderUtils::get_optimized_header_name(name).unwrap();
        assert_eq!(got.as_str(), *name);
        let upper = name.to_uppercase();
        let got = HeaderUtils::get_optimized_header_name(&upper).unwrap();
        assert_eq!(got.as_str(), *name);
    }
    assert_eq!(
        HeaderUtils::get_optimized_header_name("Content-Type").unwrap(),
        reqwest::header::CONTENT_TYPE
    );
    assert_eq!(
        HeaderUtils::get_optimized_header_name("X-Api-Key").unwrap(),
        HeaderName::from_static("x-api-key")
    );
}

#[test]
fn other_header_names_are_parsed_and_lowered() {
    assert_eq!(HeaderUtils::get_optimized_header_name("X-Custom-Thing").unwrap().as_str(), "x-custom-thing");
    assert_eq!(HeaderUtils::get_optimized_header_name("Accept-Language").unwrap().as_str(), "accept-language");
    assert_eq!(HeaderUtils::get_optimized_header_name("a").unwrap().as_str(), "a");
    assert_eq!(HeaderUtils::get_optimized_header_name("!#$%&'*+-.^_`|~").unwrap().as_str(), "!#$%&'*+-.^_`|~");
}

#[test]
fn invalid_header_names_are_rejected() {
    for bad in ["", "bad name", "na:me", "x\"y", "héader", "a\nb", "a(b)", "tab\there"] {
        assert_eq!(
            HeaderUtils::get_optimized_header_name(bad).err(),
            Some(HttpClientError::InvalidHeaderName)
        );
    }
}

#[test]
fn header_name_length_is_bounded() {
    assert_eq!(MAX_HEADER_NAME_LEN, 65535);
    let longest = "a".repeat(65535);
    assert_eq!(HeaderUtils::get_optimized_header_name(&longest).unwrap().as_str(), longest);
    let sixty_four = "B".repeat(64);
    assert_eq!(
        HeaderUtils::get_optimized_header_name(&sixty_four).unwrap().as_str(),
        "b".repeat(64)
    );
    let sixty_five = "B".repeat(65);
    assert_eq!(
        HeaderUtils::get_optimized_header_name(&sixty_five).unwrap().as_str(),
        "b".repeat(65)
    );
    let too_long = "a".repeat(65536);
    assert_eq!(
        HeaderUtils::get_optimized_header_name(&too_long).err(),
        Some(HttpClientError::InvalidHeaderName)
    );
}

#[test]
fn header_map_holds_the_request_headers() {
    let headers = map_of(&[
        ("Content-Type", "application/json"),
        ("X-Trace", "abc 123"),
        ("accept", "*/*"),
    ]);
    let map = HeaderUtils::build_header_map(&headers).unwrap();
    assert_eq!(map.len(), 3);
    assert_eq!(map.get("content-type").unwrap(), "application/json");
    assert_eq!(map.get("x-trace").unwrap(), "abc 123");
    assert_eq!(map.get("accept").unwrap(), "*/*");
    let order: Vec<String> = map.keys().map(|k| k.as_str().to_string()).collect();
    assert_eq!(order, vec!["content-type", "x-trace", "accept"]);
}

#[test]
fn header_names_are_case_insensitive_and_last_write_wins() {
    let headers = map_of(&[("Accept", "text/html"), ("X-A", "1"), ("ACCEPT", "application/json")]);
    assert_eq!(headers.len(), 3);
    let map = HeaderUtils::build_header_map(&headers).unwrap();
    assert_eq!(map.len(), 2);
    assert_eq!(map.get("accept").unwrap(), "application/json");
    assert_eq!(map.get_all("accept").iter().count(), 1);
    let order: Vec<String> = map.keys().map(|k| k.as_str().to_string()).collect();
    assert_eq!(order, vec!["accept", "x-a"]);
}

#[test]
fn header_values_may_hold_tabs_and_non_ascii_text() {
    let headers = map_of(&[("x-note", "a\tb"), ("x-name", "Zoë"), ("x-empty", "")]);
    let map = HeaderUtils::build_header_map(&headers).unwrap();
    assert_eq!(map.get("x-note").unwrap().as_bytes(), b"a\tb");
    assert_eq!(map.get("x-name").unwrap().as_bytes(), "Zoë".as_bytes());
    assert_eq!(map.get("x-empty").unwrap().as_bytes(), b"");
}

#[test]
fn first_bad_header_fails_the_conversion() {
    let bad_value = map_of(&[("ok", "fine"), ("x-a", "line\nbreak"), ("bad name", "v")]);
    assert_eq!(
        HeaderUtils::build_header_map(&bad_value).err(),
        Some(HttpClientError::InvalidHeaderValue)
    );
    let bad_name = map_of(&[("ok", "fine"), ("bad name", "v"), ("x-a", "line\nbreak")]);
    assert_eq!(
        HeaderUtils::build_header_map(&bad_name).err(),
        Some(HttpClientError::InvalidHeaderName)
    );
    let both = map_of(&[("bad name", "line\rbreak")]);
    assert_eq!(
        HeaderUtils::build_header_map(&both).err(),
        Some(HttpClientError::InvalidHeaderName)
    );
    let del = map_of(&[("x-a", "a\u{7f}b")]);
    assert_eq!(
        HeaderUtils::build_header_map(&del).err(),
        Some(HttpClientError::InvalidHeaderValue)
    );
    let nul = map_of(&[("x-a", "a\0b")]);
    assert_eq!(
        HeaderUtils::build_header_map(&nul).err(),
        Some(HttpClientError::InvalidHeaderValue)
    );
}

#[test]
fn empty_headers_give_an_empty_map() {
    let map = HeaderUtils::build_header_map(&StringMap::new()).unwrap();
    assert!(map.is_empty());
    let map = HeaderUtils::build_header_map_from_strings(&Vec::new()).unwrap();
    assert!(map.is_empty());
}

#[test]
fn header_map_from_string_pairs() {
    let pairs = vec![
        ("Authorization".to_string(), "Bearer t".to_string()),
        ("X-Device-Id".to_string(), "d1".to_string()),
        ("authorization".to_string(), "Bearer u".to_string()),
    ];
    let map = HeaderUtils::build_header_map_from_strings(&pairs).unwrap();
    assert_eq!(map.len(), 2);
    assert_eq!(map.get("authorization").unwrap(), "Bearer u");
    assert_eq!(map.get("x-device-id").unwrap(), "d1");
    let bad = vec![("x".to_string(), "\u{1}".to_string())];
    assert_eq!(
        HeaderUtils::build_header_map_from_strings(&bad).err(),
        Some(HttpClientError::InvalidHeaderValue)
    );
}

fn numbered_headers(count: usize) -> Vec<(String, String)> {
    let mut pairs = Vec::with_capacity(count);
    for i in 0..count {
        pairs.push((format!("x-h-{}", i), "v".to_string()));
    }
    pairs
}

#[test]
fn up_to_the_limit_every_header_is_taken() {
    assert_eq!(MAX_HEADERS, 6553);
    let map = HeaderUtils::build_header_map_from_strings(&numbered_headers(6553)).unwrap();
    assert_eq!(map.len(), 6553);
    assert_eq!(map.get("x-h-0").unwrap(), "v");
    assert_eq!(map.get("x-h-4096").unwrap(), "v");
    assert_eq!(map.get("x-h-6552").unwrap(), "v");
}

#[test]
fn beyond_the_limit_only_the_map_refuses() {
    let map = HeaderUtils::build_header_map_from_strings(&numbered_headers(7000)).unwrap();
    assert_eq!(map.len(), 7000);
    assert_eq!(map.get("x-h-6999").unwrap(), "v");
    match HeaderUtils::build_header_map_from_strings(&numbered_headers(24576)) {
        Ok(map) => assert_eq!(map.len(), 24576),
        Err(e) => assert_eq!(e, HttpClientError::TooManyHeaders),
    }
    let mut invalid_and_many = numbered_headers(6600);
    invalid_and_many.push(("bad name".to_string(), "v".to_string()));
    assert_eq!(
        HeaderUtils::build_header_map_from_strings(&invalid_and_many).err(),
        Some(HttpClientError::InvalidHeaderName)
    );
}

#[test]
fn more_headers_than_a_map_can_be_made_for_are_refused() {
    assert_eq!(MAX_MAP_CAPACITY, 24576);
    assert_eq!(
        HeaderUtils::build_header_map_from_strings(&numbered_headers(24577)).err(),
        Some(HttpClientError::TooManyHeaders)
    );
    let mut invalid_and_many = Vec::new();
    for _ in 0..24577 {
        invalid_and_many.push(("bad name".to_string(), "v".to_string()));
    }
    assert_eq!(
        HeaderUtils::build_header_map_from_strings(&invalid_and_many).err(),
        Some(HttpClientError::TooManyHeaders)
    );
}

#[test]
fn response_headers_are_extracted() {
    let mut map = HeaderMap::new();
    map.insert("content-type", HeaderValue::from_static("text/html"));
    map.insert("x-tab", HeaderValue::from_static("a\tb"));
    let got = HeaderUtils::extract_response_headers(&map);
    assert_eq!(got.len(), 2);
    assert_eq!(got.get(&"content-type".to_string()), Some(&"text/html".to_string()));
    assert_eq!(got.get(&"x-tab".to_string()), Some(&"a\tb".to_string()));
    assert_eq!(got.key_at(0), "content-type");
    assert_eq!(got.key_at(1), "x-tab");
}

#[test]
fn response_header_that_is_not_text_is_skipped() {
    let mut map = HeaderMap::new();
    map.insert("x-good", HeaderValue::from_static("yes"));
    map.insert("x-binary", HeaderValue::from_bytes(b"\xff\xfe").unwrap());
    map.insert("x-latin", HeaderValue::from_bytes("é".as_bytes()).unwrap());
    let got = HeaderUtils::extract_response_headers(&map);
    assert_eq!(got.len(), 1);
    assert_eq!(got.get(&"x-good".to_string()), Some(&"yes".to_string()));
    assert_eq!(got.get(&"x-binary".to_string()), None);
    assert_eq!(got.get(&"x-latin".to_string()), None);
}

#[test]
fn of_repeated_response_headers_the_last_stays() {
    let mut map = HeaderMap::new();
    map.append("set-cookie", HeaderValue::from_static("a=1"));
    map.append("x-other", HeaderValue::from_static("o"));
    map.append("set-cookie", HeaderValue::from_static("b=2"));
    map.append("set-cookie", HeaderValue::from_bytes(b"\x80").unwrap());
    let got = HeaderUtils::extract_response_headers(&map);
    assert_eq!(got.len(), 2);
    assert_eq!(got.get(&"set-cookie".to_string()), Some(&"b=2".to_string()));
    assert_eq!(got.get(&"x-other".to_string()), Some(&"o".to_string()));
    assert_eq!(got.key_at(0), "set-cookie");
}

#[test]
fn empty_response_headers() {
    let got = HeaderUtils::extract_response_headers(&HeaderMap::new());
    assert!(got.is_empty());
}
