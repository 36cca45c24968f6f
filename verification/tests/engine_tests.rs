use flutter_rust_http::engine::{Engine, Plan};
use flutter_rust_http::error::{HttpClientError, TransportFailure};
use flutter_rust_http::method_utils::HttpMethod;
use flutter_rust_http::models::{EnhancedRequest, HttpRequest, HttpResponse};
use flutter_rust_http::string_map::StringMap;
use flutter_rust_http::worker::BatchCollector;

fn request(method: &str, url: &str) -> EnhancedRequest {
    EnhancedRequest::new(HttpRequest::new(url.to_string(), method.to_string()))
}

fn response(status: u16, url: &str, body: &str) -> HttpResponse {
    HttpResponse {
        status_code: status,
        headers: StringMap::new(),
        body: body.to_string(),
        version: "HTTP/2".to_string(),
        url: url.to_string(),
        elapsed_ms: 7,
    }
}

fn execute_key(p: Plan) -> Option<String> {
    match p {
        Plan::Execute { key, .. } => key,
        _ => panic!("the request was not admitted for execution"),
    }
}

#[test]
fn concurrent_identical_gets_execute_once() {
    let mut engine = Engine::new(8, 16);
    let req = request("GET", "https://example.com/data");
    let first = engine.plan(&req, 1);
    let key = match first {
        Plan::Execute { key: Some(k), prepared } => {
            assert_eq!(prepared.method, HttpMethod::Get);
            assert_eq!(prepared.url, "https://example.com/data");
            assert!(prepared.headers.is_none());
            k
        }
        _ => panic!("the first caller must execute"),
    };
    assert_eq!(key, "GET https://example.com/data?");
    for caller in 2..=5u64 {
        match engine.plan(&req, caller) {
            Plan::Wait(k) => assert_eq!(k, key),
            _ => panic!("a later caller must wait"),
        }
    }
    assert_eq!(engine.stats().in_flight, 1);
    let done = engine.complete(Some(key), Ok(response(200, "https://example.com/data", "payload")));
    assert_eq!(done.waiters, vec![2, 3, 4, 5]);
    let deliveries = done.deliveries();
    assert_eq!(deliveries.len(), 4);
    let own = done.result.unwrap();
    assert_eq!(own.body, "payload");
    for (i, (caller, result)) in deliveries.into_iter().enumerate() {
        assert_eq!(caller, 2 + i as u64);
        let received = result.unwrap();
        assert!(std::sync::Arc::ptr_eq(&received, &own));
        assert_eq!(received.body, "payload");
        assert_eq!(received.status_code, 200);
    }
    assert_eq!(engine.stats().in_flight, 0);
}

#[test]
fn waiters_are_told_of_a_failure() {
    let mut engine = Engine::new(8, 16);
    let req = request("GET", "https://example.com/down");
    let key = execute_key(engine.plan(&req, 7));
    assert!(matches!(engine.plan(&req, 8), Plan::Wait(_)));
    assert!(matches!(engine.plan(&req, 9), Plan::Wait(_)));
    let done = engine.complete(key, Err(TransportFailure::Connect));
    let deliveries = done.deliveries();
    assert_eq!(deliveries.len(), 2);
    assert_eq!(deliveries[0].0, 8);
    assert_eq!(deliveries[1].0, 9);
    for (_, result) in deliveries {
        assert_eq!(result.err(), Some(HttpClientError::Transport(TransportFailure::Connect)));
    }
}

#[test]
fn identical_gets_with_shuffled_parameters_share_one_execution() {
    let mut engine = Engine::new(8, 16);
    let mut a = request("GET", "https://example.com/s");
    a.request.query_params.insert("x".to_string(), "1".to_string());
    a.request.query_params.insert("y".to_string(), "2".to_string());
    let mut b = request("get", "https://example.com/s");
    b.request.query_params.insert("y".to_string(), "2".to_string());
    b.request.query_params.insert("x".to_string(), "1".to_string());
    let key = execute_key(engine.plan(&a, 1)).unwrap();
    assert!(matches!(engine.plan(&b, 2), Plan::Wait(_)));
    let done = engine.complete(Some(key), Err(TransportFailure::Connect));
    assert_eq!(done.waiters, vec![2]);
}

#[test]
fn successful_get_is_served_from_cache() {
    let mut engine = Engine::new(8, 16);
    let req = request("GET", "https://example.com/cached");
    let key = execute_key(engine.plan(&req, 1));
    engine.complete(key, Ok(response(200, "https://example.com/cached", "fresh")));
    assert_eq!(engine.stats().in_flight, 0);
    match engine.plan(&req, 2) {
        Plan::CacheHit(r) => {
            assert_eq!(r.status_code, 200);
            assert_eq!(r.body, "fresh");
            assert_eq!(r.url, "https://example.com/cached");
            assert_eq!(r.version, "HTTP/2");
            assert_eq!(r.elapsed_ms, 7);
        }
        _ => panic!("the second request must be a cache hit"),
    }
    assert_eq!(engine.stats().in_flight, 0);
}

#[test]
fn invalidated_key_is_executed_again() {
    let mut engine = Engine::new(8, 16);
    let req = request("GET", "https://example.com/stale");
    let key = execute_key(engine.plan(&req, 1)).unwrap();
    engine.complete(Some(key.clone()), Ok(response(200, "https://example.com/stale", "v1")));
    assert!(matches!(engine.plan(&req, 2), Plan::CacheHit(_)));
    assert!(engine.invalidate(&key));
    assert!(!engine.invalidate(&key));
    assert!(matches!(engine.plan(&req, 3), Plan::Execute { .. }));
}

#[test]
fn cache_hit_needs_no_slot() {
    let mut engine = Engine::new(8, 1);
    let cached = request("GET", "https://example.com/one");
    let key = execute_key(engine.plan(&cached, 1));
    engine.complete(key, Ok(response(200, "https://example.com/one", "1")));
    let other = request("GET", "https://example.com/two");
    assert!(matches!(engine.plan(&other, 2), Plan::Execute { .. }));
    assert_eq!(engine.stats().in_flight, 1);
    assert!(matches!(engine.plan(&cached, 3), Plan::CacheHit(_)));
    assert_eq!(engine.stats().in_flight, 1);
}

#[test]
fn non_200_response_is_not_cached() {
    let mut engine = Engine::new(8, 16);
    for status in [404u16, 500, 201, 204, 301, 199] {
        let req = request("GET", "https://example.com/missing");
        let key = execute_key(engine.plan(&req, 1));
        let done = engine.complete(key, Ok(response(status, "https://example.com/missing", "")));
        assert_eq!(done.result.unwrap().status_code, status);
        assert!(matches!(engine.plan(&req, 2), Plan::Execute { .. }));
        engine.complete(Some("GET https://example.com/missing?".to_string()), Err(TransportFailure::Other));
    }
}

#[test]
fn non_get_request_is_not_cached() {
    let mut engine = Engine::new(8, 16);
    for method in ["POST", "PUT", "DELETE", "HEAD", "PATCH", "OPTIONS", "PURGE"] {
        let req = request(method, "https://example.com/thing");
        let key = execute_key(engine.plan(&req, 1));
        assert_eq!(key, None);
        engine.complete(key, Ok(response(200, "https://example.com/thing", "ok")));
        assert!(matches!(engine.plan(&req, 2), Plan::Execute { key: None, .. }));
        engine.complete(None, Ok(response(200, "https://example.com/thing", "ok")));
    }
    let get = request("GET", "https://example.com/thing");
    assert!(matches!(engine.plan(&get, 3), Plan::Execute { key: Some(_), .. }));
}

#[test]
fn non_get_requests_do_not_wait_for_each_other() {
    let mut engine = Engine::new(8, 16);
    let req = request("POST", "https://example.com/submit");
    assert!(matches!(engine.plan(&req, 1), Plan::Execute { key: None, .. }));
    assert!(matches!(engine.plan(&req, 2), Plan::Execute { key: None, .. }));
    assert_eq!(engine.stats().in_flight, 2);
}

#[test]
fn failed_execution_is_not_cached_and_frees_its_key() {
    let mut engine = Engine::new(8, 16);
    let req = request("GET", "https://example.com/flaky");
    let key = execute_key(engine.plan(&req, 1));
    assert!(matches!(engine.plan(&req, 2), Plan::Wait(_)));
    let done = engine.complete(key, Err(TransportFailure::Timeout));
    assert_eq!(done.waiters, vec![2]);
    assert_eq!(
        done.result.err(),
        Some(HttpClientError::Transport(TransportFailure::Timeout))
    );
    assert_eq!(engine.stats().in_flight, 0);
    assert!(matches!(engine.plan(&req, 3), Plan::Execute { key: Some(_), .. }));
}

#[test]
fn slots_never_exceed_the_maximum() {
    let mut engine = Engine::new(8, 3);
    let mut admitted = 0;
    let mut refused = 0;
    for i in 0..10u64 {
        let req = request("GET", &format!("https://example.com/{}", i));
        match engine.plan(&req, i) {
            Plan::Execute { .. } => admitted += 1,
            Plan::Rejected(e) => {
                assert_eq!(e, HttpClientError::RateLimited);
                assert!(e.is_retriable());
                refused += 1;
            }
            _ => panic!("unexpected plan"),
        }
        assert!(engine.stats().in_flight <= engine.stats().max);
    }
    assert_eq!(admitted, 3);
    assert_eq!(refused, 7);
    assert_eq!(engine.stats().in_flight, 3);
    assert_eq!(engine.stats().max, 3);
}

#[test]
fn slot_count_returns_after_success_failure_and_timeout() {
    let mut engine = Engine::new(8, 4);
    let held = request("POST", "https://example.com/held");
    assert!(matches!(engine.plan(&held, 0), Plan::Execute { .. }));
    let before = engine.stats().in_flight;
    assert_eq!(before, 1);
    let outcomes: Vec<Result<HttpResponse, TransportFailure>> = vec![
        Ok(response(200, "https://example.com/a", "")),
        Ok(response(503, "https://example.com/a", "")),
        Err(TransportFailure::Connect),
        Err(TransportFailure::Timeout),
        Err(TransportFailure::Other),
    ];
    for (i, outcome) in outcomes.into_iter().enumerate() {
        let req = request("GET", &format!("https://example.com/a{}", i));
        let key = execute_key(engine.plan(&req, 1));
        assert_eq!(engine.stats().in_flight, before + 1);
        engine.complete(key, outcome);
        assert_eq!(engine.stats().in_flight, before);
    }
}

#[test]
fn rate_limited_request_leaves_no_trace() {
    let mut engine = Engine::new(8, 1);
    let a = request("GET", "https://example.com/a");
    let b = request("GET", "https://example.com/b");
    let key = execute_key(engine.plan(&a, 1));
    assert!(matches!(
        engine.plan(&b, 2),
        Plan::Rejected(HttpClientError::RateLimited)
    ));
    assert_eq!(engine.stats().in_flight, 1);
    engine.complete(key, Ok(response(200, "https://example.com/a", "")));
    assert!(matches!(engine.plan(&b, 3), Plan::Execute { key: Some(_), .. }));
}

#[test]
fn invalid_request_is_rejected_before_anything_else() {
    let mut engine = Engine::new(8, 16);
    assert!(matches!(
        engine.plan(&request("GET", ""), 1),
        Plan::Rejected(HttpClientError::EmptyUrl)
    ));
    assert!(matches!(
        engine.plan(&request("GET", "ftp://example.com"), 1),
        Plan::Rejected(HttpClientError::MissingScheme)
    ));
    assert!(matches!(
        engine.plan(&request("NOT A METHOD", "https://example.com"), 1),
        Plan::Rejected(HttpClientError::InvalidMethod)
    ));
    assert!(matches!(
        engine.plan(&request("", ""), 1),
        Plan::Rejected(HttpClientError::EmptyUrl)
    ));
    assert_eq!(engine.stats().in_flight, 0);
}

#[test]
fn request_with_a_bad_header_takes_no_slot() {
    let mut engine = Engine::new(8, 16);
    let mut bad_name = request("GET", "https://example.com/h");
    bad_name.request.headers.insert("bad name".to_string(), "v".to_string());
    assert!(matches!(
        engine.plan(&bad_name, 1),
        Plan::Rejected(HttpClientError::InvalidHeaderName)
    ));
    let mut bad_value = request("POST", "https://example.com/h");
    bad_value.request.headers.insert("x-a".to_string(), "a\nb".to_string());
    assert!(matches!(
        engine.plan(&bad_value, 2),
        Plan::Rejected(HttpClientError::InvalidHeaderValue)
    ));
    assert_eq!(engine.stats().in_flight, 0);
    let good = request("GET", "https://example.com/h");
    assert!(matches!(engine.plan(&good, 3), Plan::Execute { key: Some(_), .. }));
    assert_eq!(engine.stats().in_flight, 1);
}

#[test]
fn method_in_any_letter_case_is_of_the_get_class() {
    let mut engine = Engine::new(8, 16);
    let key = execute_key(engine.plan(&request("Get", "https://example.com/c"), 1));
    assert_eq!(key, Some("GET https://example.com/c?".to_string()));
    assert!(matches!(
        engine.plan(&request("gET", "https://example.com/c"), 2),
        Plan::Wait(_)
    ));
    engine.complete(key, Ok(response(200, "https://example.com/c", "c")));
    assert!(matches!(
        engine.plan(&request("get", "https://example.com/c"), 3),
        Plan::CacheHit(_)
    ));
}

#[test]
fn executed_request_carries_its_headers() {
    let mut engine = Engine::new(8, 16);
    let mut req = request("put", "https://example.com/u");
    req.request.headers.insert("Content-Type".to_string(), "text/plain".to_string());
    req.request.body = Some("hello".to_string());
    match engine.plan(&req, 1) {
        Plan::Execute { key, prepared } => {
            assert_eq!(key, None);
            assert_eq!(prepared.method, HttpMethod::Put);
            assert_eq!(prepared.body, Some("hello".to_string()));
            assert_eq!(prepared.headers.unwrap().get("content-type").unwrap(), "text/plain");
        }
        _ => panic!("expected execution"),
    }
}

#[test]
fn explicit_cache_key_joins_requests_that_differ() {
    let mut engine = Engine::new(8, 16);
    let mut a = request("GET", "https://example.com/a");
    a.cache_key = Some("shared".to_string());
    let mut b = request("GET", "https://example.com/b");
    b.cache_key = Some("shared".to_string());
    let key = execute_key(engine.plan(&a, 1));
    assert_eq!(key, Some("shared".to_string()));
    assert!(matches!(engine.plan(&b, 2), Plan::Wait(_)));
    engine.complete(key, Ok(response(200, "https://example.com/a", "A")));
    match engine.plan(&b, 3) {
        Plan::CacheHit(r) => assert_eq!(r.body, "A"),
        _ => panic!("expected a cache hit under the shared key"),
    }
}

#[test]
fn cache_of_capacity_zero_never_hits() {
    let mut engine = Engine::new(0, 16);
    let req = request("GET", "https://example.com/a");
    let key = execute_key(engine.plan(&req, 1));
    engine.complete(key, Ok(response(200, "https://example.com/a", "")));
    assert!(matches!(engine.plan(&req, 2), Plan::Execute { .. }));
}

#[test]
fn engine_cache_evicts_least_recently_used() {
    let mut engine = Engine::new(2, 16);
    for name in ["a", "b"] {
        let url = format!("https://example.com/{}", name);
        let key = execute_key(engine.plan(&request("GET", &url), 1));
        engine.complete(key, Ok(response(200, &url, name)));
    }
    assert!(matches!(
        engine.plan(&request("GET", "https://example.com/a"), 2),
        Plan::CacheHit(_)
    ));
    let key = execute_key(engine.plan(&request("GET", "https://example.com/c"), 3));
    engine.complete(key, Ok(response(200, "https://example.com/c", "c")));
    assert!(matches!(
        engine.plan(&request("GET", "https://example.com/a"), 4),
        Plan::CacheHit(_)
    ));
    assert!(matches!(
        engine.plan(&request("GET", "https://example.com/c"), 5),
        Plan::CacheHit(_)
    ));
    assert!(matches!(
        engine.plan(&request("GET", "https://example.com/b"), 6),
        Plan::Execute { .. }
    ));
}

#[test]
fn batch_of_eight_against_sixteen_slots_returns_eight_ordered_results() {
    let mut engine = Engine::new(32, 16);
    let mut keys: Vec<Option<String>> = Vec::new();
    for i in 0..8u64 {
        let req = request("GET", &format!("https://example.com/item/{}", i));
        keys.push(execute_key(engine.plan(&req, i)));
    }
    assert_eq!(engine.stats().in_flight, 8);
    let mut collector = BatchCollector::new(8);
    assert!(!collector.is_complete());
    let completion_order = [5usize, 0, 7, 2, 3, 1, 6, 4];
    for &i in completion_order.iter() {
        let url = format!("https://example.com/item/{}", i);
        let done = engine.complete(keys[i].take(), Ok(response(200, &url, &format!("body-{}", i))));
        assert!(done.waiters.is_empty());
        assert!(collector.record(i, done.result));
    }
    assert!(collector.is_complete());
    assert_eq!(engine.stats().in_flight, 0);
    let responses = collector.finish();
    assert_eq!(responses.len(), 8);
    for (i, r) in responses.iter().enumerate() {
        assert_eq!(r.body, format!("body-{}", i));
        assert_eq!(r.url, format!("https://example.com/item/{}", i));
    }
}

#[test]
fn batch_larger_than_the_cap_fails_in_part() {
    let mut engine = Engine::new(32, 4);
    let mut admitted = Vec::new();
    let mut collector = BatchCollector::new(6);
    for i in 0..6usize {
        let req = request("GET", &format!("https://example.com/b/{}", i));
        match engine.plan(&req, i as u64) {
            Plan::Execute { key, .. } => admitted.push((i, key)),
            Plan::Rejected(e) => {
                assert_eq!(e, HttpClientError::RateLimited);
                assert!(collector.record(i, Err(e)));
            }
            _ => panic!("unexpected plan"),
        }
    }
    assert_eq!(admitted.len(), 4);
    for (i, key) in admitted {
        let url = format!("https://example.com/b/{}", i);
        let done = engine.complete(key, Ok(response(200, &url, "x")));
        assert!(collector.record(i, done.result));
    }
    assert!(collector.is_complete());
    let responses = collector.finish();
    assert_eq!(responses.len(), 4);
    assert_eq!(responses[0].url, "https://example.com/b/0");
    assert_eq!(responses[3].url, "https://example.com/b/3");
    assert_eq!(engine.stats().in_flight, 0);
}
