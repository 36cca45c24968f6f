use std::sync::Arc;

use flutter_rust_http::admission::{AdmissionController, AdmissionStats};
use flutter_rust_http::cache::ResponseCache;
use flutter_rust_http::dedup::{DedupTracker, Role};
use flutter_rust_http::models::HttpResponse;
use flutter_rust_http::string_map::StringMap;

fn snapshot(body: &str) -> Arc<HttpResponse> {
    let mut headers = StringMap::new();
    headers.insert("content-type".to_string(), "text/plain".to_string());
    Arc::new(HttpResponse {
        status_code: 200,
        headers,
        body: body.to_string(),
        version: "HTTP/1.1".to_string(),
        url: "https://example.com".to_string(),
        elapsed_ms: 12,
    })
}

#[test]
fn cache_lookup_returns_what_was_stored() {
    let mut cache = ResponseCache::new(4);
    assert_eq!(cache.capacity(), 4);
    assert_eq!(cache.len(), 0);
    assert!(cache.lookup(&"k".to_string()).is_none());
    cache.store("k".to_string(), snapshot("v1"));
    assert!(cache.contains(&"k".to_string()));
    let hit = cache.lookup(&"k".to_string()).unwrap();
    assert_eq!(hit.body, "v1");
    assert_eq!(hit.status_code, 200);
    assert_eq!(hit.version, "HTTP/1.1");
    assert_eq!(hit.elapsed_ms, 12);
    assert_eq!(hit.headers.len(), 1);
    assert_eq!(hit.headers.get(&"content-type".to_string()), Some(&"text/plain".to_string()));
    assert_eq!(cache.len(), 1);
}

#[test]
fn cache_hands_out_the_stored_snapshot_itself() {
    let mut cache = ResponseCache::new(4);
    let stored = snapshot("shared");
    cache.store("k".to_string(), Arc::clone(&stored));
    let first = cache.lookup(&"k".to_string()).unwrap();
    let second = cache.lookup(&"k".to_string()).unwrap();
    assert!(Arc::ptr_eq(&first, &stored));
    assert!(Arc::ptr_eq(&second, &stored));
}

#[test]
fn cache_store_overwrites_the_same_key() {
    let mut cache = ResponseCache::new(4);
    cache.store("k".to_string(), snapshot("old"));
    cache.store("k".to_string(), snapshot("new"));
    assert_eq!(cache.len(), 1);
    assert_eq!(cache.lookup(&"k".to_string()).unwrap().body, "new");
}

#[test]
fn cache_never_holds_more_than_its_capacity() {
    let mut cache = ResponseCache::new(3);
    for i in 0..50 {
        cache.store(format!("key-{}", i), snapshot("x"));
        assert!(cache.len() <= 3);
    }
    assert_eq!(cache.len(), 3);
    assert!(cache.contains(&"key-49".to_string()));
    assert!(cache.contains(&"key-48".to_string()));
    assert!(cache.contains(&"key-47".to_string()));
    assert!(!cache.contains(&"key-46".to_string()));
}

#[test]
fn cache_evicts_the_least_recently_used() {
    let mut cache = ResponseCache::new(2);
    cache.store("a".to_string(), snapshot("A"));
    cache.store("b".to_string(), snapshot("B"));
    assert!(cache.lookup(&"a".to_string()).is_some());
    cache.store("c".to_string(), snapshot("C"));
    assert!(cache.contains(&"a".to_string()));
    assert!(!cache.contains(&"b".to_string()));
    assert!(cache.contains(&"c".to_string()));
}

#[test]
fn cache_contains_does_not_count_as_use() {
    let mut cache = ResponseCache::new(2);
    cache.store("a".to_string(), snapshot("A"));
    cache.store("b".to_string(), snapshot("B"));
    assert!(cache.contains(&"a".to_string()));
    cache.store("c".to_string(), snapshot("C"));
    assert!(!cache.contains(&"a".to_string()));
    assert!(cache.contains(&"b".to_string()));
}

#[test]
fn cache_of_capacity_zero_stores_nothing() {
    let mut cache = ResponseCache::new(0);
    cache.store("a".to_string(), snapshot("A"));
    assert_eq!(cache.len(), 0);
    assert!(cache.lookup(&"a".to_string()).is_none());
}

#[test]
fn cache_invalidate_forgets_one_key() {
    let mut cache = ResponseCache::new(4);
    cache.store("a".to_string(), snapshot("A"));
    cache.store("b".to_string(), snapshot("B"));
    assert!(cache.invalidate(&"a".to_string()));
    assert!(!cache.invalidate(&"a".to_string()));
    assert!(!cache.contains(&"a".to_string()));
    assert!(cache.contains(&"b".to_string()));
    assert_eq!(cache.len(), 1);
}

#[test]
fn dedup_first_caller_executes_and_the_rest_wait() {
    let mut t = DedupTracker::new();
    let key = "GET https://e.org?".to_string();
    assert!(!t.is_in_flight(&key));
    assert_eq!(t.begin(&key, 10), Role::Execute);
    assert!(t.is_in_flight(&key));
    assert_eq!(t.begin(&key, 11), Role::Wait);
    assert_eq!(t.begin(&key, 12), Role::Wait);
    assert_eq!(t.len(), 1);
    assert_eq!(t.complete(&key), Some(vec![11, 12]));
    assert!(!t.is_in_flight(&key));
    assert_eq!(t.len(), 0);
}

#[test]
fn dedup_complete_is_exactly_once() {
    let mut t = DedupTracker::new();
    let key = "k".to_string();
    assert_eq!(t.begin(&key, 1), Role::Execute);
    assert_eq!(t.complete(&key), Some(vec![]));
    assert_eq!(t.complete(&key), None);
    assert_eq!(t.begin(&key, 2), Role::Execute);
}

#[test]
fn dedup_keeps_keys_apart() {
    let mut t = DedupTracker::new();
    let a = "a".to_string();
    let b = "b".to_string();
    assert_eq!(t.begin(&a, 1), Role::Execute);
    assert_eq!(t.begin(&b, 2), Role::Execute);
    assert_eq!(t.begin(&a, 3), Role::Wait);
    assert_eq!(t.begin(&b, 4), Role::Wait);
    assert_eq!(t.begin(&b, 5), Role::Wait);
    assert_eq!(t.len(), 2);
    assert_eq!(t.complete(&a), Some(vec![3]));
    assert!(t.is_in_flight(&b));
    assert_eq!(t.complete(&b), Some(vec![4, 5]));
}

#[test]
fn admission_is_capped() {
    let mut c = AdmissionController::new(2);
    assert_eq!(c.in_flight(), 0);
    assert_eq!(c.max(), 2);
    assert!(c.try_acquire());
    assert!(c.try_acquire());
    assert!(!c.try_acquire());
    assert_eq!(c.in_flight(), 2);
    c.release();
    assert_eq!(c.in_flight(), 1);
    assert!(c.try_acquire());
    assert!(!c.try_acquire());
    assert_eq!(c.stats(), AdmissionStats { in_flight: 2, max: 2 });
}

#[test]
fn admission_with_no_slots_admits_nothing() {
    let mut c = AdmissionController::new(0);
    assert!(!c.try_acquire());
    assert_eq!(c.in_flight(), 0);
}

#[test]
fn admission_release_at_zero_stays_at_zero() {
    let mut c = AdmissionController::new(3);
    c.release();
    assert_eq!(c.in_flight(), 0);
    assert!(c.try_acquire());
    c.release();
    c.release();
    assert_eq!(c.in_flight(), 0);
}

#[test]
fn admission_acquire_then_release_restores_the_count() {
    for start in 0..16usize {
        let mut c = AdmissionController::new(16);
        for _ in 0..start {
            assert!(c.try_acquire());
        }
        assert!(c.try_acquire());
        assert!(c.in_flight() <= c.max());
        c.release();
        assert_eq!(c.in_flight(), start);
    }
}

#[test]
fn admission_decisions_for_a_compare_and_swap_loop() {
    assert_eq!(AdmissionController::next_on_acquire(0, 16), Some(1));
    assert_eq!(AdmissionController::next_on_acquire(15, 16), Some(16));
    assert_eq!(AdmissionController::next_on_acquire(16, 16), None);
    assert_eq!(AdmissionController::next_on_acquire(17, 16), None);
    assert_eq!(AdmissionController::next_on_acquire(usize::MAX, usize::MAX), None);
    assert_eq!(AdmissionController::next_on_release(1), 0);
    assert_eq!(AdmissionController::next_on_release(16), 15);
    assert_eq!(AdmissionController::next_on_release(0), 0);
}
