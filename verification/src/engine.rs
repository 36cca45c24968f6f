//! The request-execution engine: cache, deduplication and admission as one
//! state machine, with the laws that hold of it.

use std::sync::Arc;
use vstd::prelude::*;
use crate::admission::{release_spec, AdmissionController, AdmissionStats};
use crate::cache::{
    cache_index, cache_keys_unique, cached, cached_value, lemma_stored_properties,
    lemma_touched_properties, stored, touched, CacheEntry, ResponseCache,
};
use crate::dedup::{
    begun, completed, flight_keys_unique, in_flight, lemma_begun_properties, waiters_of,
    DedupEntry, DedupTracker,
};
use crate::error::{HttpClientError, TransportFailure};
use crate::fingerprint::{cache_key, cache_key_spec};
use crate::http_client::{
    fault_spec, may_overflow, prepare_request, prepared_from, PreparedRequest,
};
use crate::method_utils::{is_get_class, method_name, parse_method_spec};
use crate::models::{share, EnhancedRequest, HttpResponse, HttpResponseView, SharedResponse};
use crate::string_map::Text;

verus! {

/// What the engine holds: the cached snapshots, least recently used first,
/// the executions in flight, and the admission slots taken.
pub struct EngineView {
    pub cache: Seq<CacheEntry>,
    pub capacity: nat,
    pub flights: Seq<DedupEntry>,
    pub in_flight: nat,
    pub max: nat,
}

impl EngineView {
    pub open spec fn wf(self) -> bool {
        &&& cache_keys_unique(self.cache)
        &&& self.cache.len() <= self.capacity
        &&& flight_keys_unique(self.flights)
        &&& self.in_flight <= self.max
    }
}

/// What becomes of a request that is fit to be sent.
#[derive(Clone, Copy, Debug, PartialEq, Eq, Structural)]
pub enum Decision {
    /// Answered from the cache; the transport is not called.
    Hit,
    /// An identical request is being executed; its result is awaited.
    Wait,
    /// The caller holds a slot and calls the transport.
    Execute,
    /// Every slot is taken; nothing was changed.
    RateLimited,
}

/// The engine's step on a request with cache key `key`. Only a request of the
/// GET class is `shared`: looked up in the cache and tracked in flight.
/// A slot is taken by the caller that executes, and by no other.
pub open spec fn planned(v: EngineView, key: Text, shared: bool, caller: u64) -> (
    EngineView,
    Decision,
) {
    if shared && cached(v.cache, key) {
        (
            EngineView {
                cache: touched(v.cache, key),
                capacity: v.capacity,
                flights: v.flights,
                in_flight: v.in_flight,
                max: v.max,
            },
            Decision::Hit,
        )
    } else if shared && in_flight(v.flights, key) {
        (
            EngineView {
                cache: v.cache,
                capacity: v.capacity,
                flights: begun(v.flights, key, caller),
                in_flight: v.in_flight,
                max: v.max,
            },
            Decision::Wait,
        )
    } else if v.in_flight >= v.max {
        (v, Decision::RateLimited)
    } else {
        (
            EngineView {
                cache: v.cache,
                capacity: v.capacity,
                flights: if shared {
                    begun(v.flights, key, caller)
                } else {
                    v.flights
                },
                in_flight: v.in_flight + 1,
                max: v.max,
            },
            Decision::Execute,
        )
    }
}

/// The engine after an execution ended. `key` is the key of a shared
/// execution; `success` is the response, where there is one. The slot is
/// given back and the key leaves flight however the execution ended; the
/// response is cached only under a key and only with status 200.
pub open spec fn finished(
    v: EngineView,
    key: Option<Text>,
    success: Option<HttpResponseView>,
) -> EngineView {
    EngineView {
        cache: match (key, success) {
            (Some(k), Some(r)) => if r.status_code == 200 {
                stored(v.cache, v.capacity, k, r)
            } else {
                v.cache
            },
            _ => v.cache,
        },
        capacity: v.capacity,
        flights: match key {
            Some(k) => completed(v.flights, k),
            None => v.flights,
        },
        in_flight: release_spec(v.in_flight),
        max: v.max,
    }
}

/// The engine after each of `callers` made the same request, in turn.
pub open spec fn planned_by_all(v: EngineView, key: Text, shared: bool, callers: Seq<u64>) -> EngineView
    decreases callers.len(),
{
    if callers.len() == 0 {
        v
    } else {
        planned(planned_by_all(v, key, shared, callers.drop_last()), key, shared, callers.last()).0
    }
}

/// What each of `callers` was told, in turn.
pub open spec fn decisions(v: EngineView, key: Text, shared: bool, callers: Seq<u64>) -> Seq<
    Decision,
>
    decreases callers.len(),
{
    if callers.len() == 0 {
        Seq::empty()
    } else {
        decisions(v, key, shared, callers.drop_last()).push(
            planned(
                planned_by_all(v, key, shared, callers.drop_last()),
                key,
                shared,
                callers.last(),
            ).1,
        )
    }
}

/// Of any number of callers that make the same cacheable request before any
/// response has come, the first calls the transport and every other waits
/// for it. One slot is taken for them all, and when the execution ends, the
/// callers to be given its result are all those that waited, in order.
pub proof fn lemma_identical_requests_share_one_execution(
    v: EngineView,
    key: Text,
    callers: Seq<u64>,
)
    requires
        v.wf(),
        !cached(v.cache, key),
        !in_flight(v.flights, key),
        v.in_flight < v.max,
        callers.len() > 0,
    ensures
        decisions(v, key, true, callers).len() == callers.len(),
        decisions(v, key, true, callers)[0] == Decision::Execute,
        forall|i: int|
            1 <= i < callers.len() ==> #[trigger] decisions(v, key, true, callers)[i]
                == Decision::Wait,
        planned_by_all(v, key, true, callers).wf(),
        planned_by_all(v, key, true, callers).in_flight == v.in_flight + 1,
        planned_by_all(v, key, true, callers).cache == v.cache,
        in_flight(planned_by_all(v, key, true, callers).flights, key),
        waiters_of(planned_by_all(v, key, true, callers).flights, key) == callers.drop_first(),
    decreases callers.len(),
{
    let earlier = callers.drop_last();
    let before = planned_by_all(v, key, true, earlier);
    if earlier.len() == 0 {
        assert(before == v);
        assert(decisions(v, key, true, earlier) =~= Seq::<Decision>::empty());
        lemma_begun_properties(v.flights, key, callers.last());
        assert(callers.drop_first() =~= Seq::<u64>::empty());
    } else {
        lemma_identical_requests_share_one_execution(v, key, earlier);
        lemma_begun_properties(before.flights, key, callers.last());
        assert(callers.drop_first() =~= earlier.drop_first().push(callers.last()));
        let d = decisions(v, key, true, callers);
        assert forall|i: int| 1 <= i < callers.len() implies #[trigger] d[i]
            == Decision::Wait by {
            if i < earlier.len() {
                assert(d[i] == decisions(v, key, true, earlier)[i]);
            }
        }
        assert(d[0] == decisions(v, key, true, earlier)[0]);
    }
}

/// The engine after requests with the keys `keys`, all of the GET class,
/// were planned in turn.
pub open spec fn planned_each(v: EngineView, keys: Seq<Text>, caller: u64) -> EngineView
    decreases keys.len(),
{
    if keys.len() == 0 {
        v
    } else {
        planned(planned_each(v, keys.drop_last(), caller), keys.last(), true, caller).0
    }
}

/// A batch of different requests that is no larger than the number of free
/// slots is admitted whole: every one of its requests is told to execute,
/// none is refused and none waits for another.
pub proof fn lemma_batch_within_the_cap_is_admitted(v: EngineView, keys: Seq<Text>, caller: u64)
    requires
        v.wf(),
        v.in_flight + keys.len() <= v.max,
        forall|i: int, j: int| 0 <= i < j < keys.len() ==> keys[i] != keys[j],
        forall|i: int|
            0 <= i < keys.len() ==> !cached(v.cache, #[trigger] keys[i]) && !in_flight(
                v.flights,
                keys[i],
            ),
    ensures
        forall|i: int|
            0 <= i < keys.len() ==> (#[trigger] planned(
                planned_each(v, keys.take(i), caller),
                keys[i],
                true,
                caller,
            )).1 == Decision::Execute,
        planned_each(v, keys, caller).wf(),
        planned_each(v, keys, caller).in_flight == v.in_flight + keys.len(),
        planned_each(v, keys, caller).max == v.max,
        planned_each(v, keys, caller).cache == v.cache,
        forall|k: Text|
            #![trigger in_flight(planned_each(v, keys, caller).flights, k)]
            in_flight(planned_each(v, keys, caller).flights, k) <==> in_flight(v.flights, k)
                || keys.contains(k),
    decreases keys.len(),
{
    if keys.len() == 0 {
        assert forall|k: Text|
            #![trigger in_flight(planned_each(v, keys, caller).flights, k)]
            in_flight(planned_each(v, keys, caller).flights, k) <==> in_flight(v.flights, k)
                || keys.contains(k) by {
            assert(!keys.contains(k));
        }
    } else {
        let n = keys.len() - 1;
        let earlier = keys.drop_last();
        assert forall|i: int, j: int| 0 <= i < j < earlier.len() implies earlier[i]
            != earlier[j] by {
            assert(earlier[i] == keys[i] && earlier[j] == keys[j]);
        }
        assert forall|i: int| 0 <= i < earlier.len() implies !cached(
            v.cache,
            #[trigger] earlier[i],
        ) && !in_flight(v.flights, earlier[i]) by {
            assert(earlier[i] == keys[i]);
        }
        lemma_batch_within_the_cap_is_admitted(v, earlier, caller);
        let before = planned_each(v, earlier, caller);
        let key = keys[n];
        assert(keys.last() == key);
        assert(!earlier.contains(key)) by {
            if earlier.contains(key) {
                let i = choose|i: int| 0 <= i < earlier.len() && earlier[i] == key;
                assert(keys[i] != keys[n]);
            }
        }
        assert(!in_flight(before.flights, key));
        assert(!cached(before.cache, key));
        lemma_begun_properties(before.flights, key, caller);
        let after = planned(before, key, true, caller).0;
        assert(after == planned_each(v, keys, caller));
        assert forall|i: int| 0 <= i < keys.len() implies (#[trigger] planned(
            planned_each(v, keys.take(i), caller),
            keys[i],
            true,
            caller,
        )).1 == Decision::Execute by {
            if i < n {
                assert(keys.take(i) =~= earlier.take(i));
                assert(keys[i] == earlier[i]);
            } else {
                assert(keys.take(i) =~= earlier);
            }
        }
        assert forall|k: Text|
            #![trigger in_flight(planned_each(v, keys, caller).flights, k)]
            in_flight(planned_each(v, keys, caller).flights, k) <==> in_flight(v.flights, k)
                || keys.contains(k) by {
            assert(in_flight(before.flights, k) <==> in_flight(v.flights, k) || earlier.contains(
                k,
            ));
            if k == key {
                assert(keys[n] == k);
            } else {
                if earlier.contains(k) {
                    let i = choose|i: int| 0 <= i < earlier.len() && earlier[i] == k;
                    assert(keys[i] == k);
                }
                if keys.contains(k) {
                    let i = choose|i: int| 0 <= i < keys.len() && keys[i] == k;
                    assert(earlier[i] == k);
                }
            }
        }
    }
}

/// A response with status 200 to a cacheable request is served from the
/// cache to the next identical request: that request is a hit, it gets the
/// response that was stored, and it neither takes a slot nor enters flight.
pub proof fn lemma_cached_success_is_a_hit(
    v: EngineView,
    key: Text,
    response: HttpResponseView,
    caller: u64,
)
    requires
        v.wf(),
        v.capacity > 0,
        response.status_code == 200,
    ensures
        planned(finished(v, Some(key), Some(response)), key, true, caller).1 == Decision::Hit,
        cached_value(finished(v, Some(key), Some(response)).cache, key) == response,
        planned(finished(v, Some(key), Some(response)), key, true, caller).0.in_flight
            == finished(v, Some(key), Some(response)).in_flight,
        planned(finished(v, Some(key), Some(response)), key, true, caller).0.flights
            == finished(v, Some(key), Some(response)).flights,
{
    lemma_stored_properties(v.cache, v.capacity, key, response);
}

/// Nothing is cached for a request that is not of the GET class, for a
/// failed execution, or for a response whose status is not 200.
pub proof fn lemma_only_successful_gets_are_cached(
    v: EngineView,
    key: Option<Text>,
    success: Option<HttpResponseView>,
)
    requires
        key.is_none() || success.is_none() || success.unwrap().status_code != 200,
    ensures
        finished(v, key, success).cache == v.cache,
{
}

/// Planning a request adds no entry to the cache, whatever is decided.
pub proof fn lemma_planning_caches_nothing(v: EngineView, key: Text, shared: bool, caller: u64)
    requires
        v.wf(),
    ensures
        forall|k: Text| cached(planned(v, key, shared, caller).0.cache, k) <==> cached(v.cache, k),
{
    lemma_touched_properties(v.cache, key);
}

/// The slots taken never exceed the maximum, and an execution, however it
/// ends, leaves as many slots taken as there were before it was planned.
pub proof fn lemma_slot_is_returned(
    v: EngineView,
    key: Text,
    shared: bool,
    caller: u64,
    success: Option<HttpResponseView>,
)
    requires
        v.in_flight <= v.max,
    ensures
        planned(v, key, shared, caller).0.in_flight <= v.max,
        planned(v, key, shared, caller).0.max == v.max,
        planned(v, key, shared, caller).1 != Decision::Execute ==> planned(
            v,
            key,
            shared,
            caller,
        ).0.in_flight == v.in_flight,
        planned(v, key, shared, caller).1 == Decision::Execute ==> finished(
            planned(v, key, shared, caller).0,
            if shared {
                Some(key)
            } else {
                None
            },
            success,
        ).in_flight == v.in_flight,
{
}

/// What the caller is to do with a request.
pub enum Plan {
    /// The response, from the cache.
    CacheHit(SharedResponse),
    /// Wait for the execution in flight under this key.
    Wait(String),
    /// Call the transport with the request as it was made ready, then report
    /// the end of the call with this key.
    Execute { key: Option<String>, prepared: PreparedRequest },
    /// The request is refused.
    Rejected(HttpClientError),
}

/// The end of an execution as the engine hands it on.
pub struct Completion {
    /// The callers that waited for this execution, in the order in which
    /// they came. Each is to be given the result.
    pub waiters: Vec<u64>,
    pub result: Result<SharedResponse, HttpClientError>,
}

/// The end of an execution as the caller that executed and each caller that
/// waited is told of it.
pub open spec fn result_of(outcome: Result<HttpResponse, TransportFailure>) -> Result<
    SharedResponse,
    HttpClientError,
> {
    match outcome {
        Ok(r) => Ok(Arc::new(r)),
        Err(t) => Err(HttpClientError::Transport(t)),
    }
}

impl Completion {
    /// The result once for each caller that waited, in the order in which
    /// they came. Every one of them gets what the executing caller gets: the
    /// same snapshot, or the same error.
    pub fn deliveries(&self) -> (d: Vec<(u64, Result<SharedResponse, HttpClientError>)>)
        ensures
            d@.len() == self.waiters@.len(),
            forall|i: int|
                0 <= i < d@.len() ==> (#[trigger] d@[i]).0 == self.waiters@[i] && d@[i].1
                    == self.result,
    {
        let mut d: Vec<(u64, Result<SharedResponse, HttpClientError>)> = Vec::with_capacity(
            self.waiters.len(),
        );
        let mut i: usize = 0;
        while i < self.waiters.len()
            invariant
                i <= self.waiters@.len(),
                d@.len() == i,
                forall|j: int|
                    0 <= j < i ==> (#[trigger] d@[j]).0 == self.waiters@[j] && d@[j].1
                        == self.result,
            decreases self.waiters@.len() - i,
        {
            let copy = match &self.result {
                Ok(r) => Ok(share(r)),
                Err(e) => Err(*e),
            };
            d.push((self.waiters[i], copy));
            i = i + 1;
        }
        d
    }
}

/// What `plan` owes: `before` and `after` are the engine around the call.
/// A request with more than 6553 headers may also be refused because the
/// header map does not take them; nothing changes then either.
pub open spec fn plan_meets(
    before: EngineView,
    after: EngineView,
    request: &EnhancedRequest,
    caller: u64,
    p: Plan,
) -> bool {
    ||| (p matches Plan::Rejected(r) && r == HttpClientError::TooManyHeaders && may_overflow(
        &request.request,
    ) && after == before)
    ||| match fault_spec(&request.request) {
        Some(e) => p matches Plan::Rejected(r) && r == e && after == before,
        None => {
            let m = parse_method_spec(request.request.method@).unwrap();
            let key = cache_key_spec(
                text_option(request.cache_key),
                method_name(m),
                request.request.url@,
                request.request.query_params@,
            );
            let (next, decision) = planned(before, key, is_get_class(m), caller);
            &&& after == next
            &&& match decision {
                Decision::Hit => p matches Plan::CacheHit(r) && r@ == cached_value(
                    before.cache,
                    key,
                ),
                Decision::Wait => p matches Plan::Wait(k) && k@ == key,
                Decision::Execute => p matches Plan::Execute { key: k, prepared }
                    && prepared_from(&request.request, prepared) && text_option(k) == (
                if is_get_class(m) {
                    Some(key)
                } else {
                    None
                }),
                Decision::RateLimited => p matches Plan::Rejected(r) && r
                    == HttpClientError::RateLimited,
            }
        },
    }
}

/// The request-execution state that every operation is handed: the response
/// cache, the tracker of executions in flight, and the admission controller.
pub struct Engine {
    cache: ResponseCache,
    dedup: DedupTracker,
    admission: AdmissionController,
}

impl View for Engine {
    type V = EngineView;

    closed spec fn view(&self) -> EngineView {
        EngineView {
            cache: self.cache@,
            capacity: self.cache.capacity_spec(),
            flights: self.dedup@,
            in_flight: self.admission.in_flight_spec(),
            max: self.admission.max_spec(),
        }
    }
}

pub open spec fn text_option(s: Option<String>) -> Option<Text> {
    match s {
        Some(k) => Some(k@),
        None => None,
    }
}

pub open spec fn success_of(outcome: Result<HttpResponse, TransportFailure>) -> Option<
    HttpResponseView,
> {
    match outcome {
        Ok(r) => Some(r@),
        Err(_) => None,
    }
}

impl Engine {
    /// The cache is within its capacity, no key is cached or in flight
    /// twice, and the slots taken do not exceed the maximum.
    pub open spec fn wf(&self) -> bool {
        self@.wf()
    }

    /// An engine with an empty cache of `cache_capacity` entries and
    /// `max_in_flight` admission slots, none of them taken.
    pub fn new(cache_capacity: usize, max_in_flight: usize) -> (e: Self)
        ensures
            e.wf(),
            e@.cache.len() == 0,
            e@.flights.len() == 0,
            e@.in_flight == 0,
            e@.capacity == cache_capacity,
            e@.max == max_in_flight,
    {
        Engine {
            cache: ResponseCache::new(cache_capacity),
            dedup: DedupTracker::new(),
            admission: AdmissionController::new(max_in_flight),
        }
    }

    /// Slots taken and slots in all. For introspection only.
    pub fn stats(&self) -> (s: AdmissionStats)
        ensures
            s.in_flight == self@.in_flight,
            s.max == self@.max,
    {
        self.admission.stats()
    }

    /// Forgets the snapshot cached under `key`, if there is one. The next
    /// request with this key is executed again.
    pub fn invalidate(&mut self, key: &String) -> (removed: bool)
        requires
            old(self).wf(),
        ensures
            final(self).wf(),
            removed == cached(old(self)@.cache, key@),
            !cached(final(self)@.cache, key@),
            removed ==> final(self)@.cache == old(self)@.cache.remove(
                cache_index(old(self)@.cache, key@),
            ),
            !removed ==> final(self)@.cache == old(self)@.cache,
            final(self)@.capacity == old(self)@.capacity,
            final(self)@.flights == old(self)@.flights,
            final(self)@.in_flight == old(self)@.in_flight,
            final(self)@.max == old(self)@.max,
    {
        self.cache.invalidate(key)
    }

    /// Decides what becomes of `request`. A request that is not fit to be
    /// sent, by its URL, its method or its headers, is refused and changes
    /// nothing: no slot is taken for a request that cannot reach the
    /// transport. Any other is looked up in the
    /// cache and among the executions in flight if it is of the GET class,
    /// and else, or if it is found in neither, admitted if a slot is free.
    pub fn plan(&mut self, request: &EnhancedRequest, caller: u64) -> (p: Plan)
        requires
            old(self).wf(),
        ensures
            final(self).wf(),
            plan_meets(old(self)@, final(self)@, request, caller, p),
    {
        let prepared = match prepare_request(&request.request) {
            Ok(p) => p,
            Err(e) => {
                return Plan::Rejected(e);
            },
        };
        if !prepared.method.is_get() {
            if self.admission.try_acquire() {
                return Plan::Execute { key: None, prepared };
            } else {
                return Plan::Rejected(HttpClientError::RateLimited);
            }
        }
        let key = cache_key(request, &prepared.method);
        proof {
            lemma_touched_properties(self.cache@, key@);
            lemma_begun_properties(self.dedup@, key@, caller);
        }
        match self.cache.lookup(&key) {
            Some(response) => {
                return Plan::CacheHit(response);
            },
            None => {},
        }
        if self.dedup.is_in_flight(&key) {
            let _ = self.dedup.begin(&key, caller);
            return Plan::Wait(key);
        }
        if !self.admission.try_acquire() {
            return Plan::Rejected(HttpClientError::RateLimited);
        }
        let _ = self.dedup.begin(&key, caller);
        Plan::Execute { key: Some(key), prepared }
    }

    /// Reports the end of an execution, with the key that `plan` gave for it.
    /// Whether the call succeeded, failed or timed out, the slot is given
    /// back, the key leaves flight, and those who waited are handed out with
    /// the result. The response is cached where the execution had a key and
    /// the status is 200.
    pub fn complete(
        &mut self,
        key: Option<String>,
        outcome: Result<HttpResponse, TransportFailure>,
    ) -> (c: Completion)
        requires
            old(self).wf(),
        ensures
            final(self).wf(),
            final(self)@ == finished(old(self)@, text_option(key), success_of(outcome)),
            c.waiters@ == (match key {
                Some(k) => if in_flight(old(self)@.flights, k@) {
                    waiters_of(old(self)@.flights, k@)
                } else {
                    Seq::<u64>::empty()
                },
                None => Seq::<u64>::empty(),
            }),
            c.result == result_of(outcome),
    {
        self.admission.release();
        let waiters = match &key {
            Some(k) => match self.dedup.complete(k) {
                Some(w) => w,
                None => Vec::new(),
            },
            None => Vec::new(),
        };
        match outcome {
            Ok(response) => {
                let success = response.is_success();
                let snapshot = Arc::new(response);
                match key {
                    Some(k) => {
                        if success {
                            proof {
                                lemma_stored_properties(
                                    self.cache@,
                                    self.cache.capacity_spec(),
                                    k@,
                                    snapshot@,
                                );
                            }
                            self.cache.store(k, share(&snapshot));
                        }
                    },
                    None => {},
                }
                Completion { waiters, result: Ok(snapshot) }
            },
            Err(t) => Completion { waiters, result: Err(HttpClientError::Transport(t)) },
        }
    }
}

} // verus!
