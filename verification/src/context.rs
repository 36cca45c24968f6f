//! The context object that is made once at startup and handed to every
//! operation.

use std::sync::Arc;
use vstd::prelude::*;
use crate::admission::AdmissionStats;
use crate::buffer::{
    accepts_release, after_get, check_owned_input, get_buffer, may_set_len, return_buffer, Buffer,
    BufferCap, BufferPool, POOL_SLOTS, REUSE_LIMIT,
};
use crate::cache::{cache_index, cached};
use crate::dedup::{in_flight, waiters_of};
use crate::engine::{
    finished, plan_meets, result_of, success_of, text_option, Completion, Engine, EngineView,
    Plan,
};
use crate::error::{HttpClientError, TransportFailure};
use crate::ledger::{
    all_valid, handle_at, lemma_handle_at, outstanding, ptrs_unique, without, TransferLedger,
};
use crate::models::{EnhancedRequest, HttpResponse};
use crate::parser::{rejected_input_error, rejected_input_error_spec};

verus! {

/// Admission slots of the mobile profile.
pub const DEFAULT_MAX_IN_FLIGHT: usize = 16;

/// Responses the cache of the mobile profile holds before it evicts.
pub const DEFAULT_CACHE_CAPACITY: usize = 128;

/// Everything the client keeps between calls, made once at startup and handed
/// to every operation: the engine, once the client is initialised, the pool
/// of response buffers, and the record of the buffers given to the caller.
pub struct ClientContext {
    engine: Option<Engine>,
    pool: BufferPool,
    ledger: TransferLedger,
}

impl ClientContext {
    pub closed spec fn wf(&self) -> bool {
        &&& self.engine matches Some(e) ==> e.wf()
        &&& self.pool.wf()
        &&& self.ledger.wf()
    }

    pub closed spec fn is_initialized(&self) -> bool {
        self.engine.is_some()
    }

    /// The engine's state; meaningful once the client is initialised.
    pub closed spec fn engine_view(&self) -> EngineView {
        self.engine.unwrap()@
    }

    /// Once the client is initialised its engine is well-formed: the slots
    /// taken never exceed the maximum, and the cache is within its capacity.
    pub proof fn lemma_engine_wf(&self)
        requires
            self.wf(),
            self.is_initialized(),
        ensures
            self.engine_view().wf(),
    {
    }

    /// No buffer is out twice, and the pool is within its slots.
    pub proof fn lemma_buffers_wf(&self)
        requires
            self.wf(),
        ensures
            ptrs_unique(self.issued()),
            all_valid(self.issued()),
            self.pooled() <= POOL_SLOTS,
    {
        self.pool.lemma_bounded();
    }

    /// The buffers in the caller's hands.
    pub closed spec fn issued(&self) -> Seq<BufferCap> {
        self.ledger@
    }

    /// The buffers in the pool.
    pub closed spec fn pooled(&self) -> nat {
        self.pool.pooled()
    }

    /// A context before initialisation: a full pool, nothing issued.
    pub fn new() -> (c: Self)
        ensures
            c.wf(),
            !c.is_initialized(),
            c.issued().len() == 0,
            c.pooled() == POOL_SLOTS,
    {
        ClientContext { engine: None, pool: BufferPool::new(), ledger: TransferLedger::new() }
    }

    /// Initialises the client. The first call makes the engine; any later
    /// call finds it made and changes nothing. Either way the client is
    /// initialised afterwards.
    pub fn init(&mut self, cache_capacity: usize, max_in_flight: usize) -> (ok: bool)
        requires
            old(self).wf(),
        ensures
            ok,
            final(self).wf(),
            final(self).is_initialized(),
            final(self).issued() == old(self).issued(),
            final(self).pooled() == old(self).pooled(),
            old(self).is_initialized() ==> final(self).engine_view() == old(self).engine_view(),
            !old(self).is_initialized() ==> {
                &&& final(self).engine_view().cache.len() == 0
                &&& final(self).engine_view().flights.len() == 0
                &&& final(self).engine_view().in_flight == 0
                &&& final(self).engine_view().capacity == cache_capacity
                &&& final(self).engine_view().max == max_in_flight
            },
    {
        if self.engine.is_none() {
            self.engine = Some(Engine::new(cache_capacity, max_in_flight));
        }
        true
    }

    /// Slots taken and slots in all, or the error of a client that is not
    /// initialised.
    pub fn stats(&self) -> (r: Result<AdmissionStats, HttpClientError>)
        requires
            self.wf(),
        ensures
            r.is_ok() <==> self.is_initialized(),
            r matches Ok(s) ==> s.in_flight == self.engine_view().in_flight && s.max
                == self.engine_view().max,
            r matches Err(e) ==> e == HttpClientError::Uninitialized,
    {
        match &self.engine {
            Some(e) => Ok(e.stats()),
            None => Err(HttpClientError::Uninitialized),
        }
    }

    /// Decides what becomes of a request, as the engine does. Before
    /// initialisation every request is refused.
    pub fn plan(&mut self, request: &EnhancedRequest, caller: u64) -> (p: Plan)
        requires
            old(self).wf(),
        ensures
            final(self).wf(),
            final(self).is_initialized() == old(self).is_initialized(),
            final(self).issued() == old(self).issued(),
            final(self).pooled() == old(self).pooled(),
            !old(self).is_initialized() ==> (p matches Plan::Rejected(e) && e
                == HttpClientError::Uninitialized),
            old(self).is_initialized() ==> plan_meets(
                old(self).engine_view(),
                final(self).engine_view(),
                request,
                caller,
                p,
            ),
    {
        let taken = self.engine.take();
        match taken {
            Some(mut engine) => {
                let p = engine.plan(request, caller);
                self.engine = Some(engine);
                p
            },
            None => Plan::Rejected(HttpClientError::Uninitialized),
        }
    }

    /// Decides what becomes of an input. An input that could not be read as
    /// a request is refused with the fault of its bytes and changes nothing:
    /// nothing is planned, so the transport is not called for it. An input
    /// that was read is planned as `plan` does.
    pub fn plan_input(
        &mut self,
        parsed: Option<&EnhancedRequest>,
        bytes: &[u8],
        caller: u64,
    ) -> (p: Plan)
        requires
            old(self).wf(),
        ensures
            final(self).wf(),
            final(self).is_initialized() == old(self).is_initialized(),
            final(self).issued() == old(self).issued(),
            final(self).pooled() == old(self).pooled(),
            !old(self).is_initialized() ==> (p matches Plan::Rejected(e) && e
                == HttpClientError::Uninitialized),
            old(self).is_initialized() ==> match parsed {
                Some(request) => plan_meets(
                    old(self).engine_view(),
                    final(self).engine_view(),
                    request,
                    caller,
                    p,
                ),
                None => final(self).engine_view() == old(self).engine_view() && (
                p matches Plan::Rejected(e) && e == rejected_input_error_spec(bytes@)
                    && e.is_malformed_input_spec()),
            },
    {
        if self.engine.is_none() {
            return Plan::Rejected(HttpClientError::Uninitialized);
        }
        match parsed {
            Some(request) => self.plan(request, caller),
            None => Plan::Rejected(rejected_input_error(bytes)),
        }
    }

    /// Reports the end of an execution, as the engine does. Before
    /// initialisation there is no execution to end, and the outcome is handed
    /// back with no one to notify.
    pub fn complete(
        &mut self,
        key: Option<String>,
        outcome: Result<HttpResponse, TransportFailure>,
    ) -> (c: Completion)
        requires
            old(self).wf(),
        ensures
            final(self).wf(),
            final(self).is_initialized() == old(self).is_initialized(),
            final(self).issued() == old(self).issued(),
            final(self).pooled() == old(self).pooled(),
            old(self).is_initialized() ==> final(self).engine_view() == finished(
                old(self).engine_view(),
                text_option(key),
                success_of(outcome),
            ),
            c.waiters@ == (if !old(self).is_initialized() {
                Seq::<u64>::empty()
            } else {
                match key {
                    Some(k) => if in_flight(old(self).engine_view().flights, k@) {
                        waiters_of(old(self).engine_view().flights, k@)
                    } else {
                        Seq::<u64>::empty()
                    },
                    None => Seq::<u64>::empty(),
                }
            }),
            c.result == result_of(outcome),
    {
        let taken = self.engine.take();
        match taken {
            Some(mut engine) => {
                let c = engine.complete(key, outcome);
                self.engine = Some(engine);
                c
            },
            None => match outcome {
                Ok(r) => Completion { waiters: Vec::new(), result: Ok(Arc::new(r)) },
                Err(t) => Completion {
                    waiters: Vec::new(),
                    result: Err(HttpClientError::Transport(t)),
                },
            },
        }
    }

    /// Forgets the snapshot cached under `key`. Nothing is cached before
    /// initialisation, so there is nothing to forget then.
    pub fn invalidate(&mut self, key: &String) -> (removed: bool)
        requires
            old(self).wf(),
        ensures
            final(self).wf(),
            final(self).is_initialized() == old(self).is_initialized(),
            final(self).issued() == old(self).issued(),
            final(self).pooled() == old(self).pooled(),
            removed ==> old(self).is_initialized(),
            old(self).is_initialized() ==> {
                &&& removed == cached(old(self).engine_view().cache, key@)
                &&& !cached(final(self).engine_view().cache, key@)
                &&& removed ==> final(self).engine_view().cache == old(
                    self,
                ).engine_view().cache.remove(cache_index(old(self).engine_view().cache, key@))
                &&& !removed ==> final(self).engine_view().cache == old(self).engine_view().cache
                &&& final(self).engine_view().capacity == old(self).engine_view().capacity
                &&& final(self).engine_view().flights == old(self).engine_view().flights
                &&& final(self).engine_view().in_flight == old(self).engine_view().in_flight
                &&& final(self).engine_view().max == old(self).engine_view().max
            },
    {
        let taken = self.engine.take();
        match taken {
            Some(mut engine) => {
                let removed = engine.invalidate(key);
                self.engine = Some(engine);
                removed
            },
            None => false,
        }
    }

    /// Takes an empty buffer for a response out of the pool.
    pub fn take_buffer(&mut self) -> (buf: Vec<u8>)
        requires
            old(self).wf(),
        ensures
            final(self).wf(),
            buf@.len() == 0,
            final(self).pooled() == after_get(old(self).pooled()),
            final(self).issued() == old(self).issued(),
            final(self).is_initialized() == old(self).is_initialized(),
    {
        get_buffer(&mut self.pool)
    }

    /// Records that the region behind `handle` is given to the caller, and
    /// makes the handle the caller gets.
    pub fn issue(&mut self, handle: BufferCap) -> (r: Result<Buffer, HttpClientError>)
        requires
            old(self).wf(),
        ensures
            final(self).wf(),
            final(self).pooled() == old(self).pooled(),
            final(self).is_initialized() == old(self).is_initialized(),
            r.is_ok() <==> handle.is_valid_spec() && !outstanding(old(self).issued(), handle.ptr),
            r matches Ok(b) ==> b.ptr == handle.ptr && b.len == handle.len && final(self).issued()
                == old(self).issued().push(handle) && outstanding(
                final(self).issued(),
                handle.ptr,
            ),
            r matches Err(e) ==> final(self).issued() == old(self).issued() && e == (
            if handle.ptr == 0 {
                HttpClientError::NullInput
            } else if handle.len > handle.cap {
                HttpClientError::LengthExceedsCapacity
            } else {
                HttpClientError::BufferAlreadyIssued
            }),
    {
        match self.ledger.issue(handle) {
            Ok(()) => Ok(handle.as_buffer()),
            Err(e) => Err(e),
        }
    }

    /// Records that a buffer of `cap` bytes at `ptr`, still empty, is given to
    /// the caller to write a request into.
    pub fn issue_request_buffer(&mut self, ptr: usize, cap: usize) -> (r: Result<
        BufferCap,
        HttpClientError,
    >)
        requires
            old(self).wf(),
        ensures
            final(self).wf(),
            final(self).pooled() == old(self).pooled(),
            final(self).is_initialized() == old(self).is_initialized(),
            r.is_ok() <==> ptr != 0 && !outstanding(old(self).issued(), ptr),
            r matches Ok(h) ==> h == (BufferCap { ptr, len: 0, cap }) && final(self).issued()
                == old(self).issued().push(h) && outstanding(final(self).issued(), ptr),
            r matches Err(e) ==> final(self).issued() == old(self).issued() && e == (if ptr
                == 0 {
                HttpClientError::NullInput
            } else {
                HttpClientError::BufferAlreadyIssued
            }),
    {
        let handle = BufferCap { ptr, len: 0, cap };
        match self.ledger.issue(handle) {
            Ok(()) => Ok(handle),
            Err(e) => Err(e),
        }
    }

    /// Whether the caller may say that it has written `len` bytes into the
    /// request buffer of `cap` bytes at `ptr`: the buffer is one that was
    /// given out for a request with this capacity, and the bytes fit.
    pub fn may_set_len(&self, ptr: usize, len: usize, cap: usize) -> (ok: bool)
        requires
            self.wf(),
        ensures
            ok == (len <= cap && self.issued().contains(BufferCap { ptr, len: 0, cap })),
    {
        proof {
            if self.issued().contains(BufferCap { ptr, len: 0, cap }) {
                lemma_handle_at(self.issued(), BufferCap { ptr, len: 0, cap });
            }
        }
        if !may_set_len(ptr == 0, len, cap) {
            proof {
                if self.issued().contains(BufferCap { ptr, len: 0, cap }) {
                    let k = choose|k: int|
                        0 <= k < self.issued().len() && self.issued()[k] == (BufferCap {
                            ptr,
                            len: 0,
                            cap,
                        });
                    assert(self.issued()[k].is_valid_spec());
                }
            }
            return false;
        }
        match self.ledger.find(ptr) {
            Some(h) => h.len == 0 && h.cap == cap,
            None => false,
        }
    }

    /// Takes back the request buffer at `ptr`, of `cap` bytes, into which the
    /// caller has written `len` bytes. Its ownership passes to this side
    /// only where the call succeeds; a buffer that is refused stays with the
    /// caller.
    pub fn accept_request_buffer(&mut self, ptr: usize, len: usize, cap: usize) -> (r: Result<
        (),
        HttpClientError,
    >)
        requires
            old(self).wf(),
        ensures
            final(self).wf(),
            final(self).pooled() == old(self).pooled(),
            final(self).is_initialized() == old(self).is_initialized(),
            r.is_ok() <==> ptr != 0 && 0 < len <= cap && old(self).issued().contains(
                BufferCap { ptr, len: 0, cap },
            ),
            r.is_ok() ==> final(self).issued() == without(
                old(self).issued(),
                BufferCap { ptr, len: 0, cap },
            ) && !outstanding(final(self).issued(), ptr),
            r matches Err(e) ==> final(self).issued() == old(self).issued() && e == (if ptr
                == 0 {
                HttpClientError::NullInput
            } else if len == 0 {
                HttpClientError::EmptyInput
            } else if cap < len {
                HttpClientError::LengthExceedsCapacity
            } else {
                HttpClientError::UnknownBuffer
            }),
    {
        match check_owned_input(ptr == 0, len, cap) {
            Err(e) => Err(e),
            Ok(()) => self.ledger.release(ptr, 0, cap),
        }
    }

    /// Takes back a region that the caller presents without its capacity.
    /// The capacity is the one the region was issued with, and it is handed
    /// out with the handle. A region that is empty, that was not issued, or
    /// that was issued with another length is rejected and changes nothing.
    pub fn release_without_capacity(&mut self, ptr: usize, len: usize) -> (r: Result<
        BufferCap,
        HttpClientError,
    >)
        requires
            old(self).wf(),
        ensures
            final(self).wf(),
            final(self).pooled() == old(self).pooled(),
            final(self).is_initialized() == old(self).is_initialized(),
            r.is_ok() <==> len > 0 && outstanding(old(self).issued(), ptr) && handle_at(
                old(self).issued(),
                ptr,
            ).len == len,
            r matches Ok(h) ==> h == handle_at(old(self).issued(), ptr) && h.ptr == ptr && h.len
                == len && final(self).issued() == without(old(self).issued(), h)
                && !outstanding(final(self).issued(), ptr),
            r matches Err(e) ==> e == HttpClientError::UnknownBuffer && final(self).issued()
                == old(self).issued(),
    {
        if !accepts_release(ptr == 0, len) {
            proof {
                if outstanding(self.issued(), ptr) {
                    let i = choose|i: int|
                        0 <= i < self.issued().len() && (#[trigger] self.issued()[i]).ptr == ptr;
                    assert(self.issued()[i].is_valid_spec());
                }
            }
            return Err(HttpClientError::UnknownBuffer);
        }
        match self.ledger.find(ptr) {
            Some(h) => {
                if h.len == len {
                    match self.ledger.release(ptr, len, h.cap) {
                        Ok(()) => Ok(h),
                        Err(e) => Err(e),
                    }
                } else {
                    Err(HttpClientError::UnknownBuffer)
                }
            },
            None => Err(HttpClientError::UnknownBuffer),
        }
    }

    /// The handle under which the region at `ptr` was issued, while it is out.
    pub fn find_issued(&self, ptr: usize) -> (r: Option<BufferCap>)
        requires
            self.wf(),
        ensures
            r.is_some() <==> outstanding(self.issued(), ptr),
            r matches Some(h) ==> h.ptr == ptr && self.issued().contains(h) && h == handle_at(
                self.issued(),
                ptr,
            ),
    {
        self.ledger.find(ptr)
    }

    /// Takes a region back from the caller. Only a region that was issued,
    /// presented with the length and capacity it was issued with, is
    /// accepted, and only once; anything else is rejected and changes nothing.
    pub fn release_buffer(&mut self, ptr: usize, len: usize, cap: usize) -> (r: Result<
        (),
        HttpClientError,
    >)
        requires
            old(self).wf(),
        ensures
            final(self).wf(),
            final(self).pooled() == old(self).pooled(),
            final(self).is_initialized() == old(self).is_initialized(),
            r.is_ok() <==> old(self).issued().contains(BufferCap { ptr, len, cap }),
            r.is_ok() ==> final(self).issued() == without(
                old(self).issued(),
                BufferCap { ptr, len, cap },
            ) && !outstanding(final(self).issued(), ptr),
            r matches Err(e) ==> e == HttpClientError::UnknownBuffer && final(self).issued()
                == old(self).issued(),
    {
        self.ledger.release(ptr, len, cap)
    }

    /// Puts the memory of a released region back into the pool, or frees it.
    pub fn recycle(&mut self, buf: Vec<u8>)
        requires
            old(self).wf(),
        ensures
            final(self).wf(),
            final(self).issued() == old(self).issued(),
            final(self).is_initialized() == old(self).is_initialized(),
            final(self).pooled() == old(self).pooled() || final(self).pooled() == old(
                self,
            ).pooled() + 1,
            final(self).pooled() <= POOL_SLOTS,
            old(self).pooled() == POOL_SLOTS ==> final(self).pooled() == POOL_SLOTS,
            buf@.len() > REUSE_LIMIT ==> final(self).pooled() == old(self).pooled(),
    {
        return_buffer(&mut self.pool, buf);
        proof {
            self.pool.lemma_bounded();
        }
    }

    /// Shuts the client down: the pool is emptied. The cache, the executions
    /// in flight and the record of issued buffers stay, so that calls that
    /// are still running can end and buffers still out can come back.
    pub fn shutdown(&mut self)
        requires
            old(self).wf(),
        ensures
            final(self).wf(),
            final(self).pooled() == 0,
            final(self).issued() == old(self).issued(),
            final(self).is_initialized() == old(self).is_initialized(),
            old(self).is_initialized() ==> final(self).engine_view() == old(self).engine_view(),
    {
        self.pool.drain();
    }
}

} // verus!
