//! Buffer handles that cross the boundary, the checks on the regions that
//! arrive, and the pool of response buffers.

use vstd::prelude::*;
use crate::error::HttpClientError;

verus! {

/// Number of buffers the pool keeps at most.
pub const POOL_SLOTS: usize = 20;

/// Capacity asked for when the pool has nothing to hand out.
pub const FRESH_CAPACITY: usize = 2048;

/// Largest capacity that is kept for reuse; a larger buffer is freed.
pub const REUSE_LIMIT: usize = 8192;

/// Handle to a byte region handed across the boundary: its address and length.
/// The address is zero for the null handle, which reports a failure.
#[derive(Clone, Copy, Debug, PartialEq, Eq, Structural)]
pub struct Buffer {
    pub ptr: usize,
    pub len: usize,
}

/// Handle that also records the capacity the region was allocated with, which
/// the side that frees it has to present again.
#[derive(Clone, Copy, Debug, PartialEq, Eq, Structural)]
pub struct BufferCap {
    pub ptr: usize,
    pub len: usize,
    pub cap: usize,
}

impl Buffer {
    pub fn null() -> (b: Self)
        ensures
            b.ptr == 0,
            b.len == 0,
    {
        Buffer { ptr: 0, len: 0 }
    }

    pub fn is_null(&self) -> (b: bool)
        ensures
            b == (self.ptr == 0),
    {
        self.ptr == 0
    }
}

impl BufferCap {
    /// A handle that can stand for an allocation: not null, and no longer than
    /// its capacity.
    pub open spec fn is_valid_spec(&self) -> bool {
        self.ptr != 0 && self.len <= self.cap
    }

    pub fn is_valid(&self) -> (b: bool)
        ensures
            b == self.is_valid_spec(),
    {
        self.ptr != 0 && self.len <= self.cap
    }

    /// The same region without its capacity.
    pub fn as_buffer(&self) -> (b: Buffer)
        ensures
            b.ptr == self.ptr,
            b.len == self.len,
    {
        Buffer { ptr: self.ptr, len: self.len }
    }
}

/// Capacity of a request buffer handed to the caller to write into: what was
/// asked for, and at least one byte.
pub fn request_buffer_capacity(capacity: usize) -> (c: usize)
    ensures
        c == (if capacity == 0 {
            1usize
        } else {
            capacity
        }),
{
    if capacity == 0 {
        1
    } else {
        capacity
    }
}

/// Whether the length of a caller-written buffer may be set to `len`.
pub fn may_set_len(is_null: bool, len: usize, cap: usize) -> (ok: bool)
    ensures
        ok == (!is_null && len <= cap),
{
    !is_null && len <= cap
}

/// Checks an input buffer whose ownership the caller hands over.
pub fn check_owned_input(is_null: bool, len: usize, cap: usize) -> (r: Result<
    (),
    HttpClientError,
>)
    ensures
        r.is_ok() <==> !is_null && len > 0 && len <= cap,
        r matches Err(e) ==> e == (if is_null {
            HttpClientError::NullInput
        } else if len == 0 {
            HttpClientError::EmptyInput
        } else {
            HttpClientError::LengthExceedsCapacity
        }) && e.is_malformed_input_spec(),
{
    if is_null {
        Err(HttpClientError::NullInput)
    } else if len == 0 {
        Err(HttpClientError::EmptyInput)
    } else if cap < len {
        Err(HttpClientError::LengthExceedsCapacity)
    } else {
        Ok(())
    }
}

/// Checks an input region that the caller keeps and this side copies.
pub fn check_borrowed_input(is_null: bool, len: usize) -> (r: Result<(), HttpClientError>)
    ensures
        r.is_ok() <==> !is_null && len > 0,
        r matches Err(e) ==> e == (if is_null {
            HttpClientError::NullInput
        } else {
            HttpClientError::EmptyInput
        }) && e.is_malformed_input_spec(),
{
    if is_null {
        Err(HttpClientError::NullInput)
    } else if len == 0 {
        Err(HttpClientError::EmptyInput)
    } else {
        Ok(())
    }
}

/// Whether a region presented without its capacity can be one that was
/// handed out: it is not null and not empty.
pub fn accepts_release(is_null: bool, len: usize) -> (ok: bool)
    ensures
        ok == (!is_null && len > 0),
{
    !is_null && len > 0
}

/// Number of pooled buffers after one is taken out.
pub open spec fn after_get(pooled: nat) -> nat {
    if pooled > 0 {
        (pooled - 1) as nat
    } else {
        0
    }
}

/// Number of pooled buffers after one of capacity `capacity` is handed back.
pub open spec fn after_return(pooled: nat, capacity: nat) -> nat {
    if capacity <= REUSE_LIMIT && pooled < POOL_SLOTS {
        pooled + 1
    } else {
        pooled
    }
}

/// A small stock of empty byte buffers for responses of typical size.
pub struct BufferPool {
    buffers: Vec<Vec<u8>>,
}

impl BufferPool {
    /// Number of buffers in stock.
    pub closed spec fn pooled(&self) -> nat {
        self.buffers@.len()
    }

    /// The stock is bounded and every buffer in it is empty.
    pub closed spec fn wf(&self) -> bool {
        &&& self.buffers@.len() <= POOL_SLOTS
        &&& forall|i: int| 0 <= i < self.buffers@.len() ==> (#[trigger] self.buffers@[i])@.len() == 0
    }

    /// The stock never exceeds its slots.
    pub proof fn lemma_bounded(&self)
        requires
            self.wf(),
        ensures
            self.pooled() <= POOL_SLOTS,
    {
    }

    /// A full stock of fresh buffers.
    pub fn new() -> (p: Self)
        ensures
            p.wf(),
            p.pooled() == POOL_SLOTS,
    {
        let mut buffers: Vec<Vec<u8>> = Vec::with_capacity(POOL_SLOTS);
        let mut i: usize = 0;
        while i < POOL_SLOTS
            invariant
                i <= POOL_SLOTS,
                buffers@.len() == i,
                forall|j: int| 0 <= j < buffers@.len() ==> (#[trigger] buffers@[j])@.len() == 0,
            decreases POOL_SLOTS - i,
        {
            buffers.push(Vec::with_capacity(FRESH_CAPACITY));
            i = i + 1;
        }
        BufferPool { buffers }
    }

    pub fn len(&self) -> (n: usize)
        ensures
            n == self.pooled(),
    {
        self.buffers.len()
    }

    /// Takes back an emptied buffer whose capacity is `capacity`: it is kept
    /// where the capacity is within the reuse limit and a slot is free, and
    /// dropped otherwise.
    pub fn recycle(&mut self, buf: Vec<u8>, capacity: usize)
        requires
            old(self).wf(),
            buf@.len() == 0,
        ensures
            final(self).wf(),
            final(self).pooled() == after_return(old(self).pooled(), capacity as nat),
    {
        if capacity <= REUSE_LIMIT {
            if self.buffers.len() < POOL_SLOTS {
                self.buffers.push(buf);
            }
        }
    }

    /// Drops every pooled buffer.
    pub fn drain(&mut self)
        ensures
            final(self).wf(),
            final(self).pooled() == 0,
    {
        self.buffers.clear();
    }
}

/// Reads `Vec::capacity`.
///
/// Assumed of that function: a vector's capacity is at least its length. The
/// capacity itself is the allocator's choice and nothing more is said of it.
#[verifier::external_body]
fn buffer_capacity(buf: &Vec<u8>) -> (c: usize)
    ensures
        c >= buf@.len(),
{
    buf.capacity()
}

/// Hands out an empty buffer: one from the pool if it has any, else a fresh one.
pub fn get_buffer(pool: &mut BufferPool) -> (buf: Vec<u8>)
    requires
        old(pool).wf(),
    ensures
        final(pool).wf(),
        buf@.len() == 0,
        final(pool).pooled() == after_get(old(pool).pooled()),
{
    match pool.buffers.pop() {
        Some(buf) => buf,
        None => Vec::with_capacity(FRESH_CAPACITY),
    }
}

/// Takes a buffer back: it is emptied, then pooled if its capacity is within
/// the reuse limit and the pool has room, else freed. The capacity is the
/// allocator's choice, so the pool may or may not grow; it never does where
/// it is full or where the buffer holds more bytes than the reuse limit,
/// since the capacity is then larger still.
pub fn return_buffer(pool: &mut BufferPool, buf: Vec<u8>)
    requires
        old(pool).wf(),
    ensures
        final(pool).wf(),
        final(pool).pooled() == old(pool).pooled() || final(pool).pooled() == old(pool).pooled()
            + 1,
        old(pool).pooled() == POOL_SLOTS ==> final(pool).pooled() == POOL_SLOTS,
        buf@.len() > REUSE_LIMIT ==> final(pool).pooled() == old(pool).pooled(),
{
    let capacity = buffer_capacity(&buf);
    let mut buf = buf;
    buf.clear();
    pool.recycle(buf, capacity);
}

} // verus!
