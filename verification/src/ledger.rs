//! The ledger of the buffers whose ownership has crossed the boundary.

use vstd::prelude::*;
use crate::buffer::BufferCap;
use crate::error::HttpClientError;

verus! {

/// No two outstanding handles share an address.
pub open spec fn ptrs_unique(s: Seq<BufferCap>) -> bool {
    forall|i: int, j: int| 0 <= i < j < s.len() ==> (#[trigger] s[i]).ptr != (#[trigger] s[j]).ptr
}

/// Every outstanding handle stands for an allocation.
pub open spec fn all_valid(s: Seq<BufferCap>) -> bool {
    forall|i: int| 0 <= i < s.len() ==> (#[trigger] s[i]).is_valid_spec()
}

/// The region at `ptr` is in the other side's hands.
pub open spec fn outstanding(s: Seq<BufferCap>, ptr: usize) -> bool {
    exists|i: int| 0 <= i < s.len() && (#[trigger] s[i]).ptr == ptr
}

/// The handle that is outstanding at `ptr`; meaningful where one is.
pub open spec fn handle_at(s: Seq<BufferCap>, ptr: usize) -> BufferCap {
    s[choose|i: int| 0 <= i < s.len() && (#[trigger] s[i]).ptr == ptr]
}

/// An address is out under one handle only.
pub proof fn lemma_handle_at(s: Seq<BufferCap>, handle: BufferCap)
    requires
        ptrs_unique(s),
        s.contains(handle),
    ensures
        outstanding(s, handle.ptr),
        handle_at(s, handle.ptr) == handle,
{
    let k = choose|k: int| 0 <= k < s.len() && s[k] == handle;
    assert(s[k].ptr == handle.ptr);
    let i = choose|i: int| 0 <= i < s.len() && (#[trigger] s[i]).ptr == handle.ptr;
    if i < k {
        assert(s[i].ptr != s[k].ptr);
    } else if k < i {
        assert(s[k].ptr != s[i].ptr);
    }
}

/// Where `handle` stands among the outstanding ones; meaningful where it is one.
pub open spec fn position(s: Seq<BufferCap>, handle: BufferCap) -> int {
    choose|i: int| 0 <= i < s.len() && #[trigger] s[i] == handle
}

/// The outstanding handles once `handle` has come back.
pub open spec fn without(s: Seq<BufferCap>, handle: BufferCap) -> Seq<BufferCap> {
    s.remove(position(s, handle))
}

/// A handle that has come back is no longer outstanding, so presenting it a
/// second time finds nothing: a region is released at most once.
pub proof fn lemma_release_is_once(s: Seq<BufferCap>, handle: BufferCap)
    requires
        ptrs_unique(s),
        s.contains(handle),
    ensures
        !outstanding(without(s, handle), handle.ptr),
        !without(s, handle).contains(handle),
        ptrs_unique(without(s, handle)),
        without(s, handle).len() + 1 == s.len(),
{
    let k = position(s, handle);
    let t = without(s, handle);
    assert(0 <= k < s.len() && s[k] == handle);
    assert forall|i: int| 0 <= i < t.len() implies (#[trigger] t[i]).ptr != handle.ptr by {
        if i < k {
            assert(t[i] == s[i]);
            assert(s[i].ptr != s[k].ptr);
        } else {
            assert(t[i] == s[i + 1]);
            assert(s[k].ptr != s[i + 1].ptr);
        }
    }
    assert forall|i: int, j: int| 0 <= i < j < t.len() implies (#[trigger] t[i]).ptr != (
    #[trigger] t[j]).ptr by {
        let a = if i < k {
            i
        } else {
            i + 1
        };
        let b = if j < k {
            j
        } else {
            j + 1
        };
        assert(t[i] == s[a]);
        assert(t[j] == s[b]);
        assert(s[a].ptr != s[b].ptr);
    }
    if t.contains(handle) {
        let i = choose|i: int| 0 <= i < t.len() && t[i] == handle;
        assert(t[i].ptr != handle.ptr);
    }
}

/// Record of the byte regions that have crossed the boundary and not yet come
/// back. At any time exactly one side is responsible for a region: the other
/// side while its handle is recorded here, this side otherwise.
pub struct TransferLedger {
    issued: Vec<BufferCap>,
}

impl View for TransferLedger {
    type V = Seq<BufferCap>;

    closed spec fn view(&self) -> Seq<BufferCap> {
        self.issued@
    }
}

impl TransferLedger {
    /// No address is out twice, and every handle that is out stands for an
    /// allocation.
    pub open spec fn wf(&self) -> bool {
        ptrs_unique(self@) && all_valid(self@)
    }

    pub fn new() -> (l: Self)
        ensures
            l.wf(),
            l@.len() == 0,
    {
        TransferLedger { issued: Vec::new() }
    }

    /// Number of regions in the other side's hands.
    pub fn outstanding_count(&self) -> (n: usize)
        ensures
            n == self@.len(),
    {
        self.issued.len()
    }

    fn find_ptr(&self, ptr: usize) -> (r: Option<usize>)
        ensures
            r.is_some() <==> outstanding(self@, ptr),
            r matches Some(i) ==> i < self@.len() && self@[i as int].ptr == ptr,
    {
        let mut i: usize = 0;
        while i < self.issued.len()
            invariant
                i <= self.issued.len(),
                forall|j: int| 0 <= j < i ==> (#[trigger] self@[j]).ptr != ptr,
            decreases self.issued.len() - i,
        {
            if self.issued[i].ptr == ptr {
                return Some(i);
            }
            i = i + 1;
        }
        None
    }

    /// The handle that is outstanding at `ptr`, if there is one.
    pub fn find(&self, ptr: usize) -> (r: Option<BufferCap>)
        requires
            self.wf(),
        ensures
            r.is_some() <==> outstanding(self@, ptr),
            r matches Some(h) ==> h.ptr == ptr && self@.contains(h) && h == handle_at(self@, ptr),
    {
        match self.find_ptr(ptr) {
            Some(i) => {
                proof {
                    assert(self@[i as int] == self.issued@[i as int]);
                    lemma_handle_at(self@, self@[i as int]);
                }
                Some(self.issued[i])
            },
            None => None,
        }
    }

    /// Records that the region behind `handle` now belongs to the other side.
    /// A null or over-long handle is refused, and so is an address that is
    /// already out: a region is never held by both sides.
    pub fn issue(&mut self, handle: BufferCap) -> (r: Result<(), HttpClientError>)
        requires
            old(self).wf(),
        ensures
            final(self).wf(),
            r.is_ok() <==> handle.is_valid_spec() && !outstanding(old(self)@, handle.ptr),
            r.is_ok() ==> final(self)@ == old(self)@.push(handle) && final(self)@.contains(handle)
                && outstanding(final(self)@, handle.ptr),
            r.is_err() ==> final(self)@ == old(self)@,
            r matches Err(e) ==> e == (if handle.ptr == 0 {
                HttpClientError::NullInput
            } else if handle.len > handle.cap {
                HttpClientError::LengthExceedsCapacity
            } else {
                HttpClientError::BufferAlreadyIssued
            }),
    {
        if handle.ptr == 0 {
            return Err(HttpClientError::NullInput);
        }
        if handle.len > handle.cap {
            return Err(HttpClientError::LengthExceedsCapacity);
        }
        if self.find_ptr(handle.ptr).is_some() {
            return Err(HttpClientError::BufferAlreadyIssued);
        }
        self.issued.push(handle);
        proof {
            let s = old(self)@;
            let t = self@;
            assert forall|i: int, j: int| 0 <= i < j < t.len() implies (#[trigger] t[i]).ptr != (
            #[trigger] t[j]).ptr by {
                if j < s.len() {
                    assert(s[i].ptr != s[j].ptr);
                } else {
                    assert(t[i] == s[i]);
                }
            }
            assert forall|i: int| 0 <= i < t.len() implies (#[trigger] t[i]).is_valid_spec() by {
                if i < s.len() {
                    assert(t[i] == s[i]);
                }
            }
            assert(t[s.len() as int] == handle);
        }
        Ok(())
    }

    /// Takes a region back. It is accepted only where a handle with this very
    /// address, length and capacity is outstanding; anything else is rejected
    /// and changes nothing.
    pub fn release(&mut self, ptr: usize, len: usize, cap: usize) -> (r: Result<
        (),
        HttpClientError,
    >)
        requires
            old(self).wf(),
        ensures
            final(self).wf(),
            r.is_ok() <==> old(self)@.contains(BufferCap { ptr, len, cap }),
            r.is_ok() ==> final(self)@ == without(old(self)@, BufferCap { ptr, len, cap })
                && !outstanding(final(self)@, ptr),
            r matches Err(e) ==> e == HttpClientError::UnknownBuffer && final(self)@ == old(
                self,
            )@,
    {
        let handle = BufferCap { ptr, len, cap };
        match self.find_ptr(ptr) {
            Some(i) => {
                let found = self.issued[i];
                if found.len == len && found.cap == cap {
                    proof {
                        let s = self@;
                        assert(s[i as int] == handle);
                        assert(s.contains(handle));
                        let k = position(s, handle);
                        if k != i as int {
                            if k < i {
                                assert(s[k].ptr != s[i as int].ptr);
                            } else {
                                assert(s[i as int].ptr != s[k].ptr);
                            }
                        }
                        lemma_release_is_once(s, handle);
                        let t = without(s, handle);
                        assert forall|j: int| 0 <= j < t.len() implies (
                        #[trigger] t[j]).is_valid_spec() by {
                            if j < k {
                                assert(t[j] == s[j]);
                            } else {
                                assert(t[j] == s[j + 1]);
                            }
                        }
                    }
                    self.issued.remove(i);
                    Ok(())
                } else {
                    proof {
                        let s = self@;
                        if s.contains(handle) {
                            let k = choose|k: int| 0 <= k < s.len() && s[k] == handle;
                            if k < i {
                                assert(s[k].ptr != s[i as int].ptr);
                            } else if i < k {
                                assert(s[i as int].ptr != s[k].ptr);
                            }
                        }
                    }
                    Err(HttpClientError::UnknownBuffer)
                }
            },
            None => {
                proof {
                    let s = self@;
                    if s.contains(handle) {
                        let k = choose|k: int| 0 <= k < s.len() && s[k] == handle;
                        assert(s[k].ptr == ptr);
                    }
                }
                Err(HttpClientError::UnknownBuffer)
            },
        }
    }
}

} // verus!
