//! Admission control: a cap on the transport calls in flight, decided at once
//! and without waiting.

use vstd::prelude::*;

verus! {

/// Slot count after one more operation is admitted, or `None` when every slot is taken.
pub open spec fn acquire_spec(in_flight: nat, max: nat) -> Option<nat> {
    if in_flight < max {
        Some(in_flight + 1)
    } else {
        None
    }
}

/// Slot count after one operation has left.
pub open spec fn release_spec(in_flight: nat) -> nat {
    if in_flight > 0 {
        (in_flight - 1) as nat
    } else {
        0
    }
}

/// Introspection snapshot of the admission controller.
#[derive(Clone, Copy, Debug, PartialEq, Eq, Structural)]
pub struct AdmissionStats {
    pub in_flight: usize,
    pub max: usize,
}

/// Caps the number of transport calls that are in flight at once.
///
/// Admission never waits: a caller that finds no free slot is told so at once.
pub struct AdmissionController {
    in_flight: usize,
    max: usize,
}

impl AdmissionController {
    pub closed spec fn in_flight_spec(&self) -> nat {
        self.in_flight as nat
    }

    pub closed spec fn max_spec(&self) -> nat {
        self.max as nat
    }

    /// The slot count never exceeds the configured maximum.
    pub open spec fn wf(&self) -> bool {
        self.in_flight_spec() <= self.max_spec()
    }

    /// The decision a compare-and-swap loop applies to the value it has read:
    /// the value to store when a slot is free, `None` when the cap is reached.
    pub fn next_on_acquire(in_flight: usize, max: usize) -> (next: Option<usize>)
        ensures
            next.is_some() <==> in_flight < max,
            match next {
                Some(n) => acquire_spec(in_flight as nat, max as nat) == Some(n as nat),
                None => acquire_spec(in_flight as nat, max as nat).is_none(),
            },
    {
        if in_flight < max {
            Some(in_flight + 1)
        } else {
            None
        }
    }

    /// The value a releasing caller stores in place of the one it has read.
    pub fn next_on_release(in_flight: usize) -> (next: usize)
        ensures
            next == release_spec(in_flight as nat),
    {
        if in_flight > 0 {
            in_flight - 1
        } else {
            0
        }
    }

    pub fn new(max: usize) -> (c: Self)
        ensures
            c.wf(),
            c.in_flight_spec() == 0,
            c.max_spec() == max,
    {
        AdmissionController { in_flight: 0, max }
    }

    /// Takes a slot if one is free.
    pub fn try_acquire(&mut self) -> (admitted: bool)
        requires
            old(self).wf(),
        ensures
            final(self).wf(),
            final(self).max_spec() == old(self).max_spec(),
            admitted <==> old(self).in_flight_spec() < old(self).max_spec(),
            admitted ==> final(self).in_flight_spec() == old(self).in_flight_spec() + 1,
            !admitted ==> final(self).in_flight_spec() == old(self).in_flight_spec(),
    {
        match Self::next_on_acquire(self.in_flight, self.max) {
            Some(n) => {
                self.in_flight = n;
                true
            },
            None => false,
        }
    }

    /// Gives a slot back. Releasing with no slot taken leaves the count at zero.
    pub fn release(&mut self)
        requires
            old(self).wf(),
        ensures
            final(self).wf(),
            final(self).max_spec() == old(self).max_spec(),
            final(self).in_flight_spec() == release_spec(old(self).in_flight_spec()),
    {
        self.in_flight = Self::next_on_release(self.in_flight);
    }

    pub fn in_flight(&self) -> (n: usize)
        ensures
            n == self.in_flight_spec(),
    {
        self.in_flight
    }

    pub fn max(&self) -> (n: usize)
        ensures
            n == self.max_spec(),
    {
        self.max
    }

    pub fn stats(&self) -> (s: AdmissionStats)
        ensures
            s.in_flight == self.in_flight_spec(),
            s.max == self.max_spec(),
    {
        AdmissionStats { in_flight: self.in_flight, max: self.max }
    }
}

/// A slot that was acquired and then released leaves the count where it was,
/// and at no point in between does the count exceed the cap.
pub proof fn lemma_acquire_release_restores(in_flight: nat, max: nat)
    requires
        in_flight <= max,
    ensures
        acquire_spec(in_flight, max) matches Some(n) ==> n <= max && release_spec(n) == in_flight,
        acquire_spec(in_flight, max).is_none() ==> in_flight == max,
{
}

} // verus!
