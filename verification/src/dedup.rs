//! Deduplication of concurrent identical requests: one execution per key,
//! with everyone else waiting for its result.

use vstd::prelude::*;
use crate::string_map::Text;

verus! {

/// One execution in flight: its key and the callers waiting for its result.
pub type DedupEntry = (Text, Seq<u64>);

/// No key is in flight twice: each key has at most one executor.
pub open spec fn flight_keys_unique(s: Seq<DedupEntry>) -> bool {
    forall|i: int, j: int| 0 <= i < j < s.len() ==> (#[trigger] s[i]).0 != (#[trigger] s[j]).0
}

/// An execution for `key` is in flight.
pub open spec fn in_flight(s: Seq<DedupEntry>, key: Text) -> bool {
    exists|i: int| 0 <= i < s.len() && (#[trigger] s[i]).0 == key
}

/// Where the execution for `key` stands; meaningful where one is in flight.
pub open spec fn flight_index(s: Seq<DedupEntry>, key: Text) -> int {
    choose|i: int| 0 <= i < s.len() && (#[trigger] s[i]).0 == key
}

/// The callers waiting on `key`; meaningful where it is in flight.
pub open spec fn waiters_of(s: Seq<DedupEntry>, key: Text) -> Seq<u64> {
    s[flight_index(s, key)].1
}

/// The tracker after `caller` asked for `key`: a key not in flight gets a
/// placeholder with no waiters, and `caller` is its executor; a key in flight
/// gets `caller` as one more waiter.
pub open spec fn begun(s: Seq<DedupEntry>, key: Text, caller: u64) -> Seq<DedupEntry> {
    if in_flight(s, key) {
        let i = flight_index(s, key);
        s.update(i, (key, s[i].1.push(caller)))
    } else {
        s.push((key, Seq::<u64>::empty()))
    }
}

/// The tracker after the execution for `key` ended, however it ended.
pub open spec fn completed(s: Seq<DedupEntry>, key: Text) -> Seq<DedupEntry> {
    if in_flight(s, key) {
        s.remove(flight_index(s, key))
    } else {
        s
    }
}

/// The tracker after each of `callers` asked for `key`, in turn.
pub open spec fn begun_by_all(s: Seq<DedupEntry>, key: Text, callers: Seq<u64>) -> Seq<
    DedupEntry,
>
    decreases callers.len(),
{
    if callers.len() == 0 {
        s
    } else {
        begun(begun_by_all(s, key, callers.drop_last()), key, callers.last())
    }
}

/// How many of `callers`, asking in turn, were told to execute.
pub open spec fn executors(s: Seq<DedupEntry>, key: Text, callers: Seq<u64>) -> nat
    decreases callers.len(),
{
    if callers.len() == 0 {
        0
    } else {
        let earlier = executors(s, key, callers.drop_last());
        if in_flight(begun_by_all(s, key, callers.drop_last()), key) {
            earlier
        } else {
            earlier + 1
        }
    }
}

pub proof fn lemma_flight_index_unique(s: Seq<DedupEntry>, key: Text, i: int)
    requires
        flight_keys_unique(s),
        0 <= i < s.len(),
        s[i].0 == key,
    ensures
        in_flight(s, key),
        flight_index(s, key) == i,
{
    let j = flight_index(s, key);
    if j < i {
        assert(s[j].0 != s[i].0);
    } else if i < j {
        assert(s[i].0 != s[j].0);
    }
}

/// Asking for a key leaves it in flight, keeps every other key as it was and
/// keeps the keys distinct.
pub proof fn lemma_begun_properties(s: Seq<DedupEntry>, key: Text, caller: u64)
    requires
        flight_keys_unique(s),
    ensures
        flight_keys_unique(begun(s, key, caller)),
        in_flight(begun(s, key, caller), key),
        waiters_of(begun(s, key, caller), key) == (if in_flight(s, key) {
            waiters_of(s, key).push(caller)
        } else {
            Seq::<u64>::empty()
        }),
        forall|k: Text| k != key ==> (in_flight(begun(s, key, caller), k) <==> in_flight(s, k)),
{
    let t = begun(s, key, caller);
    if in_flight(s, key) {
        let i = flight_index(s, key);
        assert forall|a: int, b: int| 0 <= a < b < t.len() implies (#[trigger] t[a]).0 != (
        #[trigger] t[b]).0 by {
            assert(s[a].0 != s[b].0);
            assert(t[a].0 == s[a].0 && t[b].0 == s[b].0);
        }
        assert(t[i].0 == key);
        lemma_flight_index_unique(t, key, i);
        assert forall|k: Text| k != key implies (in_flight(t, k) <==> in_flight(s, k)) by {
            if in_flight(s, k) {
                let a = flight_index(s, k);
                assert(t[a].0 == k);
            }
            if in_flight(t, k) {
                let a = flight_index(t, k);
                assert(s[a].0 == k);
            }
        }
    } else {
        assert forall|a: int, b: int| 0 <= a < b < t.len() implies (#[trigger] t[a]).0 != (
        #[trigger] t[b]).0 by {
            if b < s.len() {
                assert(s[a].0 != s[b].0);
            } else {
                assert(t[a] == s[a]);
                assert(s[a].0 != key);
            }
        }
        assert(t[s.len() as int].0 == key);
        lemma_flight_index_unique(t, key, s.len() as int);
        assert forall|k: Text| k != key implies (in_flight(t, k) <==> in_flight(s, k)) by {
            if in_flight(s, k) {
                let a = flight_index(s, k);
                assert(t[a].0 == k);
            }
            if in_flight(t, k) {
                let a = flight_index(t, k);
                assert(s[a].0 == k);
            }
        }
    }
}

/// The end of an execution takes its key out of flight and touches no other.
pub proof fn lemma_completed_properties(s: Seq<DedupEntry>, key: Text)
    requires
        flight_keys_unique(s),
    ensures
        flight_keys_unique(completed(s, key)),
        !in_flight(completed(s, key), key),
        forall|k: Text| k != key ==> (in_flight(completed(s, key), k) <==> in_flight(s, k)),
{
    if in_flight(s, key) {
        let i = flight_index(s, key);
        let t = s.remove(i);
        assert forall|a: int, b: int| 0 <= a < b < t.len() implies (#[trigger] t[a]).0 != (
        #[trigger] t[b]).0 by {
            let a2 = if a < i {
                a
            } else {
                a + 1
            };
            let b2 = if b < i {
                b
            } else {
                b + 1
            };
            assert(t[a] == s[a2] && t[b] == s[b2]);
            assert(s[a2].0 != s[b2].0);
        }
        assert forall|a: int| 0 <= a < t.len() implies (#[trigger] t[a]).0 != key by {
            if a < i {
                assert(t[a] == s[a]);
                assert(s[a].0 != s[i].0);
            } else {
                assert(t[a] == s[a + 1]);
                assert(s[i].0 != s[a + 1].0);
            }
        }
        assert forall|k: Text| k != key implies (in_flight(t, k) <==> in_flight(s, k)) by {
            if in_flight(s, k) {
                let a = flight_index(s, k);
                if a < i {
                    assert(t[a].0 == k);
                } else {
                    assert(t[a - 1] == s[a]);
                    assert(t[a - 1].0 == k);
                }
            }
            if in_flight(t, k) {
                let a = flight_index(t, k);
                if a < i {
                    assert(s[a].0 == k);
                } else {
                    assert(t[a] == s[a + 1]);
                    assert(s[a + 1].0 == k);
                }
            }
        }
    }
}

/// Of any number of callers that ask for the same key while none of them has
/// been answered, exactly one, the first, is told to execute. All the others
/// wait for it, in the order in which they asked; when the execution ends,
/// they are the ones to be notified, and the key is out of flight.
pub proof fn lemma_one_execution_per_key(s: Seq<DedupEntry>, key: Text, callers: Seq<u64>)
    requires
        flight_keys_unique(s),
        !in_flight(s, key),
        callers.len() > 0,
    ensures
        executors(s, key, callers) == 1,
        flight_keys_unique(begun_by_all(s, key, callers)),
        in_flight(begun_by_all(s, key, callers), key),
        waiters_of(begun_by_all(s, key, callers), key) == callers.drop_first(),
        !in_flight(completed(begun_by_all(s, key, callers), key), key),
    decreases callers.len(),
{
    let earlier = callers.drop_last();
    if earlier.len() == 0 {
        assert(begun_by_all(s, key, earlier) == s);
        assert(executors(s, key, earlier) == 0);
        lemma_begun_properties(s, key, callers.last());
        assert(callers.drop_first() =~= Seq::<u64>::empty());
    } else {
        lemma_one_execution_per_key(s, key, earlier);
        lemma_begun_properties(begun_by_all(s, key, earlier), key, callers.last());
        assert(callers.drop_first() =~= earlier.drop_first().push(callers.last()));
    }
    lemma_completed_properties(begun_by_all(s, key, callers), key);
}

/// What a caller is told when it asks for a key.
#[derive(Clone, Copy, Debug, PartialEq, Eq, Structural)]
pub enum Role {
    /// No execution was in flight: the caller performs the transport call and
    /// reports its end.
    Execute,
    /// An execution is in flight: the caller waits for its result.
    Wait,
}

/// Tracks the executions in flight, one per key, with those who wait on each.
pub struct DedupTracker {
    entries: Vec<(String, Vec<u64>)>,
}

impl View for DedupTracker {
    type V = Seq<DedupEntry>;

    closed spec fn view(&self) -> Seq<DedupEntry> {
        Seq::new(self.entries@.len(), |i: int| (self.entries@[i].0@, self.entries@[i].1@))
    }
}

impl DedupTracker {
    /// Each key in flight has one executor.
    pub open spec fn wf(&self) -> bool {
        flight_keys_unique(self@)
    }

    pub fn new() -> (t: Self)
        ensures
            t.wf(),
            t@.len() == 0,
    {
        DedupTracker { entries: Vec::new() }
    }

    /// Number of keys in flight.
    pub fn len(&self) -> (n: usize)
        ensures
            n == self@.len(),
    {
        self.entries.len()
    }

    fn find(&self, key: &String) -> (r: Option<usize>)
        ensures
            r.is_some() <==> in_flight(self@, key@),
            r matches Some(i) ==> i < self@.len() && self@[i as int].0 == key@,
    {
        let mut i: usize = 0;
        while i < self.entries.len()
            invariant
                i <= self.entries.len(),
                forall|j: int| 0 <= j < i ==> (#[trigger] self@[j]).0 != key@,
            decreases self.entries.len() - i,
        {
            if self.entries[i].0 == *key {
                assert(self@[i as int].0 == key@);
                return Some(i);
            }
            i = i + 1;
        }
        None
    }

    pub fn is_in_flight(&self, key: &String) -> (b: bool)
        ensures
            b == in_flight(self@, key@),
    {
        self.find(key).is_some()
    }

    /// Checks for `key` and claims it in one step. The caller that finds it
    /// free becomes its executor; any other is added to those who wait.
    pub fn begin(&mut self, key: &String, caller: u64) -> (role: Role)
        requires
            old(self).wf(),
        ensures
            final(self).wf(),
            final(self)@ == begun(old(self)@, key@, caller),
            role == (if in_flight(old(self)@, key@) {
                Role::Wait
            } else {
                Role::Execute
            }),
            in_flight(final(self)@, key@),
            waiters_of(final(self)@, key@) == (if in_flight(old(self)@, key@) {
                waiters_of(old(self)@, key@).push(caller)
            } else {
                Seq::<u64>::empty()
            }),
    {
        proof {
            lemma_begun_properties(self@, key@, caller);
        }
        match self.find(key) {
            Some(i) => {
                proof {
                    lemma_flight_index_unique(self@, key@, i as int);
                }
                let mut entry = self.entries.remove(i);
                entry.1.push(caller);
                self.entries.insert(i, entry);
                assert(self@ =~= begun(old(self)@, key@, caller));
                Role::Wait
            },
            None => {
                self.entries.push((key.clone(), Vec::new()));
                assert(self@ =~= begun(old(self)@, key@, caller));
                Role::Execute
            },
        }
    }

    /// Ends the execution for `key`, whether it succeeded or failed: the
    /// placeholder goes, and those who waited are handed out so that each can
    /// be given the result.
    pub fn complete(&mut self, key: &String) -> (waiters: Option<Vec<u64>>)
        requires
            old(self).wf(),
        ensures
            final(self).wf(),
            final(self)@ == completed(old(self)@, key@),
            !in_flight(final(self)@, key@),
            waiters.is_some() <==> in_flight(old(self)@, key@),
            waiters matches Some(w) ==> w@ == waiters_of(old(self)@, key@),
    {
        proof {
            lemma_completed_properties(self@, key@);
        }
        match self.find(key) {
            Some(i) => {
                proof {
                    lemma_flight_index_unique(self@, key@, i as int);
                }
                let entry = self.entries.remove(i);
                assert(self@ =~= completed(old(self)@, key@));
                Some(entry.1)
            },
            None => None,
        }
    }
}

} // verus!
