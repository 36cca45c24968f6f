//! The response cache: bounded, least recently used entry evicted first.

use vstd::prelude::*;
use crate::models::{share, HttpResponse, HttpResponseView, SharedResponse};
use crate::string_map::Text;

verus! {

/// A cached snapshot under its key.
pub type CacheEntry = (Text, HttpResponseView);

/// No key is cached twice.
pub open spec fn cache_keys_unique(s: Seq<CacheEntry>) -> bool {
    forall|i: int, j: int| 0 <= i < j < s.len() ==> (#[trigger] s[i]).0 != (#[trigger] s[j]).0
}

/// A snapshot is cached under `key`.
pub open spec fn cached(s: Seq<CacheEntry>, key: Text) -> bool {
    exists|i: int| 0 <= i < s.len() && (#[trigger] s[i]).0 == key
}

/// Where the snapshot for `key` stands; meaningful where one is cached.
pub open spec fn cache_index(s: Seq<CacheEntry>, key: Text) -> int {
    choose|i: int| 0 <= i < s.len() && (#[trigger] s[i]).0 == key
}

/// The snapshot cached under `key`; meaningful where one is cached.
pub open spec fn cached_value(s: Seq<CacheEntry>, key: Text) -> HttpResponseView {
    s[cache_index(s, key)].1
}

/// The entries after `key` was used: it becomes the most recently used.
pub open spec fn touched(s: Seq<CacheEntry>, key: Text) -> Seq<CacheEntry> {
    if cached(s, key) {
        let i = cache_index(s, key);
        s.remove(i).push(s[i])
    } else {
        s
    }
}

/// The entries after `value` was stored under `key` in a cache of `capacity`
/// entries: the key becomes the most recently used; an earlier snapshot under
/// it is replaced; where the cache is full the least recently used entry
/// makes room. A cache of capacity zero stores nothing.
pub open spec fn stored(
    s: Seq<CacheEntry>,
    capacity: nat,
    key: Text,
    value: HttpResponseView,
) -> Seq<CacheEntry> {
    if capacity == 0 {
        s
    } else if cached(s, key) {
        s.remove(cache_index(s, key)).push((key, value))
    } else if s.len() < capacity {
        s.push((key, value))
    } else {
        s.drop_first().push((key, value))
    }
}

pub proof fn lemma_cache_index_unique(s: Seq<CacheEntry>, key: Text, i: int)
    requires
        cache_keys_unique(s),
        0 <= i < s.len(),
        s[i].0 == key,
    ensures
        cached(s, key),
        cache_index(s, key) == i,
{
    let j = cache_index(s, key);
    if j < i {
        assert(s[j].0 != s[i].0);
    } else if i < j {
        assert(s[i].0 != s[j].0);
    }
}

/// Taking an entry out keeps the keys distinct and leaves its key uncached.
pub proof fn lemma_remove_keeps_unique(s: Seq<CacheEntry>, i: int)
    requires
        cache_keys_unique(s),
        0 <= i < s.len(),
    ensures
        cache_keys_unique(s.remove(i)),
        !cached(s.remove(i), s[i].0),
        forall|k: Text| k != s[i].0 ==> (cached(s.remove(i), k) <==> cached(s, k)),
{
    let t = s.remove(i);
    assert forall|a: int, b: int| 0 <= a < b < t.len() implies (#[trigger] t[a]).0 != (
    #[trigger] t[b]).0 by {
        let a2 = if a < i {
            a
        } else {
            a + 1
        };
        let b2 = if b < i {
            b
        } else {
            b + 1
        };
        assert(t[a] == s[a2] && t[b] == s[b2]);
        assert(s[a2].0 != s[b2].0);
    }
    assert forall|a: int| 0 <= a < t.len() implies (#[trigger] t[a]).0 != s[i].0 by {
        if a < i {
            assert(t[a] == s[a]);
            assert(s[a].0 != s[i].0);
        } else {
            assert(t[a] == s[a + 1]);
            assert(s[i].0 != s[a + 1].0);
        }
    }
    assert forall|k: Text| k != s[i].0 implies (cached(t, k) <==> cached(s, k)) by {
        if cached(s, k) {
            let a = cache_index(s, k);
            if a < i {
                assert(t[a].0 == k);
            } else {
                assert(t[a - 1] == s[a]);
                assert(t[a - 1].0 == k);
            }
        }
        if cached(t, k) {
            let a = cache_index(t, k);
            if a < i {
                assert(s[a].0 == k);
            } else {
                assert(t[a] == s[a + 1]);
                assert(s[a + 1].0 == k);
            }
        }
    }
}

/// Adding an entry under an uncached key keeps the keys distinct.
pub proof fn lemma_push_keeps_unique(s: Seq<CacheEntry>, e: CacheEntry)
    requires
        cache_keys_unique(s),
        !cached(s, e.0),
    ensures
        cache_keys_unique(s.push(e)),
        cached(s.push(e), e.0),
        cache_index(s.push(e), e.0) == s.len(),
        forall|k: Text| k != e.0 ==> (cached(s.push(e), k) <==> cached(s, k)),
{
    let t = s.push(e);
    assert forall|a: int, b: int| 0 <= a < b < t.len() implies (#[trigger] t[a]).0 != (
    #[trigger] t[b]).0 by {
        if b < s.len() {
            assert(s[a].0 != s[b].0);
        } else {
            assert(t[a] == s[a]);
            assert(s[a].0 != e.0);
        }
    }
    assert(t[s.len() as int].0 == e.0);
    lemma_cache_index_unique(t, e.0, s.len() as int);
    assert forall|k: Text| k != e.0 implies (cached(t, k) <==> cached(s, k)) by {
        if cached(s, k) {
            let a = cache_index(s, k);
            assert(t[a].0 == k);
        }
        if cached(t, k) {
            let a = cache_index(t, k);
            assert(s[a].0 == k);
        }
    }
}

/// What `stored` leaves behind: distinct keys, no more entries than the
/// capacity, and, in a cache that can hold anything, the new snapshot under
/// its key.
pub proof fn lemma_stored_properties(
    s: Seq<CacheEntry>,
    capacity: nat,
    key: Text,
    value: HttpResponseView,
)
    requires
        cache_keys_unique(s),
        s.len() <= capacity,
    ensures
        cache_keys_unique(stored(s, capacity, key, value)),
        stored(s, capacity, key, value).len() <= capacity,
        capacity > 0 ==> cached(stored(s, capacity, key, value), key) && cached_value(
            stored(s, capacity, key, value),
            key,
        ) == value,
{
    if capacity == 0 {
    } else if cached(s, key) {
        let i = cache_index(s, key);
        lemma_remove_keeps_unique(s, i);
        lemma_push_keeps_unique(s.remove(i), (key, value));
    } else if s.len() < capacity {
        lemma_push_keeps_unique(s, (key, value));
    } else {
        assert(s.drop_first() =~= s.remove(0));
        lemma_remove_keeps_unique(s, 0);
        assert(!cached(s.remove(0), key)) by {
            if s[0].0 != key {
            }
        }
        lemma_push_keeps_unique(s.remove(0), (key, value));
    }
}

/// What a lookup leaves behind: the same keys with the same snapshots.
pub proof fn lemma_touched_properties(s: Seq<CacheEntry>, key: Text)
    requires
        cache_keys_unique(s),
    ensures
        cache_keys_unique(touched(s, key)),
        touched(s, key).len() == s.len(),
        forall|k: Text| cached(touched(s, key), k) <==> cached(s, k),
        forall|k: Text| cached(s, k) ==> cached_value(touched(s, key), k) == cached_value(s, k),
{
    if cached(s, key) {
        let i = cache_index(s, key);
        let t = touched(s, key);
        lemma_remove_keeps_unique(s, i);
        lemma_push_keeps_unique(s.remove(i), s[i]);
        assert forall|k: Text| cached(s, k) implies cached_value(t, k) == cached_value(s, k) by {
            let a = cache_index(s, k);
            if k == key {
                lemma_cache_index_unique(s, k, i);
            } else {
                let r = s.remove(i);
                let b = if a < i {
                    a
                } else {
                    a - 1
                };
                assert(r[b] == s[a]);
                assert(t[b] == s[a]);
                lemma_cache_index_unique(t, k, b);
            }
        }
    }
}

/// Bounded response cache. It holds at most `capacity` snapshots and evicts
/// the least recently used one when a new key needs room.
pub struct ResponseCache {
    capacity: usize,
    entries: Vec<(String, SharedResponse)>,
}

impl View for ResponseCache {
    type V = Seq<CacheEntry>;

    closed spec fn view(&self) -> Seq<CacheEntry> {
        Seq::new(self.entries@.len(), |i: int| (self.entries@[i].0@, self.entries@[i].1@))
    }
}

impl ResponseCache {
    pub closed spec fn capacity_spec(&self) -> nat {
        self.capacity as nat
    }

    /// The cache never holds more than its capacity, and no key twice.
    pub open spec fn wf(&self) -> bool {
        &&& self@.len() <= self.capacity_spec()
        &&& cache_keys_unique(self@)
    }

    pub fn new(capacity: usize) -> (c: Self)
        ensures
            c.wf(),
            c@.len() == 0,
            c.capacity_spec() == capacity,
    {
        ResponseCache { capacity, entries: Vec::new() }
    }

    pub fn capacity(&self) -> (n: usize)
        ensures
            n == self.capacity_spec(),
    {
        self.capacity
    }

    pub fn len(&self) -> (n: usize)
        ensures
            n == self@.len(),
    {
        self.entries.len()
    }

    fn find(&self, key: &String) -> (r: Option<usize>)
        ensures
            r.is_some() <==> cached(self@, key@),
            r matches Some(i) ==> i < self@.len() && self@[i as int].0 == key@,
    {
        let mut i: usize = 0;
        while i < self.entries.len()
            invariant
                i <= self.entries.len(),
                forall|j: int| 0 <= j < i ==> (#[trigger] self@[j]).0 != key@,
            decreases self.entries.len() - i,
        {
            if self.entries[i].0 == *key {
                assert(self@[i as int].0 == key@);
                return Some(i);
            }
            i = i + 1;
        }
        None
    }

    /// Whether a snapshot is cached under `key`. The order of use is left as it is.
    pub fn contains(&self, key: &String) -> (b: bool)
        ensures
            b == cached(self@, key@),
    {
        self.find(key).is_some()
    }

    /// Looks `key` up without waiting. A hit hands out the cached snapshot,
    /// shared and not copied, and marks the key as the most recently used.
    pub fn lookup(&mut self, key: &String) -> (r: Option<SharedResponse>)
        requires
            old(self).wf(),
        ensures
            final(self).wf(),
            final(self).capacity_spec() == old(self).capacity_spec(),
            final(self)@ == touched(old(self)@, key@),
            r.is_some() <==> cached(old(self)@, key@),
            r matches Some(v) ==> v@ == cached_value(old(self)@, key@),
    {
        match self.find(key) {
            Some(i) => {
                proof {
                    lemma_cache_index_unique(self@, key@, i as int);
                    lemma_touched_properties(self@, key@);
                }
                let entry = self.entries.remove(i);
                let copy = share(&entry.1);
                self.entries.push(entry);
                assert(self@ =~= touched(old(self)@, key@));
                Some(copy)
            },
            None => None,
        }
    }

    /// Stores a snapshot under `key`, replacing an earlier one and evicting
    /// the least recently used entry where the cache is full.
    pub fn store(&mut self, key: String, response: SharedResponse)
        requires
            old(self).wf(),
        ensures
            final(self).wf(),
            final(self).capacity_spec() == old(self).capacity_spec(),
            final(self)@ == stored(old(self)@, old(self).capacity_spec(), key@, response@),
            old(self).capacity_spec() > 0 ==> cached(final(self)@, key@) && cached_value(
                final(self)@,
                key@,
            ) == response@,
    {
        proof {
            lemma_stored_properties(self@, self.capacity as nat, key@, response@);
        }
        if self.capacity == 0 {
            return ;
        }
        match self.find(&key) {
            Some(i) => {
                proof {
                    lemma_cache_index_unique(self@, key@, i as int);
                }
                self.entries.remove(i);
            },
            None => {
                if self.entries.len() >= self.capacity {
                    self.entries.remove(0);
                    assert(old(self)@.drop_first() =~= old(self)@.remove(0));
                }
            },
        }
        let ghost mid = self@;
        self.entries.push((key, response));
        assert(self@ =~= mid.push((key@, response@)));
        assert(self@ =~= stored(old(self)@, old(self).capacity_spec(), key@, response@));
    }

    /// Forgets the snapshot under `key`, if there is one.
    pub fn invalidate(&mut self, key: &String) -> (removed: bool)
        requires
            old(self).wf(),
        ensures
            final(self).wf(),
            final(self).capacity_spec() == old(self).capacity_spec(),
            removed == cached(old(self)@, key@),
            !cached(final(self)@, key@),
            removed ==> final(self)@ == old(self)@.remove(cache_index(old(self)@, key@)),
            !removed ==> final(self)@ == old(self)@,
    {
        match self.find(key) {
            Some(i) => {
                proof {
                    lemma_cache_index_unique(self@, key@, i as int);
                    lemma_remove_keeps_unique(self@, i as int);
                }
                self.entries.remove(i);
                assert(self@ =~= old(self)@.remove(i as int));
                true
            },
            None => false,
        }
    }
}

} // verus!
