//! An insertion-ordered mapping from text to text.

use vstd::prelude::*;

verus! {

pub type Text = Seq<char>;

/// No key occurs twice in `s`.
pub open spec fn keys_unique<V>(s: Seq<(Text, V)>) -> bool {
    forall|i: int, j: int| 0 <= i < j < s.len() ==> (#[trigger] s[i]).0 != (#[trigger] s[j]).0
}

/// `s` holds an entry for `key`.
pub open spec fn has_key<V>(s: Seq<(Text, V)>, key: Text) -> bool {
    exists|i: int| 0 <= i < s.len() && (#[trigger] s[i]).0 == key
}

/// Position of the entry for `key`; meaningful where `has_key(s, key)`.
pub open spec fn key_index<V>(s: Seq<(Text, V)>, key: Text) -> int {
    choose|i: int| 0 <= i < s.len() && (#[trigger] s[i]).0 == key
}

/// The entries after `key` has been given `value`: an existing entry keeps its
/// place and takes the new value, a new key goes to the end.
pub open spec fn put<V>(s: Seq<(Text, V)>, key: Text, value: V) -> Seq<(Text, V)> {
    if has_key(s, key) {
        s.update(key_index(s, key), (key, value))
    } else {
        s.push((key, value))
    }
}

/// In a sequence without repeated keys, a key is found at one place only.
pub proof fn lemma_key_index_unique<V>(s: Seq<(Text, V)>, key: Text, i: int)
    requires
        keys_unique(s),
        0 <= i < s.len(),
        s[i].0 == key,
    ensures
        has_key(s, key),
        key_index(s, key) == i,
{
    let j = key_index(s, key);
    if j < i {
        assert(s[j].0 != s[i].0);
    } else if i < j {
        assert(s[i].0 != s[j].0);
    }
}

/// Giving a key a value keeps the keys distinct.
pub proof fn lemma_put_keeps_unique<V>(s: Seq<(Text, V)>, key: Text, value: V)
    requires
        keys_unique(s),
    ensures
        keys_unique(put(s, key, value)),
        has_key(put(s, key, value), key),
        put(s, key, value)[key_index(put(s, key, value), key)].1 == value,
        s.len() <= put(s, key, value).len() <= s.len() + 1,
{
    let t = put(s, key, value);
    if has_key(s, key) {
        let k = key_index(s, key);
        assert forall|i: int, j: int| 0 <= i < j < t.len() implies (#[trigger] t[i]).0 != (
        #[trigger] t[j]).0 by {
            assert(s[i].0 != s[j].0);
            assert(t[i].0 == s[i].0);
            assert(t[j].0 == s[j].0);
        }
        assert(t[k].0 == key);
        lemma_key_index_unique(t, key, k);
    } else {
        assert forall|i: int, j: int| 0 <= i < j < t.len() implies (#[trigger] t[i]).0 != (
        #[trigger] t[j]).0 by {
            if j < s.len() {
                assert(s[i].0 != s[j].0);
            } else {
                assert(t[i] == s[i]);
                assert(s[i].0 != key);
            }
        }
        assert(t[s.len() as int].0 == key);
        lemma_key_index_unique(t, key, s.len() as int);
    }
}

/// The entries after each of `pairs` was written in turn.
pub open spec fn put_all(pairs: Seq<(Text, Text)>) -> Seq<(Text, Text)>
    decreases pairs.len(),
{
    if pairs.len() == 0 {
        Seq::empty()
    } else {
        put(put_all(pairs.drop_last()), pairs.last().0, pairs.last().1)
    }
}

/// An insertion-ordered mapping from text to text in which no key occurs twice.
pub struct StringMap {
    entries: Vec<(String, String)>,
}

impl View for StringMap {
    type V = Seq<(Text, Text)>;

    closed spec fn view(&self) -> Seq<(Text, Text)> {
        Seq::new(self.entries@.len(), |i: int| (self.entries@[i].0@, self.entries@[i].1@))
    }
}

impl StringMap {
    /// No key occurs twice.
    pub open spec fn wf(&self) -> bool {
        keys_unique(self@)
    }

    pub fn new() -> (m: Self)
        ensures
            m.wf(),
            m@ == Seq::<(Text, Text)>::empty(),
    {
        let m = StringMap { entries: Vec::new() };
        assert(m@ =~= Seq::<(Text, Text)>::empty());
        m
    }

    /// The mapping that holds `pairs`, written in turn: of two pairs with
    /// the same key the later one stays, at the place of the earlier.
    pub fn from_pairs(pairs: Vec<(String, String)>) -> (m: Self)
        ensures
            m.wf(),
            m@ == put_all(Seq::new(pairs@.len(), |i: int| (pairs@[i].0@, pairs@[i].1@))),
    {
        let ghost all = Seq::new(pairs@.len(), |i: int| (pairs@[i].0@, pairs@[i].1@));
        let ghost given = pairs@;
        let mut m = StringMap::new();
        assert(all.take(0) =~= Seq::<(Text, Text)>::empty());
        for pair in it: pairs.into_iter()
            invariant
                it.seq() == given,
                all == Seq::new(given.len(), |i: int| (given[i].0@, given[i].1@)),
                m.wf(),
                m@ == put_all(all.take(it.index())),
        {
            proof {
                let t = all.take(it.index() + 1);
                assert(t.drop_last() =~= all.take(it.index()));
                assert(t.last() == (pair.0@, pair.1@));
            }
            m.insert(pair.0, pair.1);
        }
        assert(all.take(all.len() as int) =~= all);
        m
    }

    pub fn len(&self) -> (n: usize)
        ensures
            n == self@.len(),
    {
        self.entries.len()
    }

    pub fn is_empty(&self) -> (b: bool)
        ensures
            b == (self@.len() == 0),
    {
        self.entries.len() == 0
    }

    /// Key of the entry at `i`.
    pub fn key_at(&self, i: usize) -> (k: &String)
        requires
            i < self@.len(),
        ensures
            k@ == self@[i as int].0,
    {
        &self.entries[i].0
    }

    /// Value of the entry at `i`.
    pub fn value_at(&self, i: usize) -> (v: &String)
        requires
            i < self@.len(),
        ensures
            v@ == self@[i as int].1,
    {
        &self.entries[i].1
    }

    /// Position of `key`, if it is present.
    pub fn find(&self, key: &String) -> (r: Option<usize>)
        ensures
            r.is_some() <==> has_key(self@, key@),
            r matches Some(i) ==> i < self@.len() && self@[i as int].0 == key@,
    {
        let mut i: usize = 0;
        while i < self.entries.len()
            invariant
                i <= self.entries.len(),
                forall|j: int| 0 <= j < i ==> (#[trigger] self@[j]).0 != key@,
            decreases self.entries.len() - i,
        {
            if self.entries[i].0 == *key {
                assert(self@[i as int].0 == key@);
                return Some(i);
            }
            i = i + 1;
        }
        None
    }

    /// The entries, in insertion order.
    pub fn entries(&self) -> (e: &Vec<(String, String)>)
        ensures
            e@.len() == self@.len(),
            forall|i: int|
                0 <= i < e@.len() ==> (#[trigger] e@[i]).0@ == self@[i].0 && e@[i].1@ == self@[i].1,
    {
        &self.entries
    }

    /// The value stored for `key`, if any.
    pub fn get(&self, key: &String) -> (r: Option<&String>)
        requires
            self.wf(),
        ensures
            r.is_some() <==> has_key(self@, key@),
            r matches Some(v) ==> v@ == self@[key_index(self@, key@)].1,
    {
        match self.find(key) {
            Some(i) => {
                proof {
                    lemma_key_index_unique(self@, key@, i as int);
                }
                Some(&self.entries[i].1)
            },
            None => None,
        }
    }

    /// Associates `value` with `key`; a later write to a key replaces the earlier one.
    pub fn insert(&mut self, key: String, value: String)
        requires
            old(self).wf(),
        ensures
            final(self).wf(),
            final(self)@ == put(old(self)@, key@, value@),
            has_key(final(self)@, key@),
            final(self)@[key_index(final(self)@, key@)].1 == value@,
    {
        let found = self.find(&key);
        proof {
            lemma_put_keeps_unique(self@, key@, value@);
        }
        match found {
            Some(i) => {
                proof {
                    lemma_key_index_unique(self@, key@, i as int);
                }
                self.entries.set(i, (key, value));
                assert(self@ =~= put(old(self)@, key@, value@));
            },
            None => {
                self.entries.push((key, value));
                assert(self@ =~= put(old(self)@, key@, value@));
            },
        }
    }

    /// A copy with the same entries in the same order.
    pub fn duplicate(&self) -> (m: Self)
        ensures
            m@ == self@,
            self.wf() ==> m.wf(),
    {
        let mut entries: Vec<(String, String)> = Vec::new();
        let mut i: usize = 0;
        while i < self.entries.len()
            invariant
                i <= self.entries.len(),
                entries@.len() == i,
                forall|j: int|
                    0 <= j < i ==> (#[trigger] entries@[j]).0@ == self.entries@[j].0@
                        && entries@[j].1@ == self.entries@[j].1@,
            decreases self.entries.len() - i,
        {
            let k = self.entries[i].0.clone();
            let v = self.entries[i].1.clone();
            entries.push((k, v));
            i = i + 1;
        }
        let m = StringMap { entries };
        assert(m@ =~= self@);
        m
    }
}

} // verus!
