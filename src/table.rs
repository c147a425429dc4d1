//! A finite map from derived keys to records, kept as a vector of entries
//! with unique keys.
use vstd::prelude::*;

use crate::identity::Key;

verus! {

struct Entry<V> {
    key: Key,
    value: V,
}

/// A map from keys to values of type `V`, viewed as a `Map` from key bytes to
/// the values' views.
pub struct Table<V: View> {
    entries: Vec<Entry<V>>,
    contents: Ghost<Map<Seq<u8>, V::V>>,
}

impl<V: View> View for Table<V> {
    type V = Map<Seq<u8>, V::V>;

    closed spec fn view(&self) -> Map<Seq<u8>, V::V> {
        self.contents@
    }
}

impl<V: View> Table<V> {
    /// The entries agree with the map, and no key occurs twice.
    pub closed spec fn wf(&self) -> bool {
        &&& self.contents@.dom().finite()
        &&& forall|i: int|
            0 <= i < self.entries@.len() ==> {
                &&& #[trigger] self.contents@.contains_key(self.entries@[i].key@)
                &&& self.contents@[self.entries@[i].key@] == self.entries@[i].value@
            }
        &&& forall|k: Seq<u8>| #[trigger]
            self.contents@.contains_key(k) ==> exists|i: int|
                0 <= i < self.entries@.len() && #[trigger] self.entries@[i].key@ == k
        &&& forall|i: int, j: int|
            0 <= i < self.entries@.len() && 0 <= j < self.entries@.len() && i != j
                ==> self.entries@[i].key@ != self.entries@[j].key@
    }

    /// An empty table.
    pub fn new() -> (t: Self)
        ensures
            t.wf(),
            t@ == Map::<Seq<u8>, V::V>::empty(),
    {
        Table { entries: Vec::new(), contents: Ghost(Map::empty()) }
    }

    /// The index of the entry with key `key`, if there is one.
    fn position(&self, key: &Key) -> (r: Option<usize>)
        requires
            self.wf(),
        ensures
            match r {
                Some(i) => i < self.entries@.len() && self.entries@[i as int].key@ == key@,
                None => !self@.contains_key(key@),
            },
    {
        let n = self.entries.len();
        let mut i: usize = 0;
        while i < n
            invariant
                self.wf(),
                n == self.entries@.len(),
                i <= n,
                forall|j: int| 0 <= j < i ==> self.entries@[j].key@ != key@,
            decreases n - i,
        {
            if self.entries[i].key.same_as(key) {
                return Some(i);
            }
            i = i + 1;
        }
        None
    }

    /// The value stored under `key`, if any.
    pub fn get(&self, key: &Key) -> (r: Option<&V>)
        requires
            self.wf(),
        ensures
            match r {
                Some(v) => self@.contains_key(key@) && v@ == self@[key@],
                None => !self@.contains_key(key@),
            },
    {
        match self.position(key) {
            Some(i) => {
                assert(self.contents@.contains_key(self.entries@[i as int].key@));
                Some(&self.entries[i].value)
            },
            None => None,
        }
    }

    /// Stores `value` under `key`, replacing the value stored there before.
    pub fn insert(&mut self, key: Key, value: V)
        requires
            old(self).wf(),
        ensures
            final(self).wf(),
            final(self)@ == old(self)@.insert(key@, value@),
    {
        let ghost k = key@;
        let ghost v = value@;
        let ghost old_entries = self.entries@;
        match self.position(&key) {
            Some(i) => {
                self.entries.set(i, Entry { key, value });
                self.contents = Ghost(self.contents@.insert(k, v));
                assert forall|k2: Seq<u8>| #[trigger]
                    self.contents@.contains_key(k2) implies exists|j: int|
                        0 <= j < self.entries@.len() && #[trigger] self.entries@[j].key@ == k2 by {
                    if k2 != k {
                        let j = choose|j: int|
                            0 <= j < old_entries.len() && #[trigger] old_entries[j].key@ == k2;
                        assert(self.entries@[j].key@ == k2);
                    } else {
                        assert(self.entries@[i as int].key@ == k2);
                    }
                }
                assert forall|j: int| 0 <= j < self.entries@.len() implies {
                    &&& #[trigger] self.contents@.contains_key(self.entries@[j].key@)
                    &&& self.contents@[self.entries@[j].key@] == self.entries@[j].value@
                } by {
                    if j != i {
                        assert(old(self).contents@.contains_key(old_entries[j].key@));
                    }
                }
            },
            None => {
                self.entries.push(Entry { key, value });
                self.contents = Ghost(self.contents@.insert(k, v));
                let ghost last = old_entries.len() as int;
                assert forall|k2: Seq<u8>| #[trigger]
                    self.contents@.contains_key(k2) implies exists|j: int|
                        0 <= j < self.entries@.len() && #[trigger] self.entries@[j].key@ == k2 by {
                    if k2 != k {
                        let j = choose|j: int|
                            0 <= j < old_entries.len() && #[trigger] old_entries[j].key@ == k2;
                        assert(self.entries@[j].key@ == k2);
                    } else {
                        assert(self.entries@[last].key@ == k2);
                    }
                }
                assert forall|j: int| 0 <= j < old_entries.len() implies old_entries[j].key@ != k by {
                    assert(old(self).contents@.contains_key(old_entries[j].key@));
                }
                assert forall|j: int| 0 <= j < self.entries@.len() implies {
                    &&& #[trigger] self.contents@.contains_key(self.entries@[j].key@)
                    &&& self.contents@[self.entries@[j].key@] == self.entries@[j].value@
                } by {
                    if j < last {
                        assert(old(self).contents@.contains_key(old_entries[j].key@));
                    }
                }
            },
        }
    }
}

} // verus!
