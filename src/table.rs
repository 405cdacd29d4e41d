use vstd::prelude::*;

verus! {

/// An ordered mapping from `u64` keys to records.
///
/// The entries are kept in a vector sorted by strictly ascending key, so a
/// scan by position visits the records in key order. The abstract value of a
/// table is the map from each stored key to its record.
pub struct Table<V> {
    entries: Vec<(u64, V)>,
    model: Ghost<Map<u64, V>>,
}

impl<V> View for Table<V> {
    type V = Map<u64, V>;

    closed spec fn view(&self) -> Map<u64, V> {
        self.model@
    }
}

impl<V> Table<V> {
    /// The stored entries in ascending key order.
    pub closed spec fn entry_seq(&self) -> Seq<(u64, V)> {
        self.entries@
    }

    /// Keys strictly ascend along the entries, each entry is a binding of the
    /// map, and each binding of the map has an entry.
    pub open spec fn wf(&self) -> bool {
        &&& forall|i: int, j: int|
            0 <= i < j < self.entry_seq().len() ==> self.entry_seq()[i].0 < self.entry_seq()[j].0
        &&& forall|i: int|
            0 <= i < self.entry_seq().len() ==> {
                &&& #[trigger] self@.contains_key(self.entry_seq()[i].0)
                &&& self@[self.entry_seq()[i].0] == self.entry_seq()[i].1
            }
        &&& forall|k: u64|
            self@.contains_key(k) ==> exists|i: int|
                0 <= i < self.entry_seq().len() && #[trigger] self.entry_seq()[i].0 == k
    }

    /// An empty table.
    pub fn new() -> (r: Self)
        ensures
            r.wf(),
            r@ == Map::<u64, V>::empty(),
    {
        Table { entries: Vec::new(), model: Ghost(Map::empty()) }
    }

    /// The number of stored records.
    pub fn len(&self) -> (r: usize)
        ensures
            r == self.entry_seq().len(),
    {
        self.entries.len()
    }

    /// The entry at position `i` in ascending key order.
    pub fn entry(&self, i: usize) -> (r: &(u64, V))
        requires
            i < self.entry_seq().len(),
        ensures
            *r == self.entry_seq()[i as int],
    {
        &self.entries[i]
    }

    /// The first position whose key is not below `key`.
    fn position(&self, key: u64) -> (r: usize)
        requires
            self.wf(),
        ensures
            r <= self.entry_seq().len(),
            forall|j: int| 0 <= j < r ==> self.entry_seq()[j].0 < key,
            r < self.entry_seq().len() ==> self.entry_seq()[r as int].0 >= key,
    {
        let mut i: usize = 0;
        while i < self.entries.len()
            invariant
                i <= self.entries@.len(),
                forall|j: int| 0 <= j < i ==> self.entries@[j].0 < key,
            decreases self.entries@.len() - i,
        {
            if self.entries[i].0 >= key {
                return i;
            }
            i = i + 1;
        }
        i
    }

    /// The record stored at `key`, if any.
    pub fn get(&self, key: u64) -> (r: Option<&V>)
        requires
            self.wf(),
        ensures
            match r {
                Some(v) => self@.contains_key(key) && *v == self@[key],
                None => !self@.contains_key(key),
            },
    {
        let i = self.position(key);
        if i < self.entries.len() && self.entries[i].0 == key {
            Some(&self.entries[i].1)
        } else {
            proof {
                if self@.contains_key(key) {
                    let j = choose|j: int| 0 <= j < self.entries@.len() && #[trigger] self.entries@[j].0 == key;
                    if j < i {
                    } else if j > i {
                        assert(self.entries@[i as int].0 < self.entries@[j].0);
                    }
                }
            }
            None
        }
    }

    /// Stores `value` at `key`, replacing any record already there.
    pub fn insert(&mut self, key: u64, value: V)
        requires
            old(self).wf(),
        ensures
            final(self).wf(),
            final(self)@ == old(self)@.insert(key, value),
    {
        let i = self.position(key);
        let ghost old_entries = self.entry_seq();
        let ghost old_model = self.model@;
        if i < self.entries.len() && self.entries[i].0 == key {
            self.entries[i] = (key, value);
            self.model = Ghost(self.model@.insert(key, value));
            proof {
                assert forall|k: u64| self@.contains_key(k) implies exists|j: int|
                    0 <= j < self.entry_seq().len() && #[trigger] self.entry_seq()[j].0 == k by {
                    if k == key {
                        assert(self.entry_seq()[i as int].0 == k);
                    } else {
                        assert(old(self)@.contains_key(k));
                        let j = choose|j: int| 0 <= j < old(self).entry_seq().len() && #[trigger] old(self).entry_seq()[j].0 == k;
                        assert(self.entry_seq()[j].0 == k);
                    }
                }
                assert forall|a: int| 0 <= a < self.entry_seq().len() implies {
                    &&& #[trigger] self@.contains_key(self.entry_seq()[a].0)
                    &&& self@[self.entry_seq()[a].0] == self.entry_seq()[a].1
                } by {
                    if a != i {
                        assert(old(self)@.contains_key(old(self).entry_seq()[a].0));
                        assert(old_entries[a].0 != key) by {
                            if a < i {
                            } else {
                                assert(old_entries[i as int].0 < old_entries[a].0);
                            }
                        }
                    }
                }
            }
        } else {
            self.entries.insert(i, (key, value));
            self.model = Ghost(self.model@.insert(key, value));
            proof {
                let n = self.entry_seq();
                assert forall|a: int, b: int| 0 <= a < b < n.len() implies n[a].0 < n[b].0 by {
                    if b < i {
                    } else if b == i {
                    } else if a < i {
                    } else if a == i {
                        assert(old_entries[i as int].0 <= old_entries[b - 1].0);
                    } else {
                        assert(n[a] == old_entries[a - 1]);
                        assert(n[b] == old_entries[b - 1]);
                    }
                }
                assert forall|k: u64| self@.contains_key(k) implies exists|j: int|
                    0 <= j < self.entry_seq().len() && #[trigger] self.entry_seq()[j].0 == k by {
                    if k == key {
                        assert(n[i as int].0 == k);
                    } else {
                        assert(old(self)@.contains_key(k));
                        let j = choose|j: int| 0 <= j < old(self).entry_seq().len() && #[trigger] old(self).entry_seq()[j].0 == k;
                        if j < i {
                            assert(n[j].0 == k);
                        } else {
                            assert(n[j + 1].0 == k);
                        }
                    }
                }
                assert forall|a: int| 0 <= a < self.entry_seq().len() implies {
                    &&& #[trigger] self@.contains_key(self.entry_seq()[a].0)
                    &&& self@[self.entry_seq()[a].0] == self.entry_seq()[a].1
                } by {
                    if a < i {
                        assert(n[a] == old_entries[a]);
                        assert(old(self)@.contains_key(old(self).entry_seq()[a].0));
                    } else if a > i {
                        assert(n[a] == old_entries[a - 1]);
                        assert(old(self)@.contains_key(old(self).entry_seq()[a - 1].0));
                    }
                }
            }
        }
    }

    /// Removes the record at `key` and returns it, if there was one.
    pub fn remove(&mut self, key: u64) -> (r: Option<V>)
        requires
            old(self).wf(),
        ensures
            final(self).wf(),
            final(self)@ == old(self)@.remove(key),
            r == (if old(self)@.contains_key(key) {
                Some(old(self)@[key])
            } else {
                None::<V>
            }),
    {
        let i = self.position(key);
        let ghost old_entries = self.entry_seq();
        if i < self.entries.len() && self.entries[i].0 == key {
            let (_, v) = self.entries.remove(i);
            self.model = Ghost(self.model@.remove(key));
            proof {
                let n = self.entry_seq();
                assert forall|a: int, b: int| 0 <= a < b < n.len() implies n[a].0 < n[b].0 by {
                    if b < i {
                    } else if a < i {
                        assert(n[b] == old_entries[b + 1]);
                    } else {
                        assert(n[a] == old_entries[a + 1]);
                        assert(n[b] == old_entries[b + 1]);
                    }
                }
                assert forall|k: u64| self@.contains_key(k) implies exists|j: int|
                    0 <= j < self.entry_seq().len() && #[trigger] self.entry_seq()[j].0 == k by {
                    assert(old(self)@.contains_key(k));
                    let j = choose|j: int| 0 <= j < old(self).entry_seq().len() && #[trigger] old(self).entry_seq()[j].0 == k;
                    if j < i {
                        assert(n[j].0 == k);
                    } else {
                        assert(j != i);
                        assert(n[j - 1].0 == k);
                    }
                }
                assert forall|a: int| 0 <= a < self.entry_seq().len() implies {
                    &&& #[trigger] self@.contains_key(self.entry_seq()[a].0)
                    &&& self@[self.entry_seq()[a].0] == self.entry_seq()[a].1
                } by {
                    if a < i {
                        assert(n[a] == old_entries[a]);
                        assert(old(self)@.contains_key(old(self).entry_seq()[a].0));
                    } else {
                        assert(n[a] == old_entries[a + 1]);
                        assert(old(self)@.contains_key(old(self).entry_seq()[a + 1].0));
                        assert(old_entries[i as int].0 < old_entries[a + 1].0);
                    }
                }
                assert(self@ =~= old(self)@.remove(key));
            }
            Some(v)
        } else {
            proof {
                if old(self)@.contains_key(key) {
                    let j = choose|j: int| 0 <= j < old_entries.len() && #[trigger] old_entries[j].0 == key;
                    if j > i {
                        assert(old_entries[i as int].0 < old_entries[j].0);
                    }
                }
                assert(self@ =~= old(self)@.remove(key));
            }
            None
        }
    }
}

} // verus!
