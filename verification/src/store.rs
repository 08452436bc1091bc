//! The entity store: a durable ordered table from `u64` id to record, the one
//! storage shape every entity kind uses.
//!
//! The table is modelled as a `Map<u64, T>` (its view); the entries themselves
//! are held sorted by strictly increasing id, so a scan yields each live entry
//! exactly once, in key order.

use vstd::map::*;
use vstd::prelude::*;

verus! {

/// An ordered id-to-record table supporting point lookup, upsert, delete and
/// full scan. No entity-level validation lives here; it is pure storage.
pub struct Store<T> {
    entries: Vec<(u64, T)>,
}

impl<T> View for Store<T> {
    type V = Map<u64, T>;

    open spec fn view(&self) -> Map<u64, T> {
        Map::new(|k: u64| self.spec_contains(k), |k: u64| self.spec_at(k))
    }
}

impl<T> Store<T> {
    /// The stored entries, in key order.
    pub closed spec fn entry_seq(self) -> Seq<(u64, T)> {
        self.entries@
    }

    /// Well-formed: ids are strictly increasing along the entry sequence,
    /// hence unique.
    pub open spec fn wf(self) -> bool {
        forall|i: int, j: int|
            0 <= i < j < self.entry_seq().len() ==> (#[trigger] self.entry_seq()[i]).0 < (
            #[trigger] self.entry_seq()[j]).0
    }

    /// Some entry carries the id `k`.
    pub open spec fn spec_contains(self, k: u64) -> bool {
        exists|i: int| 0 <= i < self.entry_seq().len() && (#[trigger] self.entry_seq()[i]).0 == k
    }

    /// The index of the entry carrying id `k` (meaningful only when one does).
    pub open spec fn index_of(self, k: u64) -> int {
        choose|i: int| 0 <= i < self.entry_seq().len() && (#[trigger] self.entry_seq()[i]).0 == k
    }

    /// The record stored under id `k` (meaningful only when one is).
    pub open spec fn spec_at(self, k: u64) -> T {
        self.entry_seq()[self.index_of(k)].1
    }

    /// In a well-formed store an id occurs at one index only.
    pub proof fn lemma_key_unique(self, i: int, j: int)
        requires
            self.wf(),
            0 <= i < self.entry_seq().len(),
            0 <= j < self.entry_seq().len(),
            self.entry_seq()[i].0 == self.entry_seq()[j].0,
        ensures
            i == j,
    {
        if i < j {
            assert(self.entry_seq()[i].0 < self.entry_seq()[j].0);
        }
        if j < i {
            assert(self.entry_seq()[j].0 < self.entry_seq()[i].0);
        }
    }

    /// The entry at index `i` is exactly what the view maps its id to.
    pub proof fn lemma_entry_at(self, i: int)
        requires
            self.wf(),
            0 <= i < self.entry_seq().len(),
        ensures
            self@.contains_key(self.entry_seq()[i].0),
            self@[self.entry_seq()[i].0] == self.entry_seq()[i].1,
            self.index_of(self.entry_seq()[i].0) == i,
    {
        let k = self.entry_seq()[i].0;
        assert(self.spec_contains(k));
        let j = self.index_of(k);
        assert(0 <= j < self.entry_seq().len() && self.entry_seq()[j].0 == k);
        self.lemma_key_unique(i, j);
    }

    /// An id the view contains names a unique entry holding the mapped record.
    pub proof fn lemma_contains_entry(self, k: u64)
        requires
            self.wf(),
            self@.contains_key(k),
        ensures
            0 <= self.index_of(k) < self.entry_seq().len(),
            self.entry_seq()[self.index_of(k)].0 == k,
            self.entry_seq()[self.index_of(k)].1 == self@[k],
    {
        assert(self.spec_contains(k));
        let j = self.index_of(k);
        assert(0 <= j < self.entry_seq().len() && self.entry_seq()[j].0 == k);
    }

    /// Entry sequence and view describe the same table: each entry is a view
    /// binding, and each view binding appears as an entry.
    pub proof fn lemma_view_entries(self)
        requires
            self.wf(),
        ensures
            forall|i: int|
                0 <= i < self.entry_seq().len() ==> self@.contains_key(
                    (#[trigger] self.entry_seq()[i]).0,
                ) && self@[self.entry_seq()[i].0] == self.entry_seq()[i].1,
            forall|k: u64| #[trigger]
                self@.contains_key(k) ==> exists|i: int|
                    0 <= i < self.entry_seq().len() && #[trigger] self.entry_seq()[i] == (
                    k,
                    self@[k],
                    ),
    {
        assert forall|i: int| 0 <= i < self.entry_seq().len() implies self@.contains_key(
            (#[trigger] self.entry_seq()[i]).0,
        ) && self@[self.entry_seq()[i].0] == self.entry_seq()[i].1 by {
            self.lemma_entry_at(i);
        }
        assert forall|k: u64| #[trigger] self@.contains_key(k) implies exists|i: int|
            0 <= i < self.entry_seq().len() && #[trigger] self.entry_seq()[i] == (
            k,
            self@[k],
            ) by {
            self.lemma_contains_entry(k);
            let j = self.index_of(k);
            assert(self.entry_seq()[j] == (k, self@[k]));
        }
    }

    /// A fresh, empty store.
    pub fn new() -> (s: Self)
        ensures
            s.wf(),
            s.entry_seq() == Seq::<(u64, T)>::empty(),
            s@ == Map::<u64, T>::empty(),
    {
        let s = Store { entries: Vec::new() };
        proof {
            assert(s@ =~= Map::<u64, T>::empty());
        }
        s
    }

    /// How many records are stored.
    pub fn len(&self) -> (n: usize)
        ensures
            n == self.entry_seq().len(),
    {
        self.entries.len()
    }

    /// Point lookup: the record stored under `id`, if any.
    pub fn get(&self, id: u64) -> (r: Option<&T>)
        requires
            self.wf(),
        ensures
            match r {
                Some(v) => self@.contains_key(id) && *v == self@[id],
                None => !self@.contains_key(id),
            },
    {
        let n = self.entries.len();
        let mut i: usize = 0;
        while i < n
            invariant
                self.wf(),
                n == self.entry_seq().len(),
                0 <= i <= n,
                forall|j: int| 0 <= j < i ==> (#[trigger] self.entry_seq()[j]).0 != id,
            decreases n - i,
        {
            if self.entries[i].0 == id {
                proof {
                    self.lemma_entry_at(i as int);
                }
                return Some(&self.entries[i].1);
            }
            i += 1;
        }
        proof {
            assert(!self.spec_contains(id));
        }
        None
    }

    /// The stored entries in key order, for a full scan.
    pub fn scan(&self) -> (r: &Vec<(u64, T)>)
        ensures
            r@ == self.entry_seq(),
    {
        &self.entries
    }

    /// Insert-or-replace: after the call, `id` maps to `value` and every other
    /// binding is unchanged.
    pub fn put(&mut self, id: u64, value: T)
        requires
            old(self).wf(),
        ensures
            final(self).wf(),
            final(self)@ == old(self)@.insert(id, value),
            old(self)@.contains_key(id) ==> final(self).entry_seq().len() == old(
                self,
            ).entry_seq().len(),
            !old(self)@.contains_key(id) ==> final(self).entry_seq().len() == old(
                self,
            ).entry_seq().len() + 1,
    {
        let n = self.entries.len();
        let mut i: usize = 0;
        while i < n && self.entries[i].0 < id
            invariant
                *self == *old(self),
                self.wf(),
                n == self.entry_seq().len(),
                0 <= i <= n,
                forall|j: int| 0 <= j < i ==> (#[trigger] self.entry_seq()[j]).0 < id,
            decreases n - i,
        {
            i += 1;
        }
        let ghost s = self.entry_seq();
        if i < n && self.entries[i].0 == id {
            proof {
                old(self).lemma_entry_at(i as int);
            }
            self.entries[i] = (id, value);
            proof {
                let s2 = self.entry_seq();
                assert(s2 == s.update(i as int, (id, value)));
                assert(forall|j: int| 0 <= j < s2.len() ==> (#[trigger] s2[j]).0 == s[j].0);
                assert(self.wf());
                let m1 = self@;
                let m2 = old(self)@.insert(id, value);
                assert_maps_equal!(m1, m2, k => {
                    if k == id {
                        assert(s2[i as int].0 == id);
                        assert(self.spec_contains(k));
                        self.lemma_contains_entry(k);
                        self.lemma_key_unique(i as int, self.index_of(k));
                        assert(m1[k] == value);
                    } else {
                        if self.spec_contains(k) {
                            let j = self.index_of(k);
                            self.lemma_contains_entry(k);
                            assert(s[j].0 == k);
                            assert(old(self).spec_contains(k));
                            old(self).lemma_contains_entry(k);
                            old(self).lemma_key_unique(j, old(self).index_of(k));
                            assert(j != i);
                            assert(s2[j].1 == s[j].1);
                            assert(m1[k] == old(self)@[k]);
                        }
                        if old(self).spec_contains(k) {
                            let j = old(self).index_of(k);
                            old(self).lemma_contains_entry(k);
                            assert(s2[j].0 == k);
                            assert(self.spec_contains(k));
                        }
                    }
                });
                assert(self@ == old(self)@.insert(id, value));
            }
        } else {
            proof {
                assert(forall|j: int| i <= j < s.len() ==> id < (#[trigger] s[j]).0);
                if old(self).spec_contains(id) {
                    let j = old(self).index_of(id);
                    old(self).lemma_contains_entry(id);
                    assert(false);
                }
            }
            self.entries.insert(i, (id, value));
            proof {
                let s2 = self.entry_seq();
                assert(s2 == s.insert(i as int, (id, value)));
                assert(s2.len() == s.len() + 1);
                assert(forall|j: int| 0 <= j < i ==> s2[j] == s[j]);
                assert(s2[i as int] == (id, value));
                assert(forall|j: int| i < j < s2.len() ==> s2[j] == s[j - 1]);
                assert forall|a: int, b: int| 0 <= a < b < s2.len() implies (#[trigger] s2[a]).0 < (
                #[trigger] s2[b]).0 by {
                    if a < i && b < i {
                    } else if a == i {
                        assert(s2[b] == s[b - 1]);
                    } else if b == i {
                        assert(s2[a] == s[a]);
                    }
                }
                assert(self.wf());
                let m1 = self@;
                let m2 = old(self)@.insert(id, value);
                assert_maps_equal!(m1, m2, k => {
                    if k == id {
                        assert(s2[i as int].0 == id);
                        assert(self.spec_contains(k));
                        self.lemma_entry_at(i as int);
                        assert(m1[k] == value);
                    } else {
                        if self.spec_contains(k) {
                            let j = self.index_of(k);
                            self.lemma_contains_entry(k);
                            assert(j != i);
                            let j0 = if j < i { j } else { j - 1 };
                            assert(s[j0].0 == k);
                            assert(old(self).spec_contains(k));
                            old(self).lemma_contains_entry(k);
                            old(self).lemma_key_unique(j0, old(self).index_of(k));
                            assert(s2[j].1 == s[j0].1);
                            assert(m1[k] == old(self)@[k]);
                        }
                        if old(self).spec_contains(k) {
                            let j0 = old(self).index_of(k);
                            old(self).lemma_contains_entry(k);
                            let j = if j0 < i { j0 } else { j0 + 1 };
                            assert(s2[j].0 == k);
                            assert(self.spec_contains(k));
                        }
                    }
                });
                assert(self@ == old(self)@.insert(id, value));
            }
        }
    }

    /// Delete: removes and returns the record stored under `id`; every other
    /// binding is unchanged. Absence is reported, not an error.
    pub fn remove(&mut self, id: u64) -> (r: Option<T>)
        requires
            old(self).wf(),
        ensures
            final(self).wf(),
            match r {
                Some(v) => old(self)@.contains_key(id) && v == old(self)@[id] && final(self)@
                    == old(self)@.remove(id) && final(self).entry_seq().len() == old(
                    self,
                ).entry_seq().len() - 1,
                None => !old(self)@.contains_key(id) && *final(self) == *old(self),
            },
    {
        let n = self.entries.len();
        let mut i: usize = 0;
        while i < n
            invariant
                *self == *old(self),
                self.wf(),
                n == self.entry_seq().len(),
                0 <= i <= n,
                forall|j: int| 0 <= j < i ==> (#[trigger] self.entry_seq()[j]).0 != id,
            decreases n - i,
        {
            if self.entries[i].0 == id {
                let ghost s = self.entry_seq();
                proof {
                    old(self).lemma_entry_at(i as int);
                }
                let entry = self.entries.remove(i);
                proof {
                    let s2 = self.entry_seq();
                    assert(s2 == s.remove(i as int));
                    assert(forall|j: int| 0 <= j < i ==> s2[j] == s[j]);
                    assert(forall|j: int| i <= j < s2.len() ==> s2[j] == s[j + 1]);
                    assert forall|a: int, b: int| 0 <= a < b < s2.len() implies (
                    #[trigger] s2[a]).0 < (#[trigger] s2[b]).0 by {}
                    assert(self.wf());
                    let m1 = self@;
                    let m2 = old(self)@.remove(id);
                    assert_maps_equal!(m1, m2, k => {
                        if self.spec_contains(k) {
                            let j = self.index_of(k);
                            self.lemma_contains_entry(k);
                            let j0 = if j < i { j } else { j + 1 };
                            assert(s[j0].0 == k);
                            assert(j0 != i) by {
                                if j0 == i {
                                    old(self).lemma_key_unique(j0, i as int);
                                }
                            }
                            assert(k != id) by {
                                if k == id {
                                    old(self).lemma_key_unique(j0, i as int);
                                }
                            }
                            assert(old(self).spec_contains(k));
                            old(self).lemma_contains_entry(k);
                            old(self).lemma_key_unique(j0, old(self).index_of(k));
                            assert(s2[j].1 == s[j0].1);
                            assert(m1[k] == old(self)@[k]);
                        }
                        if old(self).spec_contains(k) && k != id {
                            let j0 = old(self).index_of(k);
                            old(self).lemma_contains_entry(k);
                            old(self).lemma_key_unique(i as int, i as int);
                            assert(j0 != i) by {
                                if j0 == i {
                                    assert(s[i as int].0 == id);
                                }
                            }
                            let j = if j0 < i { j0 } else { j0 - 1 };
                            assert(s2[j].0 == k);
                            assert(self.spec_contains(k));
                        }
                    });
                    assert(self@ == old(self)@.remove(id));
                }
                return Some(entry.1);
            }
            i += 1;
        }
        proof {
            assert(!self.spec_contains(id));
        }
        None
    }
}

} // verus!
