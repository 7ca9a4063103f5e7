//! A string-keyed association map with verified map semantics.
//!
//! Entries live in a vector whose keys are pairwise distinct; the view is a
//! mathematical `Map` from key characters to values. Components of the crate
//! use it wherever they keep per-key state (endpoints, budgets, buckets,
//! tenants, cache entries).

use vstd::prelude::*;

verus! {

use crate::strutil::str_eq;

pub struct KeyMap<V> {
    entries: Vec<(String, V)>,
}

impl<V> KeyMap<V> {
    /// The entries in insertion order, with keys as character sequences.
    pub closed spec fn entries_seq(&self) -> Seq<(Seq<char>, V)> {
        Seq::new(self.entries@.len(), |i: int| (self.entries@[i].0@, self.entries@[i].1))
    }

    /// Keys are pairwise distinct.
    pub open spec fn wf(&self) -> bool {
        forall|i: int, j: int|
            0 <= i < j < self.entries_seq().len() ==> #[trigger] self.entries_seq()[i].0
                != #[trigger] self.entries_seq()[j].0
    }

    pub open spec fn contains_key(&self, k: Seq<char>) -> bool {
        exists|i: int| 0 <= i < self.entries_seq().len() && #[trigger] self.entries_seq()[i].0 == k
    }

    pub open spec fn index_of(&self, k: Seq<char>) -> int {
        choose|i: int| 0 <= i < self.entries_seq().len() && #[trigger] self.entries_seq()[i].0 == k
    }

    pub open spec fn val_of(&self, k: Seq<char>) -> V {
        self.entries_seq()[self.index_of(k)].1
    }

    pub open spec fn num_entries(&self) -> nat {
        self.entries_seq().len()
    }

    /// With distinct keys, any entry holding `k` is the entry `index_of(k)` picks.
    pub proof fn lemma_index_unique(&self, k: Seq<char>, i: int)
        requires
            self.wf(),
            0 <= i < self.entries_seq().len(),
            self.entries_seq()[i].0 == k,
        ensures
            self.contains_key(k),
            self.index_of(k) == i,
    {
        assert(self.contains_key(k));
        let j = self.index_of(k);
        if i != j {
            if i < j {
                assert(self.entries_seq()[i].0 != self.entries_seq()[j].0);
            } else {
                assert(self.entries_seq()[j].0 != self.entries_seq()[i].0);
            }
        }
    }

    pub fn new() -> (r: Self)
        ensures
            r.wf(),
            r.num_entries() == 0,
            forall|k: Seq<char>| !r.contains_key(k),
    {
        KeyMap { entries: Vec::new() }
    }

    pub fn len(&self) -> (r: usize)
        ensures
            r == self.num_entries(),
    {
        self.entries.len()
    }

    /// The key of the entry at a position, for callers that walk the map.
    pub fn key_at(&self, i: usize) -> (r: &String)
        requires
            i < self.num_entries(),
        ensures
            r@ == self.entries_seq()[i as int].0,
    {
        &self.entries[i].0
    }

    /// The value of the entry at a position, for callers that walk the map.
    pub fn val_at(&self, i: usize) -> (r: &V)
        requires
            i < self.num_entries(),
        ensures
            *r == self.entries_seq()[i as int].1,
    {
        &self.entries[i].1
    }

    pub fn get(&self, k: &str) -> (r: Option<&V>)
        requires
            self.wf(),
        ensures
            self.contains_key(k@) ==> (r matches Some(v) && *v == self.val_of(k@)),
            !self.contains_key(k@) ==> r is None,
    {
        let n = self.entries.len();
        let mut i: usize = 0;
        while i < n
            invariant
                self.wf(),
                n == self.num_entries(),
                i <= n,
                forall|j: int| 0 <= j < i ==> #[trigger] self.entries_seq()[j].0 != k@,
            decreases n - i,
        {
            if str_eq(self.entries[i].0.as_str(), k) {
                proof {
                    self.lemma_index_unique(k@, i as int);
                }
                return Some(&self.entries[i].1);
            }
            i += 1;
        }
        return None;
    }

    /// Insert or overwrite; the rest of the map is untouched.
    pub fn insert(&mut self, k: String, v: V)
        requires
            old(self).wf(),
        ensures
            final(self).wf(),
            final(self).contains_key(k@),
            final(self).val_of(k@) == v,
            forall|k2: Seq<char>|
                k2 != k@ ==> #[trigger] final(self).contains_key(k2) == old(self).contains_key(k2),
            forall|k2: Seq<char>|
                k2 != k@ && old(self).contains_key(k2) ==> #[trigger] final(self).val_of(k2) == old(
                    self,
                ).val_of(k2),
            final(self).num_entries() == old(self).num_entries() + (if old(self).contains_key(k@) {
                0int
            } else {
                1int
            }),
            old(self).contains_key(k@) ==> final(self).entries_seq() == old(
                self,
            ).entries_seq().update(old(self).index_of(k@), (k@, v)),
            !old(self).contains_key(k@) ==> final(self).entries_seq() == old(
                self,
            ).entries_seq().push((k@, v)),
    {
        let n = self.entries.len();
        let mut i: usize = 0;
        while i < n
            invariant
                old(self) == self,
                self.wf(),
                n == self.num_entries(),
                i <= n,
                forall|j: int| 0 <= j < i ==> #[trigger] self.entries_seq()[j].0 != k@,
            decreases n - i,
        {
            if str_eq(self.entries[i].0.as_str(), k.as_str()) {
                proof {
                    self.lemma_index_unique(k@, i as int);
                }
                self.entries[i] = (k, v);
                proof {
                    let ghost os = old(self).entries_seq();
                    let ghost ns = self.entries_seq();
                    assert(ns =~= os.update(i as int, (k@, v)));
                    assert forall|i2: int, j2: int|
                        0 <= i2 < j2 < ns.len() implies #[trigger] ns[i2].0 != #[trigger] ns[j2].0 by {
                        assert(os[i2].0 != os[j2].0);
                    }
                    self.lemma_index_unique(k@, i as int);
                    assert forall|k2: Seq<char>| k2 != k@ implies #[trigger] self.contains_key(k2)
                        == old(self).contains_key(k2) by {
                        if old(self).contains_key(k2) {
                            let j = old(self).index_of(k2);
                            assert(ns[j].0 == k2);
                        }
                        if self.contains_key(k2) {
                            let j = self.index_of(k2);
                            assert(os[j].0 == k2);
                        }
                    }
                    assert forall|k2: Seq<char>|
                        k2 != k@ && old(self).contains_key(k2) implies #[trigger] self.val_of(k2)
                        == old(self).val_of(k2) by {
                        let j = old(self).index_of(k2);
                        old(self).lemma_index_unique(k2, j);
                        assert(ns[j].0 == k2);
                        self.lemma_index_unique(k2, j);
                    }
                }
                return ;
            }
            i += 1;
        }
        self.entries.push((k, v));
        proof {
            let ghost os = old(self).entries_seq();
            let ghost ns = self.entries_seq();
            assert(ns =~= os.push((k@, v)));
            assert forall|i2: int, j2: int|
                0 <= i2 < j2 < ns.len() implies #[trigger] ns[i2].0 != #[trigger] ns[j2].0 by {
                if j2 < os.len() {
                    assert(os[i2].0 != os[j2].0);
                } else {
                    assert(ns[j2].0 == k@);
                    assert(os[i2].0 != k@);
                }
            }
            self.lemma_index_unique(k@, os.len() as int);
            assert(!old(self).contains_key(k@));
            assert forall|k2: Seq<char>| k2 != k@ implies #[trigger] self.contains_key(k2) == old(
                self,
            ).contains_key(k2) by {
                if old(self).contains_key(k2) {
                    let j = old(self).index_of(k2);
                    assert(ns[j].0 == k2);
                }
                if self.contains_key(k2) {
                    let j = self.index_of(k2);
                    assert(j < os.len());
                    assert(os[j].0 == k2);
                }
            }
            assert forall|k2: Seq<char>|
                k2 != k@ && old(self).contains_key(k2) implies #[trigger] self.val_of(k2) == old(
                    self,
                ).val_of(k2) by {
                let j = old(self).index_of(k2);
                old(self).lemma_index_unique(k2, j);
                assert(ns[j].0 == k2);
                self.lemma_index_unique(k2, j);
            }
        }
    }

    /// Remove a key; returns its value when it was present.
    pub fn remove(&mut self, k: &str) -> (r: Option<V>)
        requires
            old(self).wf(),
        ensures
            final(self).wf(),
            !final(self).contains_key(k@),
            old(self).contains_key(k@) ==> (r matches Some(v) && v == old(self).val_of(k@)
                && final(self).num_entries() == old(self).num_entries() - 1),
            !old(self).contains_key(k@) ==> (r is None && *final(self) == *old(self)),
            old(self).contains_key(k@) ==> final(self).entries_seq() == old(
                self,
            ).entries_seq().subrange(0, old(self).index_of(k@)) + old(self).entries_seq().subrange(
                old(self).index_of(k@) + 1,
                old(self).entries_seq().len() as int,
            ),
            forall|k2: Seq<char>|
                k2 != k@ ==> #[trigger] final(self).contains_key(k2) == old(self).contains_key(k2),
            forall|k2: Seq<char>|
                k2 != k@ && old(self).contains_key(k2) ==> #[trigger] final(self).val_of(k2) == old(
                    self,
                ).val_of(k2),
    {
        let n = self.entries.len();
        let mut i: usize = 0;
        while i < n
            invariant
                old(self) == self,
                self.wf(),
                n == self.num_entries(),
                i <= n,
                forall|j: int| 0 <= j < i ==> #[trigger] self.entries_seq()[j].0 != k@,
            decreases n - i,
        {
            if str_eq(self.entries[i].0.as_str(), k) {
                proof {
                    self.lemma_index_unique(k@, i as int);
                }
                let (_, v) = self.entries.remove(i);
                proof {
                    let ghost os = old(self).entries_seq();
                    let ghost ns = self.entries_seq();
                    assert(ns =~= os.subrange(0, i as int) + os.subrange(
                        i + 1,
                        os.len() as int,
                    ));
                    assert forall|i2: int, j2: int|
                        0 <= i2 < j2 < ns.len() implies #[trigger] ns[i2].0 != #[trigger] ns[j2].0 by {
                        let oi = if i2 < i { i2 } else { i2 + 1 };
                        let oj = if j2 < i { j2 } else { j2 + 1 };
                        assert(ns[i2] == os[oi]);
                        assert(ns[j2] == os[oj]);
                        assert(os[oi].0 != os[oj].0);
                    }
                    assert forall|k2: Seq<char>| self.contains_key(k2) implies k2 != k@ && old(
                        self,
                    ).contains_key(k2) && self.val_of(k2) == old(self).val_of(k2) by {
                        let j = self.index_of(k2);
                        self.lemma_index_unique(k2, j);
                        let oj = if j < i { j } else { j + 1 };
                        assert(ns[j] == os[oj]);
                        old(self).lemma_index_unique(k2, oj);
                    }
                    assert forall|k2: Seq<char>|
                        k2 != k@ && old(self).contains_key(k2) implies #[trigger] self.contains_key(
                        k2,
                    ) by {
                        let oj = old(self).index_of(k2);
                        old(self).lemma_index_unique(k2, oj);
                        let j = if oj < i { oj } else { oj - 1 };
                        assert(ns[j] == os[oj]);
                        assert(ns[j].0 == k2);
                    }
                }
                return Some(v);
            }
            i += 1;
        }
        return None;
    }
}

} // verus!
