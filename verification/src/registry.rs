//! A small map from text keys to values, kept as a list of entries with distinct keys.

use vstd::prelude::*;
use crate::text::str_eq;

verus! {

/// Entries keyed by text, no key twice.
pub struct Registry<V> {
    pub entries: Vec<(String, V)>,
}

impl<V> Registry<V> {
    /// No key occurs in two entries.
    pub open spec fn wf(&self) -> bool {
        forall|i: int, j: int|
            0 <= i < self.entries@.len() && 0 <= j < self.entries@.len() && i != j
                ==> #[trigger] self.entries@[i].0@ != #[trigger] self.entries@[j].0@
    }

    /// Whether some entry has key `k`.
    pub open spec fn has(&self, k: Seq<char>) -> bool {
        exists|i: int| 0 <= i < self.entries@.len() && #[trigger] self.entries@[i].0@ == k
    }

    /// The position of the entry with key `k`.
    pub open spec fn index_of(&self, k: Seq<char>) -> int {
        choose|i: int| 0 <= i < self.entries@.len() && #[trigger] self.entries@[i].0@ == k
    }

    /// The entries as a map from key to value.
    pub open spec fn map(&self) -> Map<Seq<char>, V> {
        Map::new(|k: Seq<char>| self.has(k), |k: Seq<char>| self.entries@[self.index_of(k)].1)
    }

    /// An empty registry.
    pub fn new() -> (r: Registry<V>)
        ensures
            r.wf(),
            r.map() == Map::<Seq<char>, V>::empty(),
    {
        let r = Registry { entries: Vec::new() };
        assert(r.map() =~= Map::<Seq<char>, V>::empty());
        r
    }

    /// The position of the entry with key `k`, if there is one.
    pub fn find(&self, k: &str) -> (r: Option<usize>)
        requires
            self.wf(),
        ensures
            match r {
                Some(i) => i < self.entries@.len() && self.entries@[i as int].0@ == k@
                    && self.has(k@) && self.index_of(k@) == i,
                None => !self.has(k@),
            },
    {
        let mut i: usize = 0;
        while i < self.entries.len()
            invariant
                self.wf(),
                i <= self.entries@.len(),
                forall|j: int| 0 <= j < i ==> #[trigger] self.entries@[j].0@ != k@,
            decreases self.entries.len() - i,
        {
            if str_eq(self.entries[i].0.as_str(), k) {
                assert(self.has(k@));
                let ghost c = self.index_of(k@);
                assert(self.entries@[c].0@ == k@);
                assert(self.entries@[i as int].0@ == k@);
                assert(c == i as int);
                return Some(i);
            }
            i += 1;
        }
        None
    }

    /// The value stored for `k`, if any.
    pub fn get(&self, k: &str) -> (r: Option<&V>)
        requires
            self.wf(),
        ensures
            match r {
                Some(v) => self.map().contains_key(k@) && *v == self.map()[k@],
                None => !self.map().contains_key(k@),
            },
    {
        match self.find(k) {
            Some(i) => Some(&self.entries[i].1),
            None => None,
        }
    }

    /// Stores `v` under `k`, replacing any value stored there.
    pub fn insert(&mut self, k: String, v: V)
        requires
            old(self).wf(),
        ensures
            final(self).wf(),
            final(self).map() == old(self).map().insert(k@, v),
    {
        let ghost key = k@;
        match self.find(k.as_str()) {
            Some(i) => {
                let ghost before = *self;
                self.entries.set(i, (k, v));
                assert forall|i1: int, j1: int|
                    0 <= i1 < self.entries@.len() && 0 <= j1 < self.entries@.len() && i1 != j1
                        implies #[trigger] self.entries@[i1].0@ != #[trigger] self.entries@[j1].0@ by {
                    assert(self.entries@[i1].0@ == before.entries@[i1].0@);
                    assert(self.entries@[j1].0@ == before.entries@[j1].0@);
                }
                assert forall|q: Seq<char>| self.has(q) <==> before.has(q) by {
                    if self.has(q) {
                        let w = choose|w: int| 0 <= w < self.entries@.len() && #[trigger] self.entries@[w].0@ == q;
                        assert(before.entries@[w].0@ == q);
                    }
                    if before.has(q) {
                        let w = choose|w: int| 0 <= w < before.entries@.len() && #[trigger] before.entries@[w].0@ == q;
                        assert(self.entries@[w].0@ == q);
                    }
                }
                assert forall|q: Seq<char>| self.has(q) implies self.index_of(q) == before.index_of(q) by {
                    let a = self.index_of(q);
                    let b = before.index_of(q);
                    assert(before.entries@[a].0@ == q);
                }
                assert(self.map() =~= before.map().insert(key, v));
            },
            None => {
                let ghost before = *self;
                self.entries.push((k, v));
                let ghost n: int = self.entries@.len() - 1;
                assert forall|i1: int, j1: int|
                    0 <= i1 < self.entries@.len() && 0 <= j1 < self.entries@.len() && i1 != j1
                        implies #[trigger] self.entries@[i1].0@ != #[trigger] self.entries@[j1].0@ by {
                    if i1 < n && j1 < n {
                        assert(self.entries@[i1] == before.entries@[i1]);
                        assert(self.entries@[j1] == before.entries@[j1]);
                    } else if i1 == n {
                        assert(self.entries@[j1] == before.entries@[j1]);
                    } else {
                        assert(self.entries@[i1] == before.entries@[i1]);
                    }
                }
                assert forall|q: Seq<char>| self.has(q) <==> (before.has(q) || q == key) by {
                    if self.has(q) {
                        let w = choose|w: int| 0 <= w < self.entries@.len() && #[trigger] self.entries@[w].0@ == q;
                        if w < n {
                            assert(before.entries@[w] == self.entries@[w]);
                        }
                    }
                    if before.has(q) {
                        let w = choose|w: int| 0 <= w < before.entries@.len() && #[trigger] before.entries@[w].0@ == q;
                        assert(self.entries@[w] == before.entries@[w]);
                    }
                    if q == key {
                        assert(self.entries@[n].0@ == key);
                    }
                }
                assert forall|q: Seq<char>| before.has(q) implies self.index_of(q) == before.index_of(q) by {
                    let a = self.index_of(q);
                    let b = before.index_of(q);
                    assert(self.entries@[b] == before.entries@[b]);
                    if a == n {
                        assert(self.entries@[n].0@ == key);
                    } else {
                        assert(self.entries@[a] == before.entries@[a]);
                    }
                }
                assert(self.has(key));
                assert(self.index_of(key) == n) by {
                    let a = self.index_of(key);
                    if a != n {
                        assert(self.entries@[a] == before.entries@[a]);
                    }
                }
                assert(self.map() =~= before.map().insert(key, v));
            },
        }
    }

    /// Removes the value stored under `k`, if any.
    pub fn remove(&mut self, k: &str)
        requires
            old(self).wf(),
        ensures
            final(self).wf(),
            final(self).map() == old(self).map().remove(k@),
    {
        match self.find(k) {
            Some(i) => {
                let ghost before = *self;
                let _ = self.entries.remove(i);
                let ghost ii = i as int;
                assert forall|i1: int, j1: int|
                    0 <= i1 < self.entries@.len() && 0 <= j1 < self.entries@.len() && i1 != j1
                        implies #[trigger] self.entries@[i1].0@ != #[trigger] self.entries@[j1].0@ by {
                    let a = if i1 < ii { i1 } else { i1 + 1 };
                    let b = if j1 < ii { j1 } else { j1 + 1 };
                    assert(self.entries@[i1] == before.entries@[a]);
                    assert(self.entries@[j1] == before.entries@[b]);
                }
                assert forall|q: Seq<char>| self.has(q) <==> (before.has(q) && q != k@) by {
                    if self.has(q) {
                        let w = choose|w: int| 0 <= w < self.entries@.len() && #[trigger] self.entries@[w].0@ == q;
                        let a = if w < ii { w } else { w + 1 };
                        assert(self.entries@[w] == before.entries@[a]);
                    }
                    if before.has(q) && q != k@ {
                        let w = choose|w: int| 0 <= w < before.entries@.len() && #[trigger] before.entries@[w].0@ == q;
                        if w < ii {
                            assert(self.entries@[w] == before.entries@[w]);
                        } else {
                            assert(w != ii);
                            assert(self.entries@[w - 1] == before.entries@[w]);
                        }
                    }
                }
                assert forall|q: Seq<char>| self.has(q) implies self.entries@[self.index_of(q)].1
                    == before.entries@[before.index_of(q)].1 by {
                    let a = self.index_of(q);
                    let orig = if a < ii { a } else { a + 1 };
                    assert(self.entries@[a] == before.entries@[orig]);
                    assert(before.index_of(q) == orig);
                }
                assert(self.map() =~= before.map().remove(k@));
            },
            None => {
                assert(self.map() =~= self.map().remove(k@));
            },
        }
    }
}

} // verus!
