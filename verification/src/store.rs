use vstd::prelude::*;

verus! {

/// A key usable in a [`Table`]: copyable, with an executable equality test
/// that agrees with structural equality. Two keys are equal exactly when they
/// denote the same slot, mirroring the type-identifier invariant of the store.
pub trait StoreKey: Sized + Copy {
    /// Decides structural equality of two keys.
    fn key_eq(&self, other: &Self) -> (r: bool)
        ensures
            r == (*self == *other),
    ;
}

impl StoreKey for u64 {
    fn key_eq(&self, other: &u64) -> (r: bool)
        ensures
            r == (*self == *other),
    {
        *self == *other
    }
}

/// A keyed store: a sequence of entries with pairwise-distinct keys.
///
/// This is the closed, verifiable form of a type-erased map: a lookup by
/// key either yields the one value registered under that key or reports
/// that the key was never registered.
pub struct Table<K, V> {
    entries: Vec<(K, V)>,
}

impl<K: StoreKey, V> Table<K, V> {
    /// The entries, in insertion order.
    pub closed spec fn entry_seq(&self) -> Seq<(K, V)> {
        self.entries@
    }

    /// Keys are pairwise distinct.
    pub open spec fn wf(&self) -> bool {
        forall|i: int, j: int|
            0 <= i < j < self.entry_seq().len() ==> (#[trigger] self.entry_seq()[i]).0 != (
            #[trigger] self.entry_seq()[j]).0
    }

    /// Whether some entry is registered under `k`.
    pub open spec fn contains_spec(&self, k: K) -> bool {
        exists|i: int| 0 <= i < self.entry_seq().len() && (#[trigger] self.entry_seq()[i]).0 == k
    }

    /// The index of the entry registered under `k`.
    pub closed spec fn index_of_spec(&self, k: K) -> int {
        choose|i: int| 0 <= i < self.entry_seq().len() && (#[trigger] self.entry_seq()[i]).0 == k
    }

    /// The value registered under `k` (meaningful when `contains_spec(k)`).
    pub open spec fn get_spec(&self, k: K) -> V {
        self.entry_seq()[self.index_of_spec(k)].1
    }

    /// An entry at `i` with key `k` is the entry the lookup functions see.
    pub proof fn lemma_get_at(&self, k: K, i: int)
        requires
            self.wf(),
            0 <= i < self.entry_seq().len(),
            self.entry_seq()[i].0 == k,
        ensures
            self.contains_spec(k),
            self.index_of_spec(k) == i,
            self.get_spec(k) == self.entry_seq()[i].1,
    {
        assert(self.contains_spec(k));
        let j = self.index_of_spec(k);
        assert(0 <= j < self.entry_seq().len() && self.entry_seq()[j].0 == k);
        if i < j {
            assert(self.entry_seq()[i].0 != self.entry_seq()[j].0);
        } else if j < i {
            assert(self.entry_seq()[j].0 != self.entry_seq()[i].0);
        }
    }

    /// An empty table.
    pub fn new() -> (r: Self)
        ensures
            r.wf(),
            r.entry_seq() == Seq::<(K, V)>::empty(),
            forall|k: K| !r.contains_spec(k),
    {
        Table { entries: Vec::new() }
    }

    /// How many entries are registered.
    pub fn len(&self) -> (r: usize)
        ensures
            r == self.entry_seq().len(),
    {
        self.entries.len()
    }

    /// The entry at position `i`, in insertion order.
    pub fn entry_at(&self, i: usize) -> (r: &(K, V))
        requires
            i < self.entry_seq().len(),
        ensures
            *r == self.entry_seq()[i as int],
    {
        &self.entries[i]
    }

    /// Gives up the table as its entry list, in insertion order.
    pub fn into_entries(self) -> (r: Vec<(K, V)>)
        ensures
            r@ == self.entry_seq(),
    {
        self.entries
    }

    fn find(&self, k: &K) -> (r: Option<usize>)
        ensures
            match r {
                Some(i) => i < self.entry_seq().len() && self.entry_seq()[i as int].0 == *k,
                None => !self.contains_spec(*k),
            },
    {
        let mut i: usize = 0;
        while i < self.entries.len()
            invariant
                i <= self.entries@.len(),
                forall|j: int| 0 <= j < i ==> (#[trigger] self.entries@[j]).0 != *k,
            decreases self.entries@.len() - i,
        {
            if self.entries[i].0.key_eq(k) {
                return Some(i);
            }
            i += 1;
        }
        None
    }

    /// Whether a value is registered under `k`.
    pub fn contains(&self, k: &K) -> (r: bool)
        requires
            self.wf(),
        ensures
            r == self.contains_spec(*k),
    {
        match self.find(k) {
            Some(i) => {
                proof {
                    self.lemma_get_at(*k, i as int);
                }
                true
            }
            None => false,
        }
    }

    /// The value registered under `k`.
    pub fn get(&self, k: &K) -> (r: &V)
        requires
            self.wf(),
            self.contains_spec(*k),
        ensures
            *r == self.get_spec(*k),
    {
        let i: usize = self.find(k).unwrap();
        proof {
            self.lemma_get_at(*k, i as int);
        }
        &self.entries[i].1
    }

    /// The value registered under `k`, or `None` when `k` was never registered.
    pub fn try_get(&self, k: &K) -> (r: Option<&V>)
        requires
            self.wf(),
        ensures
            match r {
                Some(v) => self.contains_spec(*k) && *v == self.get_spec(*k),
                None => !self.contains_spec(*k),
            },
    {
        match self.find(k) {
            Some(i) => {
                proof {
                    self.lemma_get_at(*k, i as int);
                }
                Some(&self.entries[i].1)
            }
            None => None,
        }
    }

    /// `post` is `pre` with the entry under `k` replaced by `v`, and nothing else.
    pub open spec fn updated_at(pre: Self, post: Self, k: K, v: V) -> bool {
        post.entry_seq() == pre.entry_seq().update(pre.index_of_spec(k), (k, v))
    }

    /// What a single-entry update means for the lookup functions: the key `k`
    /// now holds `v`; every other key keeps its registration and value.
    pub proof fn lemma_updated(pre: Self, post: Self, k: K, v: V)
        requires
            pre.wf(),
            pre.contains_spec(k),
            Self::updated_at(pre, post, k, v),
        ensures
            post.wf(),
            post.entry_seq().len() == pre.entry_seq().len(),
            forall|k2: K| post.contains_spec(k2) == pre.contains_spec(k2),
            post.get_spec(k) == v,
            forall|k2: K|
                k2 != k && pre.contains_spec(k2) ==> post.get_spec(k2) == pre.get_spec(k2),
    {
        let i: int = pre.index_of_spec(k);
        pre.lemma_get_at(k, i);
        assert forall|a: int, b: int|
            0 <= a < b < post.entry_seq().len() implies (#[trigger] post.entry_seq()[a]).0 != (
        #[trigger] post.entry_seq()[b]).0 by {
            assert(post.entry_seq()[a].0 == pre.entry_seq()[a].0);
            assert(post.entry_seq()[b].0 == pre.entry_seq()[b].0);
        }
        assert forall|k2: K| post.contains_spec(k2) == pre.contains_spec(k2) by {
            if pre.contains_spec(k2) {
                let j: int = pre.index_of_spec(k2);
                assert(pre.entry_seq()[j].0 == k2);
                assert(post.entry_seq()[j].0 == k2);
            }
            if post.contains_spec(k2) {
                let j = choose|j: int|
                    0 <= j < post.entry_seq().len() && post.entry_seq()[j].0 == k2;
                assert(pre.entry_seq()[j].0 == k2);
            }
        }
        post.lemma_get_at(k, i);
        assert forall|k2: K|
            k2 != k && pre.contains_spec(k2) implies post.get_spec(k2) == pre.get_spec(k2) by {
            let j: int = pre.index_of_spec(k2);
            pre.lemma_get_at(k2, j);
            assert(j != i);
            assert(post.entry_seq()[j] == pre.entry_seq()[j]);
            post.lemma_get_at(k2, j);
        }
    }

    /// Exclusive access to the value registered under `k`: the returned
    /// reference reads the registered value, and whatever is left in it is
    /// the one change made to the table (see [`Table::lemma_updated`]).
    pub fn get_mut(&mut self, k: &K) -> (r: &mut V)
        requires
            old(self).wf(),
            old(self).contains_spec(*k),
        ensures
            *r == old(self).get_spec(*k),
            Self::updated_at(*old(self), *final(self), *k, *final(r)),
    {
        let i: usize = self.find(k).unwrap();
        proof {
            self.lemma_get_at(*k, i as int);
        }
        &mut self.entries[i].1
    }

    /// Registers `v` under the fresh key `k`, at the end of the entry list.
    pub fn insert_new(&mut self, k: K, v: V)
        requires
            old(self).wf(),
            !old(self).contains_spec(k),
        ensures
            final(self).wf(),
            final(self).entry_seq() == old(self).entry_seq().push((k, v)),
            forall|k2: K|
                final(self).contains_spec(k2) == (k2 == k || old(self).contains_spec(k2)),
            final(self).get_spec(k) == v,
            forall|k2: K|
                k2 != k && old(self).contains_spec(k2) ==> final(self).get_spec(k2) == old(
                self,
                ).get_spec(k2),
    {
        let ghost pre = *self;
        let ghost n = pre.entry_seq().len() as int;
        self.entries.push((k, v));
        proof {
            let fin = *self;
            assert(fin.entry_seq() == pre.entry_seq().push((k, v)));
            assert forall|i: int| 0 <= i < n implies (#[trigger] fin.entry_seq()[i]).0 != k by {
                if fin.entry_seq()[i].0 == k {
                    assert(pre.entry_seq()[i].0 == k);
                    assert(pre.contains_spec(k));
                }
            }
            assert(fin.wf());
            fin.lemma_get_at(k, n);
            assert forall|k2: K|
                fin.contains_spec(k2) == (k2 == k || pre.contains_spec(k2)) by {
                if pre.contains_spec(k2) {
                    let j: int = pre.index_of_spec(k2);
                    assert(fin.entry_seq()[j].0 == k2);
                }
                if fin.contains_spec(k2) && k2 != k {
                    let j = choose|j: int|
                        0 <= j < fin.entry_seq().len() && fin.entry_seq()[j].0 == k2;
                    assert(j != n);
                    assert(pre.entry_seq()[j].0 == k2);
                }
                if k2 == k {
                    assert(fin.entry_seq()[n].0 == k2);
                }
            }
            assert forall|k2: K|
                k2 != k && pre.contains_spec(k2) implies fin.get_spec(k2) == pre.get_spec(
                k2,
            ) by {
                let j: int = pre.index_of_spec(k2);
                assert(pre.entry_seq()[j].0 == k2);
                assert(fin.entry_seq()[j].0 == k2);
                fin.lemma_get_at(k2, j);
                pre.lemma_get_at(k2, j);
            }
        }
    }

    /// Removes and returns the value registered under `k`. Every other entry
    /// keeps its key and value.
    pub fn remove(&mut self, k: &K) -> (r: V)
        requires
            old(self).wf(),
            old(self).contains_spec(*k),
        ensures
            final(self).wf(),
            final(self).entry_seq().len() == old(self).entry_seq().len() - 1,
            r == old(self).get_spec(*k),
            !final(self).contains_spec(*k),
            forall|k2: K|
                k2 != *k ==> final(self).contains_spec(k2) == old(self).contains_spec(k2),
            forall|k2: K|
                k2 != *k && old(self).contains_spec(k2) ==> final(self).get_spec(k2) == old(
                self,
                ).get_spec(k2),
    {
        let i: usize = self.find(k).unwrap();
        proof {
            self.lemma_get_at(*k, i as int);
        }
        let ghost pre = *self;
        let entry = self.entries.remove(i);
        proof {
            let fin = *self;
            let n: int = pre.entry_seq().len() as int;
            assert(fin.entry_seq() == pre.entry_seq().remove(i as int));
            assert forall|a: int, b: int|
                0 <= a < b < fin.entry_seq().len() implies (#[trigger] fin.entry_seq()[a]).0 != (
            #[trigger] fin.entry_seq()[b]).0 by {
                let a0 = if a < i { a } else { a + 1 };
                let b0 = if b < i { b } else { b + 1 };
                assert(fin.entry_seq()[a] == pre.entry_seq()[a0]);
                assert(fin.entry_seq()[b] == pre.entry_seq()[b0]);
            }
            assert(fin.wf());
            if fin.contains_spec(*k) {
                let j = choose|j: int|
                    0 <= j < fin.entry_seq().len() && fin.entry_seq()[j].0 == *k;
                let j0 = if j < i { j } else { j + 1 };
                assert(pre.entry_seq()[j0].0 == *k);
                pre.lemma_get_at(*k, j0);
                assert(j0 == i);
                assert(false);
            }
            assert forall|k2: K|
                k2 != *k implies fin.contains_spec(k2) == pre.contains_spec(k2) by {
                if pre.contains_spec(k2) {
                    let j: int = pre.index_of_spec(k2);
                    assert(pre.entry_seq()[j].0 == k2);
                    assert(j != i);
                    let j2 = if j < i { j } else { j - 1 };
                    assert(fin.entry_seq()[j2] == pre.entry_seq()[j]);
                }
                if fin.contains_spec(k2) {
                    let j = choose|j: int|
                        0 <= j < fin.entry_seq().len() && fin.entry_seq()[j].0 == k2;
                    let j0 = if j < i { j } else { j + 1 };
                    assert(pre.entry_seq()[j0].0 == k2);
                }
            }
            assert forall|k2: K|
                k2 != *k && pre.contains_spec(k2) implies fin.get_spec(k2) == pre.get_spec(
                k2,
            ) by {
                let j: int = pre.index_of_spec(k2);
                pre.lemma_get_at(k2, j);
                assert(j != i);
                let j2 = if j < i { j } else { j - 1 };
                assert(fin.entry_seq()[j2] == pre.entry_seq()[j]);
                fin.lemma_get_at(k2, j2);
            }
        }
        entry.1
    }
}

} // verus!
