use vstd::prelude::*;

verus! {

/// The index at which `k` sits in `keys`, as picked by `choose`; with
/// distinct keys it is the only such index.
pub open spec fn key_index(keys: Seq<u32>, k: u32) -> int {
    choose|i: int| 0 <= i < keys.len() && keys[i] == k
}

/// An id-keyed table: a map from ids to values, stored as two parallel
/// vectors so that verified code can also walk its entries in a fixed
/// order.
pub struct Table<V> {
    pub keys: Vec<u32>,
    pub vals: Vec<V>,
}

impl<V> View for Table<V> {
    type V = Map<u32, V>;

    open spec fn view(&self) -> Map<u32, V> {
        Map::new(
            |k: u32| self.keys@.contains(k),
            |k: u32| self.vals@[key_index(self.keys@, k)],
        )
    }
}

impl<V> Table<V> {
    /// The two vectors run in parallel and no id repeats.
    pub open spec fn wf(self) -> bool {
        &&& self.keys@.len() == self.vals@.len()
        &&& forall|i: int, j: int|
            0 <= i < j < self.keys@.len() ==> self.keys@[i] != self.keys@[j]
    }

    /// The entry at slot `i` is the table's entry for its id.
    pub proof fn lemma_slot(self, i: int)
        requires
            self.wf(),
            0 <= i < self.keys@.len(),
        ensures
            key_index(self.keys@, self.keys@[i]) == i,
            self@.dom().contains(self.keys@[i]),
            self@[self.keys@[i]] == self.vals@[i],
    {
        let k = self.keys@[i];
        assert(self.keys@.contains(k));
        let j = key_index(self.keys@, k);
        assert(0 <= j < self.keys@.len() && self.keys@[j] == k);
        if i < j {
            assert(self.keys@[i] != self.keys@[j]);
        } else if j < i {
            assert(self.keys@[j] != self.keys@[i]);
        }
    }

    pub fn new() -> (r: Self)
        ensures
            r.wf(),
            r@ == Map::<u32, V>::empty(),
    {
        let r = Self { keys: Vec::new(), vals: Vec::new() };
        proof {
            assert(r@ =~= Map::<u32, V>::empty());
        }
        r
    }

    /// How many entries the table holds.
    pub fn entry_count(&self) -> (r: usize)
        ensures
            r == self.keys@.len(),
    {
        self.keys.len()
    }

    /// The id stored at slot `i`.
    pub fn key_at(&self, i: usize) -> (r: u32)
        requires
            self.wf(),
            i < self.keys@.len(),
        ensures
            r == self.keys@[i as int],
            self@.dom().contains(r),
            self@[r] == self.vals@[i as int],
    {
        proof {
            self.lemma_slot(i as int);
        }
        self.keys[i]
    }

    /// The value stored at slot `i`.
    pub fn val_at(&self, i: usize) -> (r: &V)
        requires
            self.wf(),
            i < self.keys@.len(),
        ensures
            *r == self.vals@[i as int],
            self@[self.keys@[i as int]] == self.vals@[i as int],
    {
        proof {
            self.lemma_slot(i as int);
        }
        &self.vals[i]
    }

    /// The slot holding `k`, if any.
    pub fn find(&self, k: u32) -> (r: Option<usize>)
        requires
            self.wf(),
        ensures
            match r {
                Some(i) => {
                    &&& i < self.keys@.len()
                    &&& self.keys@[i as int] == k
                    &&& key_index(self.keys@, k) == i
                    &&& self@.dom().contains(k)
                    &&& self@[k] == self.vals@[i as int]
                },
                None => !self@.dom().contains(k),
            },
    {
        let n = self.keys.len();
        let mut i: usize = 0;
        while i < n
            invariant
                self.wf(),
                n == self.keys@.len(),
                i <= n,
                forall|p: int| 0 <= p < i ==> self.keys@[p] != k,
            decreases n - i,
        {
            if self.keys[i] == k {
                proof {
                    self.lemma_slot(i as int);
                }
                return Some(i);
            }
            i = i + 1;
        }
        proof {
            assert(!self.keys@.contains(k));
        }
        None
    }

    /// Whether the table holds an entry for `k`.
    pub fn contains(&self, k: u32) -> (r: bool)
        requires
            self.wf(),
        ensures
            r == self@.dom().contains(k),
    {
        match self.find(k) {
            Some(_) => true,
            None => false,
        }
    }

    /// Read access to the entry for `k`.
    pub fn get(&self, k: u32) -> (r: Option<&V>)
        requires
            self.wf(),
        ensures
            match r {
                Some(v) => self@.dom().contains(k) && *v == self@[k],
                None => !self@.dom().contains(k),
            },
    {
        match self.find(k) {
            Some(i) => Some(&self.vals[i]),
            None => None,
        }
    }

    /// Sets the entry for `k`, replacing any previous one.
    pub fn insert(&mut self, k: u32, v: V)
        requires
            old(self).wf(),
        ensures
            final(self).wf(),
            final(self)@ == old(self)@.insert(k, v),
    {
        match self.find(k) {
            Some(i) => {
                self.vals[i] = v;
                proof {
                    assert forall|k2: u32| #[trigger] self.keys@.contains(k2) implies self@[k2]
                        == old(self)@.insert(k, v)[k2] by {
                        let p = choose|p: int|
                            0 <= p < self.keys@.len() && self.keys@[p] == k2;
                        self.lemma_slot(p);
                        old(self).lemma_slot(p);
                    }
                    assert(self@ =~= old(self)@.insert(k, v));
                }
            },
            None => {
                self.keys.push(k);
                self.vals.push(v);
                proof {
                    let okeys = old(self).keys@;
                    assert forall|i: int, j: int|
                        0 <= i < j < self.keys@.len() implies self.keys@[i] != self.keys@[j] by {
                        if j == okeys.len() {
                            assert(okeys.contains(okeys[i]));
                        }
                    }
                    assert forall|k2: u32| #[trigger] self.keys@.contains(k2) implies
                        (okeys.contains(k2) || k2 == k) by {
                        let p = choose|p: int|
                            0 <= p < self.keys@.len() && self.keys@[p] == k2;
                        if p < okeys.len() {
                            assert(okeys[p] == k2);
                        }
                    }
                    assert forall|k2: u32| #[trigger] self.keys@.contains(k2) implies self@[k2]
                        == old(self)@.insert(k, v)[k2] by {
                        let p = choose|p: int|
                            0 <= p < self.keys@.len() && self.keys@[p] == k2;
                        self.lemma_slot(p);
                        if p < okeys.len() {
                            old(self).lemma_slot(p);
                        }
                    }
                    assert forall|k2: u32| okeys.contains(k2) || k2 == k implies #[trigger] self
                        .keys@.contains(k2) by {
                        if k2 == k {
                            assert(self.keys@[okeys.len() as int] == k);
                        } else {
                            let p = choose|p: int| 0 <= p < okeys.len() && okeys[p] == k2;
                            assert(self.keys@[p] == k2);
                        }
                    }
                    assert(self@ =~= old(self)@.insert(k, v));
                }
            },
        }
    }

    /// Takes the entry for `k` out of the table.
    pub fn remove(&mut self, k: u32) -> (r: Option<V>)
        requires
            old(self).wf(),
        ensures
            final(self).wf(),
            match r {
                Some(v) => {
                    &&& old(self)@.dom().contains(k)
                    &&& v == old(self)@[k]
                    &&& final(self)@ == old(self)@.remove(k)
                },
                None => {
                    &&& !old(self)@.dom().contains(k)
                    &&& *final(self) == *old(self)
                },
            },
    {
        match self.find(k) {
            Some(i) => {
                let _removed_key = self.keys.swap_remove(i);
                let removed_val = self.vals.swap_remove(i);
                proof {
                    let okeys = old(self).keys@;
                    let n = okeys.len() as int;
                    assert(self.keys@ =~= okeys.update(i as int, okeys.last()).drop_last());
                    assert forall|p: int, q: int|
                        0 <= p < q < self.keys@.len() implies self.keys@[p] != self.keys@[q] by {
                        let a = if p == i as int { n - 1 } else { p };
                        let b = if q == i as int { n - 1 } else { q };
                        assert(self.keys@[p] == okeys[a]);
                        assert(self.keys@[q] == okeys[b]);
                    }
                    assert forall|k2: u32| #[trigger] self.keys@.contains(k2) implies
                        (okeys.contains(k2) && k2 != k) by {
                        let p = choose|p: int|
                            0 <= p < self.keys@.len() && self.keys@[p] == k2;
                        let a = if p == i as int { n - 1 } else { p };
                        assert(okeys[a] == k2);
                        if a != i as int {
                            if a < i as int {
                                assert(okeys[a] != okeys[i as int]);
                            } else {
                                assert(okeys[i as int] != okeys[a]);
                            }
                        }
                    }
                    assert forall|k2: u32| okeys.contains(k2) && k2 != k implies #[trigger] self
                        .keys@.contains(k2) by {
                        let p = choose|p: int| 0 <= p < n && okeys[p] == k2;
                        if p == n - 1 {
                            assert(p != i as int);
                            assert(self.keys@[i as int] == okeys[n - 1]);
                        } else {
                            if p == i as int {
                            } else {
                                assert(self.keys@[p] == k2);
                            }
                        }
                    }
                    assert forall|k2: u32| #[trigger] self.keys@.contains(k2) implies self@[k2]
                        == old(self)@[k2] by {
                        let p = choose|p: int|
                            0 <= p < self.keys@.len() && self.keys@[p] == k2;
                        self.lemma_slot(p);
                        let a = if p == i as int { n - 1 } else { p };
                        old(self).lemma_slot(a);
                        assert(self.vals@[p] == old(self).vals@[a]);
                    }
                    assert(final(self)@ =~= old(self)@.remove(k));
                }
                Some(removed_val)
            },
            None => None,
        }
    }
}

/// A set of ids, stored as a duplicate-free vector.
pub struct IdList {
    pub items: Vec<u32>,
}

impl View for IdList {
    type V = Set<u32>;

    open spec fn view(&self) -> Set<u32> {
        self.items@.to_set()
    }
}

impl IdList {
    /// No id repeats.
    pub open spec fn wf(self) -> bool {
        forall|i: int, j: int|
            0 <= i < j < self.items@.len() ==> self.items@[i] != self.items@[j]
    }

    pub fn new() -> (r: Self)
        ensures
            r.wf(),
            r@ == Set::<u32>::empty(),
    {
        let r = Self { items: Vec::new() };
        proof {
            assert(r@ =~= Set::<u32>::empty());
        }
        r
    }

    /// How many ids the set holds.
    pub fn id_count(&self) -> (r: usize)
        ensures
            r == self.items@.len(),
    {
        self.items.len()
    }

    /// The id at slot `i`.
    pub fn id_at(&self, i: usize) -> (r: u32)
        requires
            i < self.items@.len(),
        ensures
            r == self.items@[i as int],
            self@.contains(r),
    {
        let r = self.items[i];
        proof {
            assert(self.items@.contains(r));
        }
        r
    }

    /// Whether the set holds `k`.
    pub fn contains(&self, k: u32) -> (r: bool)
        ensures
            r == self@.contains(k),
    {
        let n = self.items.len();
        let mut i: usize = 0;
        while i < n
            invariant
                n == self.items@.len(),
                i <= n,
                forall|p: int| 0 <= p < i ==> self.items@[p] != k,
            decreases n - i,
        {
            if self.items[i] == k {
                proof {
                    assert(self.items@.contains(k));
                }
                return true;
            }
            i = i + 1;
        }
        proof {
            assert(!self.items@.contains(k));
        }
        false
    }

    /// Puts `k` into the set.
    pub fn insert(&mut self, k: u32)
        requires
            old(self).wf(),
        ensures
            final(self).wf(),
            final(self)@ == old(self)@.insert(k),
    {
        if !self.contains(k) {
            self.items.push(k);
            proof {
                let oitems = old(self).items@;
                assert forall|i: int, j: int|
                    0 <= i < j < self.items@.len() implies self.items@[i] != self.items@[j] by {
                    if j == oitems.len() {
                        assert(oitems.contains(oitems[i]));
                    }
                }
                assert forall|k2: u32| #[trigger] self.items@.contains(k2) implies
                    (oitems.contains(k2) || k2 == k) by {
                    let p = choose|p: int|
                        0 <= p < self.items@.len() && self.items@[p] == k2;
                    if p < oitems.len() {
                        assert(oitems[p] == k2);
                    }
                }
                assert forall|k2: u32| oitems.contains(k2) || k2 == k implies #[trigger] self
                    .items@.contains(k2) by {
                    if k2 == k {
                        assert(self.items@[oitems.len() as int] == k);
                    } else {
                        let p = choose|p: int| 0 <= p < oitems.len() && oitems[p] == k2;
                        assert(self.items@[p] == k2);
                    }
                }
                assert(final(self)@ =~= old(self)@.insert(k));
            }
        } else {
            proof {
                assert(final(self)@ =~= old(self)@.insert(k));
            }
        }
    }

    /// Takes `k` out of the set, if present.
    pub fn remove(&mut self, k: u32)
        requires
            old(self).wf(),
        ensures
            final(self).wf(),
            final(self)@ == old(self)@.remove(k),
    {
        let n = self.items.len();
        let mut i: usize = 0;
        while i < n
            invariant
                self.wf(),
                self == old(self),
                n == self.items@.len(),
                i <= n,
                forall|p: int| 0 <= p < i ==> self.items@[p] != k,
            decreases n - i,
        {
            if self.items[i] == k {
                let _ = self.items.swap_remove(i);
                proof {
                    let oitems = old(self).items@;
                    let nn = oitems.len() as int;
                    assert forall|p: int, q: int|
                        0 <= p < q < self.items@.len() implies self.items@[p] != self.items@[q] by {
                        let a = if p == i as int { nn - 1 } else { p };
                        let b = if q == i as int { nn - 1 } else { q };
                        assert(self.items@[p] == oitems[a]);
                        assert(self.items@[q] == oitems[b]);
                    }
                    assert forall|k2: u32| #[trigger] self.items@.contains(k2) implies
                        (oitems.contains(k2) && k2 != k) by {
                        let p = choose|p: int|
                            0 <= p < self.items@.len() && self.items@[p] == k2;
                        let a = if p == i as int { nn - 1 } else { p };
                        assert(oitems[a] == k2);
                        if a != i as int {
                            if a < i as int {
                                assert(oitems[a] != oitems[i as int]);
                            } else {
                                assert(oitems[i as int] != oitems[a]);
                            }
                        }
                    }
                    assert forall|k2: u32| oitems.contains(k2) && k2 != k implies #[trigger] self
                        .items@.contains(k2) by {
                        let p = choose|p: int| 0 <= p < nn && oitems[p] == k2;
                        if p == nn - 1 {
                            assert(p != i as int);
                            assert(self.items@[i as int] == oitems[nn - 1]);
                        } else {
                            if p != i as int {
                                assert(self.items@[p] == k2);
                            }
                        }
                    }
                    assert(final(self)@ =~= old(self)@.remove(k));
                }
                return;
            }
            i = i + 1;
        }
        proof {
            assert(!self.items@.contains(k));
            assert(final(self)@ =~= old(self)@.remove(k));
        }
    }
}

} // verus!
