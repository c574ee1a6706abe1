use vstd::prelude::*;

verus! {

/// A generation-tagged handle to one slot of the entity store.
///
/// A handle resolves only while its slot is live. Freeing a slot bumps the
/// slot's generation before any reuse, so a stale handle never silently
/// aliases a newer entity that happens to occupy the same slot.
#[derive(Copy, Clone, PartialEq, Eq, Structural, Debug)]
pub struct EntityKey {
    idx: usize,
    generation: u64,
}

struct Slot {
    generation: u64,
    live: bool,
}

/// Arena of generation-tagged slots: owns every entity identity in a world.
pub struct EntityStore {
    slots: Vec<Slot>,
}

impl EntityStore {
    /// A handle is valid exactly while its slot is live with a matching generation.
    pub closed spec fn live(self, k: EntityKey) -> bool {
        &&& k.idx < self.slots@.len()
        &&& self.slots@[k.idx as int].generation == k.generation
        &&& self.slots@[k.idx as int].live
    }

    pub fn new() -> (s: EntityStore)
        ensures
            forall|k: EntityKey| !s.live(k),
    {
        EntityStore { slots: Vec::new() }
    }

    /// Creates a new live slot. The returned handle was not valid before the
    /// call, so it cannot collide with any handle already stored elsewhere.
    pub fn allocate(&mut self) -> (k: EntityKey)
        ensures
            final(self).live(k),
            !old(self).live(k),
            forall|k2: EntityKey| k2 != k ==> final(self).live(k2) == old(self).live(k2),
    {
        let mut i: usize = 0;
        while i < self.slots.len()
            invariant
                i <= self.slots@.len(),
                *self == *old(self),
            decreases self.slots@.len() - i,
        {
            if !self.slots[i].live && self.slots[i].generation < u64::MAX {
                let g = self.slots[i].generation + 1;
                self.slots[i] = Slot { generation: g, live: true };
                return EntityKey { idx: i, generation: g };
            }
            i = i + 1;
        }
        let n = self.slots.len();
        self.slots.push(Slot { generation: 0, live: true });
        EntityKey { idx: n, generation: 0 }
    }

    /// Invalidates the handle; the slot becomes free for later reuse under a
    /// bumped generation. A handle that is already invalid stays invalid.
    pub fn deallocate(&mut self, k: EntityKey)
        ensures
            !final(self).live(k),
            forall|k2: EntityKey| k2 != k ==> final(self).live(k2) == old(self).live(k2),
    {
        if k.idx < self.slots.len()
            && self.slots[k.idx].generation == k.generation
            && self.slots[k.idx].live
        {
            self.slots[k.idx] = Slot { generation: k.generation, live: false };
        }
    }

    pub fn contains(&self, k: EntityKey) -> (b: bool)
        ensures
            b == self.live(k),
    {
        k.idx < self.slots.len()
            && self.slots[k.idx].generation == k.generation
            && self.slots[k.idx].live
    }
}

/// There is an entry for handle `k` somewhere in the association sequence.
pub open spec fn tbl_has<V>(s: Seq<(EntityKey, V)>, k: EntityKey) -> bool {
    exists|i: int| 0 <= i < s.len() && s[i].0 == k
}

/// The index of the entry for `k`; meaningful only under `tbl_has` and
/// unique under `tbl_distinct`.
pub open spec fn tbl_idx<V>(s: Seq<(EntityKey, V)>, k: EntityKey) -> int {
    choose|i: int| 0 <= i < s.len() && s[i].0 == k
}

/// The value stored for `k`; meaningful only under `tbl_has`.
pub open spec fn tbl_val<V>(s: Seq<(EntityKey, V)>, k: EntityKey) -> V {
    s[tbl_idx(s, k)].1
}

/// No handle occurs twice.
pub open spec fn tbl_distinct<V>(s: Seq<(EntityKey, V)>) -> bool {
    forall|i: int, j: int| 0 <= i < j < s.len() ==> s[i].0 != s[j].0
}

/// In a table with distinct keys, the entry at index `i` is the unique entry
/// for its own key.
pub proof fn lemma_tbl_at<V>(s: Seq<(EntityKey, V)>, i: int)
    requires
        tbl_distinct(s),
        0 <= i < s.len(),
    ensures
        tbl_has(s, s[i].0),
        tbl_idx(s, s[i].0) == i,
        tbl_val(s, s[i].0) == s[i].1,
{
    assert(tbl_has(s, s[i].0));
    let j = tbl_idx(s, s[i].0);
    assert(0 <= j < s.len() && s[j].0 == s[i].0);
}

/// Sparse component table: at most one value per entity handle, iterated in
/// insertion order (stable between mutations).
pub struct Table<V> {
    entries: Vec<(EntityKey, V)>,
}

impl<V> View for Table<V> {
    type V = Seq<(EntityKey, V)>;

    closed spec fn view(&self) -> Seq<(EntityKey, V)> {
        self.entries@
    }
}

impl<V> Table<V> {
    /// Every handle keys at most one entry.
    pub open spec fn wf(self) -> bool {
        tbl_distinct(self@)
    }
}

impl<V: Copy> Table<V> {
    pub fn new() -> (t: Table<V>)
        ensures
            t@ == Seq::<(EntityKey, V)>::empty(),
            t.wf(),
    {
        Table { entries: Vec::new() }
    }

    pub fn len(&self) -> (n: usize)
        ensures
            n == self@.len(),
    {
        self.entries.len()
    }

    pub fn entry_at(&self, i: usize) -> (e: (EntityKey, V))
        requires
            i < self@.len(),
        ensures
            e == self@[i as int],
    {
        self.entries[i]
    }

    pub fn contains_key(&self, k: EntityKey) -> (b: bool)
        requires
            self.wf(),
        ensures
            b == tbl_has(self@, k),
    {
        let mut i: usize = 0;
        while i < self.entries.len()
            invariant
                i <= self.entries@.len(),
                self@ == self.entries@,
                forall|j: int| 0 <= j < i ==> self.entries@[j].0 != k,
            decreases self.entries@.len() - i,
        {
            if self.entries[i].0 == k {
                return true;
            }
            i = i + 1;
        }
        false
    }

    pub fn get(&self, k: EntityKey) -> (r: Option<V>)
        requires
            self.wf(),
        ensures
            tbl_has(self@, k) ==> r == Some(tbl_val(self@, k)),
            !tbl_has(self@, k) ==> r is None,
    {
        let mut i: usize = 0;
        while i < self.entries.len()
            invariant
                i <= self.entries@.len(),
                self@ == self.entries@,
                tbl_distinct(self.entries@),
                forall|j: int| 0 <= j < i ==> self.entries@[j].0 != k,
            decreases self.entries@.len() - i,
        {
            let e = self.entries[i];
            if e.0 == k {
                proof {
                    lemma_tbl_at(self.entries@, i as int);
                }
                return Some(e.1);
            }
            i = i + 1;
        }
        None
    }

    /// Inserts or replaces the entry for `k`. A fresh key is appended at the
    /// end of the iteration order; an existing key keeps its position.
    pub fn insert(&mut self, k: EntityKey, v: V)
        requires
            old(self).wf(),
        ensures
            final(self).wf(),
            tbl_has(final(self)@, k),
            tbl_val(final(self)@, k) == v,
            forall|k2: EntityKey| k2 != k ==> tbl_has(final(self)@, k2) == tbl_has(old(self)@, k2),
            forall|k2: EntityKey|
                k2 != k && tbl_has(old(self)@, k2) ==> tbl_val(final(self)@, k2) == tbl_val(
                    old(self)@,
                    k2,
                ),
            !tbl_has(old(self)@, k) ==> final(self)@ == old(self)@.push((k, v)),
            tbl_has(old(self)@, k) ==> final(self)@ == old(self)@.update(
                tbl_idx(old(self)@, k),
                (k, v),
            ),
            final(self)@.len() == old(self)@.len() + (if tbl_has(old(self)@, k) {
                0int
            } else {
                1int
            }),
    {
        let ghost s0 = self.entries@;
        let mut i: usize = 0;
        while i < self.entries.len()
            invariant
                i <= self.entries@.len(),
                self.entries@ == s0,
                s0 == old(self)@,
                tbl_distinct(s0),
                forall|j: int| 0 <= j < i ==> self.entries@[j].0 != k,
            decreases self.entries@.len() - i,
        {
            if self.entries[i].0 == k {
                proof {
                    lemma_tbl_at(s0, i as int);
                }
                self.entries[i] = (k, v);
                proof {
                    lemma_tbl_update(s0, self.entries@, k, v, i as int);
                }
                return ;
            }
            i = i + 1;
        }
        assert(!tbl_has(s0, k));
        self.entries.push((k, v));
        proof {
            lemma_tbl_push(s0, self.entries@, k, v);
        }
    }

    /// Removes the entry for `k`, if any, shifting later entries up.
    pub fn remove(&mut self, k: EntityKey)
        requires
            old(self).wf(),
        ensures
            final(self).wf(),
            !tbl_has(final(self)@, k),
            forall|k2: EntityKey| k2 != k ==> tbl_has(final(self)@, k2) == tbl_has(old(self)@, k2),
            forall|k2: EntityKey|
                k2 != k && tbl_has(old(self)@, k2) ==> tbl_val(final(self)@, k2) == tbl_val(
                    old(self)@,
                    k2,
                ),
            tbl_has(old(self)@, k) ==> final(self)@ == old(self)@.remove(tbl_idx(old(self)@, k)),
            !tbl_has(old(self)@, k) ==> final(self)@ == old(self)@,
            final(self)@.len() == old(self)@.len() - (if tbl_has(old(self)@, k) {
                1int
            } else {
                0int
            }),
    {
        let ghost s0 = self.entries@;
        let mut i: usize = 0;
        while i < self.entries.len()
            invariant
                i <= self.entries@.len(),
                self.entries@ == s0,
                s0 == old(self)@,
                tbl_distinct(s0),
                forall|j: int| 0 <= j < i ==> self.entries@[j].0 != k,
            decreases self.entries@.len() - i,
        {
            if self.entries[i].0 == k {
                proof {
                    lemma_tbl_at(s0, i as int);
                }
                self.entries.remove(i);
                proof {
                    lemma_tbl_remove(s0, self.entries@, k, i as int);
                }
                return ;
            }
            i = i + 1;
        }
        assert(!tbl_has(s0, k));
    }

    /// Drops every entry.
    pub fn clear(&mut self)
        ensures
            final(self)@ == Seq::<(EntityKey, V)>::empty(),
            final(self).wf(),
    {
        self.entries.clear();
    }
}

pub proof fn lemma_tbl_update<V>(s0: Seq<(EntityKey, V)>, s1: Seq<(EntityKey, V)>, k: EntityKey, v: V, i: int)
    requires
        tbl_distinct(s0),
        0 <= i < s0.len(),
        s0[i].0 == k,
        tbl_idx(s0, k) == i,
        s1 == s0.update(i, (k, v)),
    ensures
        tbl_distinct(s1),
        tbl_has(s1, k),
        tbl_val(s1, k) == v,
        forall|k2: EntityKey| k2 != k ==> tbl_has(s1, k2) == tbl_has(s0, k2),
        forall|k2: EntityKey| k2 != k && tbl_has(s0, k2) ==> tbl_val(s1, k2) == tbl_val(s0, k2),
{
    assert(forall|j: int| 0 <= j < s1.len() ==> s1[j].0 == s0[j].0);
    assert(tbl_distinct(s1));
    lemma_tbl_at(s1, i);
    assert forall|k2: EntityKey| k2 != k implies tbl_has(s1, k2) == tbl_has(s0, k2) by {
        if tbl_has(s0, k2) {
            let j = tbl_idx(s0, k2);
            assert(0 <= j < s0.len() && s0[j].0 == k2);
            assert(s1[j].0 == k2);
        }
        if tbl_has(s1, k2) {
            let j = choose|j: int| 0 <= j < s1.len() && s1[j].0 == k2;
            assert(s0[j].0 == k2);
        }
    }
    assert forall|k2: EntityKey| k2 != k && tbl_has(s0, k2) implies tbl_val(s1, k2) == tbl_val(
        s0,
        k2,
    ) by {
        let j = tbl_idx(s0, k2);
        lemma_tbl_at(s0, j);
        assert(j != i);
        assert(s1[j] == s0[j]);
        lemma_tbl_at(s1, j);
    }
}

pub proof fn lemma_tbl_push<V>(s0: Seq<(EntityKey, V)>, s1: Seq<(EntityKey, V)>, k: EntityKey, v: V)
    requires
        tbl_distinct(s0),
        !tbl_has(s0, k),
        s1 == s0.push((k, v)),
    ensures
        tbl_distinct(s1),
        tbl_has(s1, k),
        tbl_val(s1, k) == v,
        forall|k2: EntityKey| k2 != k ==> tbl_has(s1, k2) == tbl_has(s0, k2),
        forall|k2: EntityKey| k2 != k && tbl_has(s0, k2) ==> tbl_val(s1, k2) == tbl_val(s0, k2),
{
    let n = s0.len() as int;
    assert(forall|j: int| 0 <= j < n ==> s1[j] == s0[j]);
    assert(s1[n] == (k, v));
    assert forall|i: int, j: int| 0 <= i < j < s1.len() implies s1[i].0 != s1[j].0 by {
        if j == n {
            assert(s1[i].0 == s0[i].0);
            assert(s0[i].0 != k);
        }
    }
    lemma_tbl_at(s1, n);
    assert forall|k2: EntityKey| k2 != k implies tbl_has(s1, k2) == tbl_has(s0, k2) by {
        if tbl_has(s0, k2) {
            let j = tbl_idx(s0, k2);
            assert(0 <= j < s0.len() && s0[j].0 == k2);
            assert(s1[j].0 == k2);
        }
        if tbl_has(s1, k2) {
            let j = choose|j: int| 0 <= j < s1.len() && s1[j].0 == k2;
            assert(j != n);
            assert(s0[j].0 == k2);
        }
    }
    assert forall|k2: EntityKey| k2 != k && tbl_has(s0, k2) implies tbl_val(s1, k2) == tbl_val(
        s0,
        k2,
    ) by {
        let j = tbl_idx(s0, k2);
        lemma_tbl_at(s0, j);
        assert(s1[j] == s0[j]);
        lemma_tbl_at(s1, j);
    }
}

pub proof fn lemma_tbl_remove<V>(s0: Seq<(EntityKey, V)>, s1: Seq<(EntityKey, V)>, k: EntityKey, i: int)
    requires
        tbl_distinct(s0),
        0 <= i < s0.len(),
        s0[i].0 == k,
        tbl_idx(s0, k) == i,
        s1 == s0.remove(i),
    ensures
        tbl_distinct(s1),
        !tbl_has(s1, k),
        forall|k2: EntityKey| k2 != k ==> tbl_has(s1, k2) == tbl_has(s0, k2),
        forall|k2: EntityKey| k2 != k && tbl_has(s0, k2) ==> tbl_val(s1, k2) == tbl_val(s0, k2),
{
    assert(s1.len() == s0.len() - 1);
    assert(forall|j: int| 0 <= j < i ==> s1[j] == s0[j]);
    assert(forall|j: int| i <= j < s1.len() ==> s1[j] == s0[j + 1]);
    assert forall|m: int, j: int| 0 <= m < j < s1.len() implies s1[m].0 != s1[j].0 by {
        let m0 = if m < i { m } else { m + 1 };
        let j0 = if j < i { j } else { j + 1 };
        assert(s1[m] == s0[m0]);
        assert(s1[j] == s0[j0]);
    }
    assert forall|j: int| 0 <= j < s1.len() implies s1[j].0 != k by {
        let j0 = if j < i { j } else { j + 1 };
        assert(s1[j] == s0[j0]);
        if j0 != i {
            if j0 < i {
                assert(s0[j0].0 != s0[i].0);
            } else {
                assert(s0[i].0 != s0[j0].0);
            }
        }
    }
    assert forall|k2: EntityKey| k2 != k implies tbl_has(s1, k2) == tbl_has(s0, k2) by {
        if tbl_has(s0, k2) {
            let j0 = tbl_idx(s0, k2);
            assert(0 <= j0 < s0.len() && s0[j0].0 == k2);
            assert(j0 != i);
            let j = if j0 < i { j0 } else { j0 - 1 };
            assert(s1[j].0 == k2);
        }
        if tbl_has(s1, k2) {
            let j = choose|j: int| 0 <= j < s1.len() && s1[j].0 == k2;
            let j0 = if j < i { j } else { j + 1 };
            assert(s0[j0].0 == k2);
        }
    }
    assert forall|k2: EntityKey| k2 != k && tbl_has(s0, k2) implies tbl_val(s1, k2) == tbl_val(
        s0,
        k2,
    ) by {
        let j0 = tbl_idx(s0, k2);
        lemma_tbl_at(s0, j0);
        assert(j0 != i);
        let j = if j0 < i { j0 } else { j0 - 1 };
        assert(s1[j] == s0[j0]);
        lemma_tbl_at(s1, j);
    }
}

} // verus!
