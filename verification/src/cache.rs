//! In-memory model of the durable deployment cache.
//!
//! The cache maps an item index to its record and remembers the program
//! descriptor (the remote program address and, once attached, the collection
//! mint address). Indices are non-negative, except for the reserved sentinel
//! index `-1`, which denotes the collection item. Index uniqueness is an
//! invariant of the store; insertion order is preserved so the operator sees
//! items in the order they were first recorded.
//!
//! The store itself is purely in memory: reading and writing the durable file
//! happens outside the library, which only ever sees the materialized value.

use vstd::prelude::*;

verus! {

/// The reserved index of the collection item.
pub const COLLECTION_INDEX: i64 = -1;

/// One deployable asset: its display name, the link to its metadata, and
/// whether the remote program has confirmed its write.
#[derive(Debug, Clone, PartialEq, Eq)]
pub struct ItemRecord {
    pub name: String,
    pub metadata_link: String,
    pub on_chain: bool,
}

/// The program descriptor held alongside the items: the remote program
/// address (empty until the account is created) and the collection mint
/// address (empty until a collection is attached).
#[derive(Debug, Clone, PartialEq, Eq)]
pub struct CacheProgram {
    pub tars: String,
    pub collection_mint: String,
}

impl CacheProgram {
    /// An empty descriptor: no account created yet.
    pub fn new() -> (r: CacheProgram)
        ensures
            r.tars@.len() == 0,
            r.collection_mint@.len() == 0,
    {
        CacheProgram { tars: String::new(), collection_mint: String::new() }
    }

    /// The descriptor recorded right after the remote account is created.
    pub fn new_from_cm(tars: String) -> (r: CacheProgram)
        ensures
            r.tars == tars,
            r.collection_mint@.len() == 0,
    {
        CacheProgram { tars, collection_mint: String::new() }
    }
}

/// The deployment cache: the program descriptor plus the item records,
/// keyed by index, with unique keys and insertion order kept.
///
/// `wf()` is the store's invariant; every mutator here preserves it, and
/// every reader requires it.
#[derive(Debug, Clone, PartialEq, Eq)]
pub struct Cache {
    pub program: CacheProgram,
    pub items: Vec<(i64, ItemRecord)>,
}

impl Cache {
    /// The entries in insertion order.
    pub open spec fn entries(&self) -> Seq<(i64, ItemRecord)> {
        self.items@
    }

    /// The keys in insertion order.
    pub open spec fn keys(&self) -> Seq<i64> {
        self.entries().map_values(|e: (i64, ItemRecord)| e.0)
    }

    /// Key uniqueness: no index is recorded twice.
    pub open spec fn wf(&self) -> bool {
        forall|i: int, j: int|
            0 <= i < j < self.entries().len() ==> (#[trigger] self.entries()[i]).0 != (
            #[trigger] self.entries()[j]).0
    }

    /// Whether some entry carries the key `k`.
    pub open spec fn has_key(&self, k: i64) -> bool {
        exists|i: int| 0 <= i < self.entries().len() && (#[trigger] self.entries()[i]).0 == k
    }

    /// The position of the entry with key `k` (meaningful when `has_key`).
    pub open spec fn idx_of(&self, k: i64) -> int {
        choose|i: int| 0 <= i < self.entries().len() && (#[trigger] self.entries()[i]).0 == k
    }

    /// The record stored under `k`, if any.
    pub open spec fn spec_get(&self, k: i64) -> Option<ItemRecord> {
        if self.has_key(k) {
            Some(self.entries()[self.idx_of(k)].1)
        } else {
            None
        }
    }

    /// Number of entries.
    pub open spec fn spec_len(&self) -> nat {
        self.entries().len()
    }

    /// Under `wf`, any position holding key `k` is `idx_of(k)`.
    proof fn lemma_idx_unique(&self, k: i64, i: int)
        requires
            self.wf(),
            0 <= i < self.entries().len(),
            self.entries()[i].0 == k,
        ensures
            self.has_key(k),
            self.idx_of(k) == i,
    {
        assert(self.has_key(k));
        let j = self.idx_of(k);
        assert(0 <= j < self.entries().len() && self.entries()[j].0 == k);
        if i < j {
            assert(self.entries()[i].0 != self.entries()[j].0);
        } else if j < i {
            assert(self.entries()[j].0 != self.entries()[i].0);
        }
    }

    /// Two caches with the same entries agree on everything the entries
    /// determine.
    pub proof fn lemma_same_entries(self, other: Cache)
        requires
            self.wf(),
            other.entries() == self.entries(),
        ensures
            other.wf(),
            forall|k: i64| other.spec_get(k) == self.spec_get(k),
            other.keys() == self.keys(),
    {
        assert(forall|i: int|
            0 <= i < self.entries().len() ==> #[trigger] other.entries()[i]
                == self.entries()[i]);
        assert forall|i: int, j: int|
            0 <= i < j < other.entries().len() implies (#[trigger] other.entries()[i]).0 != (
        #[trigger] other.entries()[j]).0 by {
            assert(self.entries()[i].0 != self.entries()[j].0);
        }
        assert forall|k: i64| other.spec_get(k) == self.spec_get(k) by {
            if self.has_key(k) {
                let i = self.idx_of(k);
                assert(other.entries()[i].0 == k);
                other.lemma_idx_unique(k, i);
                self.lemma_idx_unique(k, i);
            } else {
                if other.has_key(k) {
                    let i = other.idx_of(k);
                    assert(self.entries()[i].0 == k);
                }
            }
        }
        assert(other.keys() =~= self.keys());
    }

    /// An empty cache.
    pub fn new() -> (r: Cache)
        ensures
            r.wf(),
            r.spec_len() == 0,
            forall|k: i64| r.spec_get(k) is None,
            r.program.tars@.len() == 0,
            r.program.collection_mint@.len() == 0,
    {
        let r = Cache { program: CacheProgram::new(), items: Vec::new() };
        proof {
            assert(forall|k: i64| !r.has_key(k));
        }
        r
    }

    /// A cache materialized from entries read elsewhere (the durable file).
    /// Fails with `InvalidState` when the entries repeat a key.
    pub fn from_entries(program: CacheProgram, entries: Vec<(i64, ItemRecord)>) -> (r: Result<
        Cache,
        crate::errors::CacheError,
    >)
        ensures
            r matches Ok(c) ==> {
                &&& c.wf()
                &&& c.entries() == entries@
                &&& c.program == program
            },
            r is Err <==> exists|i: int, j: int|
                0 <= i < j < entries@.len() && (#[trigger] entries@[i]).0 == (
                #[trigger] entries@[j]).0,
            r is Err ==> r == Err::<Cache, crate::errors::CacheError>(
                crate::errors::CacheError::InvalidState,
            ),
    {
        let n = entries.len();
        let mut i: usize = 0;
        while i < n
            invariant
                n == entries@.len(),
                0 <= i <= n,
                forall|p: int, q: int|
                    0 <= p < q < entries@.len() && p < i as int ==> (#[trigger] entries@[p]).0 != (
                    #[trigger] entries@[q]).0,
            decreases n - i,
        {
            let mut j: usize = i + 1;
            while j < n
                invariant
                    n == entries@.len(),
                    0 <= i < j <= n,
                    forall|q: int| i < q < j as int ==> entries@[i as int].0 != (
                    #[trigger] entries@[q]).0,
                decreases n - j,
            {
                if entries[i].0 == entries[j].0 {
                    return Err(crate::errors::CacheError::InvalidState);
                }
                j += 1;
            }
            i += 1;
        }
        Ok(Cache { program, items: entries })
    }

    /// The entries, for display in insertion order.
    pub fn entries_vec(&self) -> (r: &Vec<(i64, ItemRecord)>)
        ensures
            r@ == self.entries(),
    {
        &self.items
    }

    /// Number of entries.
    pub fn len(&self) -> (r: usize)
        ensures
            r == self.spec_len(),
    {
        self.items.len()
    }

    /// Whether the cache holds no items.
    pub fn is_empty(&self) -> (r: bool)
        ensures
            r == (self.spec_len() == 0),
    {
        self.items.len() == 0
    }

    /// Looks an index up.
    pub fn get(&self, k: i64) -> (r: Option<&ItemRecord>)
        requires
            self.wf(),
        ensures
            match r {
                Some(rec) => self.spec_get(k) == Some(*rec),
                None => self.spec_get(k) is None,
            },
    {
        let n = self.items.len();
        let mut i: usize = 0;
        while i < n
            invariant
                self.wf(),
                n == self.entries().len(),
                0 <= i <= n,
                forall|p: int| 0 <= p < i as int ==> (#[trigger] self.entries()[p]).0 != k,
            decreases n - i,
        {
            if self.items[i].0 == k {
                proof {
                    self.lemma_idx_unique(k, i as int);
                }
                return Some(&self.items[i].1);
            }
            i += 1;
        }
        proof {
            assert(!self.has_key(k));
        }
        None
    }

    /// Inserts or replaces the record under `k`. A fresh key is appended;
    /// an existing key keeps its position.
    pub fn upsert(&mut self, k: i64, record: ItemRecord)
        requires
            old(self).wf(),
        ensures
            final(self).wf(),
            final(self).program == old(self).program,
            final(self).spec_get(k) == Some(record),
            forall|k2: i64| k2 != k ==> final(self).spec_get(k2) == old(self).spec_get(k2),
            final(self).keys() == if old(self).has_key(k) {
                old(self).keys()
            } else {
                old(self).keys().push(k)
            },
    {
        let n = self.items.len();
        let mut i: usize = 0;
        while i < n
            invariant
                *self == *old(self),
                self.wf(),
                n == self.entries().len(),
                0 <= i <= n,
                forall|p: int| 0 <= p < i as int ==> (#[trigger] self.entries()[p]).0 != k,
            decreases n - i,
        {
            if self.items[i].0 == k {
                proof {
                    self.lemma_idx_unique(k, i as int);
                }
                let ghost old_self = *self;
                self.items[i] = (k, record);
                proof {
                    self.lemma_after_update(old_self, i as int, k, record);
                }
                return ;
            }
            i += 1;
        }
        proof {
            assert(!self.has_key(k));
        }
        let ghost old_self = *self;
        self.items.push((k, record));
        proof {
            self.lemma_after_push(old_self, k, record);
        }
    }

    /// After replacing position `i` (which held `k`) with `(k, record)`:
    /// the map view changes only at `k` and the key order is unchanged.
    proof fn lemma_after_update(&self, prev: Cache, i: int, k: i64, record: ItemRecord)
        requires
            prev.wf(),
            0 <= i < prev.entries().len(),
            prev.entries()[i].0 == k,
            self.entries() == prev.entries().update(i, (k, record)),
            self.program == prev.program,
        ensures
            self.wf(),
            self.spec_get(k) == Some(record),
            forall|k2: i64| k2 != k ==> self.spec_get(k2) == prev.spec_get(k2),
            self.keys() == prev.keys(),
            prev.has_key(k),
    {
        assert(self.entries().len() == prev.entries().len());
        assert(forall|p: int|
            0 <= p < self.entries().len() && p != i ==> #[trigger] self.entries()[p]
                == prev.entries()[p]);
        assert(forall|p: int|
            0 <= p < self.entries().len() ==> (#[trigger] self.entries()[p]).0
                == prev.entries()[p].0);
        assert(self.wf());
        self.lemma_idx_unique(k, i);
        prev.lemma_idx_unique(k, i);
        assert(self.spec_get(k) == Some(record));
        assert forall|k2: i64| k2 != k implies self.spec_get(k2) == prev.spec_get(k2) by {
            if self.has_key(k2) {
                let p = self.idx_of(k2);
                assert(prev.entries()[p].0 == k2);
                prev.lemma_idx_unique(k2, p);
            } else if prev.has_key(k2) {
                let p = prev.idx_of(k2);
                assert(self.entries()[p].0 == k2);
            }
        }
        assert(self.keys() =~= prev.keys());
    }

    /// After appending `(k, record)` to a cache without `k`: the map view
    /// gains exactly `k` and the new key goes to the end.
    proof fn lemma_after_push(&self, prev: Cache, k: i64, record: ItemRecord)
        requires
            prev.wf(),
            !prev.has_key(k),
            self.entries() == prev.entries().push((k, record)),
            self.program == prev.program,
        ensures
            self.wf(),
            self.spec_get(k) == Some(record),
            forall|k2: i64| k2 != k ==> self.spec_get(k2) == prev.spec_get(k2),
            self.keys() == prev.keys().push(k),
    {
        let m = prev.entries().len() as int;
        assert(self.entries().len() == m + 1);
        assert(forall|p: int| 0 <= p < m ==> #[trigger] self.entries()[p] == prev.entries()[p]);
        assert(self.entries()[m] == (k, record));
        assert forall|i: int, j: int|
            0 <= i < j < self.entries().len() implies (#[trigger] self.entries()[i]).0 != (
        #[trigger] self.entries()[j]).0 by {
            if j < m {
                assert(prev.entries()[i].0 != prev.entries()[j].0);
            } else {
                assert(self.entries()[j].0 == k);
                assert(prev.entries()[i].0 != k) by {
                    if prev.entries()[i].0 == k {
                        assert(prev.has_key(k));
                    }
                }
            }
        }
        self.lemma_idx_unique(k, m);
        assert(self.spec_get(k) == Some(record));
        assert forall|k2: i64| k2 != k implies self.spec_get(k2) == prev.spec_get(k2) by {
            if self.has_key(k2) {
                let p = self.idx_of(k2);
                assert(p != m);
                assert(prev.entries()[p].0 == k2);
                prev.lemma_idx_unique(k2, p);
            } else if prev.has_key(k2) {
                let p = prev.idx_of(k2);
                assert(self.entries()[p].0 == k2);
            }
        }
        assert(self.keys() =~= prev.keys().push(k));
    }

    /// Removes the entry under `k`, if present, keeping the order of the
    /// remaining entries. Returns whether an entry was removed.
    pub fn remove(&mut self, k: i64) -> (removed: bool)
        requires
            old(self).wf(),
        ensures
            final(self).wf(),
            final(self).program == old(self).program,
            removed == old(self).has_key(k),
            final(self).spec_get(k) is None,
            forall|k2: i64| k2 != k ==> final(self).spec_get(k2) == old(self).spec_get(k2),
            final(self).keys() == if old(self).has_key(k) {
                old(self).keys().remove(old(self).idx_of(k))
            } else {
                old(self).keys()
            },
    {
        let n = self.items.len();
        let mut i: usize = 0;
        while i < n
            invariant
                *self == *old(self),
                self.wf(),
                n == self.entries().len(),
                0 <= i <= n,
                forall|p: int| 0 <= p < i as int ==> (#[trigger] self.entries()[p]).0 != k,
            decreases n - i,
        {
            if self.items[i].0 == k {
                proof {
                    self.lemma_idx_unique(k, i as int);
                }
                let ghost old_self = *self;
                self.items.remove(i);
                proof {
                    self.lemma_after_remove(old_self, i as int, k);
                }
                return true;
            }
            i += 1;
        }
        proof {
            assert(!self.has_key(k));
        }
        false
    }

    /// After removing position `i` (which held `k`): the map view loses
    /// exactly `k` and the other keys keep their relative order.
    proof fn lemma_after_remove(&self, prev: Cache, i: int, k: i64)
        requires
            prev.wf(),
            0 <= i < prev.entries().len(),
            prev.entries()[i].0 == k,
            self.entries() == prev.entries().remove(i),
            self.program == prev.program,
        ensures
            self.wf(),
            self.spec_get(k) is None,
            forall|k2: i64| k2 != k ==> self.spec_get(k2) == prev.spec_get(k2),
            self.keys() == prev.keys().remove(i),
            prev.has_key(k),
            prev.idx_of(k) == i,
    {
        prev.lemma_idx_unique(k, i);
        let m = prev.entries().len() as int;
        assert(self.entries().len() == m - 1);
        assert(forall|p: int| 0 <= p < i ==> #[trigger] self.entries()[p] == prev.entries()[p]);
        assert(forall|p: int| i <= p < m - 1 ==> #[trigger] self.entries()[p] == prev.entries()[p
            + 1]);
        assert forall|p: int, q: int|
            0 <= p < q < self.entries().len() implies (#[trigger] self.entries()[p]).0 != (
        #[trigger] self.entries()[q]).0 by {
            let p0 = if p < i {
                p
            } else {
                p + 1
            };
            let q0 = if q < i {
                q
            } else {
                q + 1
            };
            assert(prev.entries()[p0].0 != prev.entries()[q0].0);
        }
        assert forall|k2: i64| self.has_key(k2) implies k2 != k by {
            let p = self.idx_of(k2);
            if self.entries()[p].0 == k {
                let p0 = if p < i {
                    p
                } else {
                    p + 1
                };
                assert(prev.entries()[p0].0 == k);
                prev.lemma_idx_unique(k, p0);
            }
        }
        assert forall|k2: i64| k2 != k implies self.spec_get(k2) == prev.spec_get(k2) by {
            if prev.has_key(k2) {
                let p0 = prev.idx_of(k2);
                let p = if p0 < i {
                    p0
                } else {
                    p0 - 1
                };
                assert(p0 != i);
                assert(self.entries()[p].0 == k2);
                self.lemma_idx_unique(k2, p);
            } else {
                if self.has_key(k2) {
                    let p = self.idx_of(k2);
                    let p0 = if p < i {
                        p
                    } else {
                        p + 1
                    };
                    assert(prev.entries()[p0].0 == k2);
                }
            }
        }
        assert(self.keys() =~= prev.keys().remove(i));
    }

    /// Marks the record under `k` as confirmed on chain, leaving its other
    /// fields and every other entry unchanged. Returns whether `k` was found.
    pub fn mark_on_chain(&mut self, k: i64) -> (found: bool)
        requires
            old(self).wf(),
        ensures
            final(self).wf(),
            final(self).program == old(self).program,
            found == old(self).has_key(k),
            old(self).has_key(k) ==> final(self).spec_get(k) == Some(
                ItemRecord {
                    on_chain: true,
                    ..old(self).spec_get(k)->Some_0
                },
            ),
            !old(self).has_key(k) ==> final(self).spec_get(k) is None,
            forall|k2: i64| k2 != k ==> final(self).spec_get(k2) == old(self).spec_get(k2),
            final(self).keys() == old(self).keys(),
    {
        let n = self.items.len();
        let mut i: usize = 0;
        while i < n
            invariant
                *self == *old(self),
                self.wf(),
                n == self.entries().len(),
                0 <= i <= n,
                forall|p: int| 0 <= p < i as int ==> (#[trigger] self.entries()[p]).0 != k,
            decreases n - i,
        {
            if self.items[i].0 == k {
                proof {
                    self.lemma_idx_unique(k, i as int);
                }
                let ghost old_self = *self;
                let updated = ItemRecord {
                    name: self.items[i].1.name.clone(),
                    metadata_link: self.items[i].1.metadata_link.clone(),
                    on_chain: true,
                };
                self.items[i] = (k, updated);
                proof {
                    self.lemma_after_update(old_self, i as int, k, updated);
                }
                return true;
            }
            i += 1;
        }
        proof {
            assert(!self.has_key(k));
        }
        false
    }

    /// Whether the cache designates a collection item.
    pub fn has_collection(&self) -> (r: bool)
        requires
            self.wf(),
        ensures
            r == self.has_key(COLLECTION_INDEX),
    {
        match self.get(COLLECTION_INDEX) {
            Some(_) => true,
            None => false,
        }
    }

    /// Number of entries other than the collection item.
    pub open spec fn spec_non_collection_count(&self) -> nat {
        if self.has_key(COLLECTION_INDEX) {
            (self.spec_len() - 1) as nat
        } else {
            self.spec_len()
        }
    }

    /// Counts the entries other than the collection item: the number the
    /// manifest's declared item count is reconciled against.
    pub fn non_collection_count(&self) -> (r: usize)
        requires
            self.wf(),
        ensures
            r == self.spec_non_collection_count(),
    {
        if self.has_collection() {
            proof {
                assert(self.spec_len() >= 1) by {
                    assert(self.entries()[self.idx_of(COLLECTION_INDEX)].0 == COLLECTION_INDEX);
                }
            }
            self.items.len() - 1
        } else {
            self.items.len()
        }
    }
}

} // verus!
