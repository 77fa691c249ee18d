//! Bounded memoization cache used by reference resolution.
//!
//! The cache maps one 64-bit code to another (external reference code to
//! internal key, or internal key to external reference code).  Entries are
//! filled lazily on a lookup miss, the capacity is fixed, and mutations of
//! the underlying store must call [`RefCache::invalidate`] for every entry
//! they make stale; the store's well-formedness ties each cache to the rows
//! it mirrors, so a stale entry can never survive a mutation.

use vstd::prelude::*;

verus! {

/// Bound on the number of memoized translations each cache holds.
pub const REF_CACHE_CAPACITY: usize = 512;

/// One memoized translation.
#[derive(Clone, Copy, PartialEq, Eq, Structural, Debug)]
pub struct CacheEntry {
    pub key: u64,
    pub val: u64,
}

/// A bounded memoization cache from `u64` keys to `u64` values.
pub struct RefCache {
    pub entries: Vec<CacheEntry>,
}

impl RefCache {
    /// Structural soundness: at most `REF_CACHE_CAPACITY` entries, with
    /// pairwise distinct keys.
    pub open spec fn wf(&self) -> bool {
        &&& self.entries@.len() <= REF_CACHE_CAPACITY
        &&& forall|i: int, j: int|
            0 <= i < j < self.entries@.len() ==> (#[trigger] self.entries@[i]).key
                != (#[trigger] self.entries@[j]).key
    }

    /// The cache holds a translation of `key` to `val`.
    pub open spec fn spec_maps(&self, key: u64, val: u64) -> bool {
        exists|i: int|
            0 <= i < self.entries@.len() && (#[trigger] self.entries@[i]) == (CacheEntry {
                key,
                val,
            })
    }

    /// The cache holds some translation of `key`.
    pub open spec fn spec_has_key(&self, key: u64) -> bool {
        exists|i: int| 0 <= i < self.entries@.len() && (#[trigger] self.entries@[i]).key == key
    }

    /// Every entry of `self` is also an entry of `other`.
    pub open spec fn entries_subset_of(&self, other: &RefCache) -> bool {
        forall|i: int|
            0 <= i < self.entries@.len() ==> other.spec_maps(
                (#[trigger] self.entries@[i]).key,
                self.entries@[i].val,
            )
    }

    pub fn new() -> (r: RefCache)
        ensures
            r.wf(),
            r.entries@.len() == 0,
    {
        RefCache { entries: Vec::new() }
    }

    pub fn lookup(&self, key: u64) -> (r: Option<u64>)
        ensures
            match r {
                Some(v) => self.spec_maps(key, v),
                None => !self.spec_has_key(key),
            },
    {
        let mut i: usize = 0;
        while i < self.entries.len()
            invariant
                i <= self.entries@.len(),
                forall|j: int| 0 <= j < i ==> (#[trigger] self.entries@[j]).key != key,
            decreases self.entries@.len() - i,
        {
            if self.entries[i].key == key {
                return Some(self.entries[i].val);
            }
            i += 1;
        }
        None
    }

    /// Memoize `key -> val`, evicting the oldest entry when full.  Every
    /// entry after the call is either the new translation or one that was
    /// already memoized before it.
    pub fn insert(&mut self, key: u64, val: u64)
        requires
            old(self).wf(),
            !old(self).spec_has_key(key),
        ensures
            final(self).wf(),
            final(self).spec_maps(key, val),
            forall|i: int|
                0 <= i < final(self).entries@.len() ==> ((#[trigger] final(self).entries@[i])
                    == (CacheEntry { key, val }) || old(self).spec_maps(
                    final(self).entries@[i].key,
                    final(self).entries@[i].val,
                )),
    {
        let ghost pre = self.entries@;
        let evicted: bool = self.entries.len() >= REF_CACHE_CAPACITY;
        if evicted {
            self.entries.remove(0);
        }
        let ghost mid = self.entries@;
        proof {
            if evicted {
                assert(forall|i: int| 0 <= i < mid.len() ==> mid[i] == pre[i + 1]);
            } else {
                assert(mid =~= pre);
            }
            assert forall|i: int| 0 <= i < mid.len() implies (#[trigger] mid[i]).key != key
                && old(self).spec_maps(mid[i].key, mid[i].val) by {
                if evicted {
                    assert(old(self).entries@[i + 1] == mid[i]);
                    assert(old(self).entries@[i + 1] == (CacheEntry {
                        key: mid[i].key,
                        val: mid[i].val,
                    }));
                } else {
                    assert(old(self).entries@[i] == mid[i]);
                    assert(old(self).entries@[i] == (CacheEntry {
                        key: mid[i].key,
                        val: mid[i].val,
                    }));
                }
            }
            assert(forall|i: int, j: int|
                0 <= i < j < mid.len() ==> (#[trigger] mid[i]).key != (#[trigger] mid[j]).key);
        }
        self.entries.push(CacheEntry { key, val });
        assert(forall|i: int| 0 <= i < mid.len() ==> self.entries@[i] == mid[i]);
        assert(self.entries@[self.entries@.len() - 1] == (CacheEntry { key, val }));
    }

    /// Drop the translation of `key`, if one is memoized.  Store mutations
    /// call this for every row they delete or make unresolvable.
    pub fn invalidate(&mut self, key: u64)
        requires
            old(self).wf(),
        ensures
            final(self).wf(),
            !final(self).spec_has_key(key),
            final(self).entries_subset_of(old(self)),
    {
        let mut i: usize = 0;
        while i < self.entries.len()
            invariant
                i <= self.entries@.len(),
                old(self).wf(),
                self.entries@ == old(self).entries@,
                forall|j: int| 0 <= j < i ==> (#[trigger] self.entries@[j]).key != key,
            decreases self.entries@.len() - i,
        {
            if self.entries[i].key == key {
                let ghost pre = self.entries@;
                self.entries.remove(i);
                assert(forall|j: int|
                    0 <= j < self.entries@.len() ==> self.entries@[j] == (if j < i {
                        pre[j]
                    } else {
                        pre[j + 1]
                    }));
                assert forall|j: int| 0 <= j < self.entries@.len() implies (
                #[trigger] self.entries@[j]).key != key by {
                    if j >= i {
                        assert(pre[j + 1].key != pre[i as int].key);
                    }
                }
                return ;
            }
            i += 1;
        }
    }
}

} // verus!
