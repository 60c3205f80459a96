//! The cache of file previews: previews are kept under the file's path,
//! with the time each was last read; when the cache outgrows its bound,
//! the fifth of its bound that was read longest ago is dropped. Making
//! the previews themselves is left to the caller.
use vstd::prelude::*;
use crate::text::{owned, str_eq};

verus! {

/// A cached preview.
pub struct CacheEntry<C> {
    pub key: String,
    pub content: C,
    pub generated_at: i64,
    pub file_size: u64,
    pub last_access: i64,
}

/// Statistics of the cache.
#[derive(Debug, Clone, Copy, PartialEq, Eq, Structural)]
pub struct CacheStats {
    pub entry_count: usize,
    pub total_size: u64,
    pub max_cache_size: usize,
}

/// No two entries share a key.
pub open spec fn keys_distinct<C>(es: Seq<CacheEntry<C>>) -> bool {
    forall|i: int, j: int| 0 <= i < j < es.len() ==> es[i].key@ != es[j].key@
}

/// Some entry has key `key`.
pub open spec fn has_key<C>(es: Seq<CacheEntry<C>>, key: Seq<char>) -> bool {
    exists|i: int| 0 <= i < es.len() && #[trigger] es[i].key@ == key
}

/// The entries of `after` are entries of `before`; those of `before`
/// left out were each read no later than any entry kept.
pub open spec fn evicted_oldest<C>(before: Seq<CacheEntry<C>>, after: Seq<CacheEntry<C>>) -> bool {
    &&& forall|i: int| 0 <= i < after.len() ==> #[trigger] before.contains(after[i])
    &&& forall|j: int, i: int|
        0 <= j < before.len() && !has_key(after, before[j].key@) && 0 <= i < after.len()
            ==> #[trigger] before[j].last_access <= #[trigger] after[i].last_access
}

/// The entry is not filed under `key`.
pub open spec fn other_key<C>(key: Seq<char>) -> spec_fn(CacheEntry<C>) -> bool {
    |e: CacheEntry<C>| e.key@ != key
}

/// A preview just cached is the one the cache holds under its key: after
/// caching it, the entries (as long as they do not outgrow the bound)
/// hold the key, and every entry under it has that preview.
pub proof fn law_cached_after_add<C>(entries: Seq<CacheEntry<C>>, key: String, content: C, file_size: u64, now: i64)
    ensures
        ({
            let added = entries.filter(other_key(key@)).push(
                CacheEntry { key, content, generated_at: now, file_size, last_access: now },
            );
            &&& has_key(added, key@)
            &&& forall|i: int| 0 <= i < added.len() && #[trigger] added[i].key@ == key@ ==> added[i].content == content
        }),
{
    let kept = entries.filter(other_key(key@));
    let added = kept.push(CacheEntry { key, content, generated_at: now, file_size, last_access: now });
    assert(added[added.len() - 1].key@ == key@);
    assert forall|i: int| 0 <= i < added.len() && #[trigger] added[i].key@ == key@ implies added[i].content
        == content by {
        if i < kept.len() {
            assert(added[i] == kept[i]);
            entries.lemma_filter_pred(other_key(key@), i);
        }
    }
}

/// The bytes of the cached files, added up.
pub open spec fn cached_bytes<C>(es: Seq<CacheEntry<C>>) -> nat
    decreases es.len(),
{
    if es.len() == 0 {
        0
    } else {
        cached_bytes(es.drop_last()) + es.last().file_size as nat
    }
}

/// Previews of files, cached up to a bound.
pub struct FilePreview<C> {
    cache: Vec<CacheEntry<C>>,
    max_cache_size: usize,
}

impl<C> FilePreview<C> {
    #[verifier::type_invariant]
    spec fn well_formed(self) -> bool {
        keys_distinct(self.cache@)
    }

    /// The cached entries.
    pub closed spec fn entries(self) -> Seq<CacheEntry<C>> {
        self.cache@
    }

    /// The bound of the cache.
    pub closed spec fn bound(self) -> usize {
        self.max_cache_size
    }

    /// An empty cache of at most 100 previews.
    pub fn new() -> (r: Self)
        ensures
            r.entries().len() == 0,
            r.bound() == 100,
    {
        FilePreview { cache: Vec::new(), max_cache_size: 100 }
    }

    /// The same cache, bounded by `max_size`.
    pub fn with_cache_size(self, max_size: usize) -> (r: Self)
        ensures
            r.entries() == self.entries(),
            r.bound() == max_size,
    {
        proof {
            use_type_invariant(&self);
        }
        FilePreview { cache: self.cache, max_cache_size: max_size }
    }

    /// The position of the entry under `key`, if any.
    fn position(&self, key: &str) -> (r: Option<usize>)
        ensures
            match r {
                Some(i) => i < self.entries().len() && self.entries()[i as int].key@ == key@,
                None => !has_key(self.entries(), key@),
            },
    {
        let mut i: usize = 0;
        while i < self.cache.len()
            invariant
                i <= self.cache@.len(),
                forall|k: int| 0 <= k < i ==> self.cache@[k].key@ != key@,
            decreases self.cache@.len() - i,
        {
            if str_eq(self.cache[i].key.as_str(), key) {
                return Some(i);
            }
            i = i + 1;
        }
        None
    }

    /// The cached preview of `key`, if any.
    pub fn cached(&self, key: &str) -> (r: Option<&C>)
        ensures
            r is Some <==> has_key(self.entries(), key@),
            r matches Some(c) ==> exists|i: int|
                0 <= i < self.entries().len() && #[trigger] self.entries()[i].key@ == key@
                    && self.entries()[i].content == *c,
    {
        match self.position(key) {
            Some(i) => Some(&self.cache[i].content),
            None => None,
        }
    }

    /// Records that the preview of `key` was read at time `now`; whether
    /// it was cached.
    pub fn touch(&mut self, key: &str, now: i64) -> (r: bool)
        ensures
            r == has_key(old(self).entries(), key@),
            final(self).bound() == old(self).bound(),
            final(self).entries().len() == old(self).entries().len(),
            forall|i: int|
                0 <= i < old(self).entries().len() ==> {
                    let (a, b) = (old(self).entries()[i], #[trigger] final(self).entries()[i]);
                    &&& b.key == a.key
                    &&& b.content == a.content
                    &&& b.generated_at == a.generated_at
                    &&& b.file_size == a.file_size
                    &&& b.last_access == if a.key@ == key@ {
                        now
                    } else {
                        a.last_access
                    }
                },
    {
        proof {
            use_type_invariant(&*self);
        }
        match self.position(key) {
            Some(i) => {
                let ghost before = self.cache@;
                let mut cache: Vec<CacheEntry<C>> = Vec::new();
                std::mem::swap(&mut cache, &mut self.cache);
                let mut e = cache.remove(i);
                e.last_access = now;
                cache.insert(i, e);
                proof {
                    assert forall|k: int| 0 <= k < before.len() && k != i implies cache@[k] == before[k] by {
                        if k < i {
                            assert(cache@[k] == before.remove(i as int)[k]);
                        } else {
                            assert(cache@[k] == before.remove(i as int)[k - 1]);
                        }
                    }
                    assert(keys_distinct(cache@)) by {
                        assert forall|a: int, b: int| 0 <= a < b < cache@.len() implies cache@[a].key@ != cache@[b].key@ by {
                            assert(cache@[a].key == before[a].key);
                            assert(cache@[b].key == before[b].key);
                        }
                    }
                }
                self.cache = cache;
                true
            },
            None => false,
        }
    }

    /// Drops the fifth of the bound read longest ago when the cache holds
    /// more entries than its bound.
    fn cleanup(&mut self)
        ensures
            final(self).bound() == old(self).bound(),
            old(self).entries().len() <= old(self).bound() ==> final(self).entries() == old(self).entries(),
            old(self).entries().len() > old(self).bound() ==> {
                &&& final(self).entries().len() == old(self).entries().len() - old(self).bound() / 5
                &&& evicted_oldest(old(self).entries(), final(self).entries())
            },
    {
        proof {
            use_type_invariant(&*self);
        }
        if self.cache.len() <= self.max_cache_size {
            return;
        }
        let ghost before = self.cache@;
        let to_remove = self.max_cache_size / 5;
        let mut cache: Vec<CacheEntry<C>> = Vec::new();
        std::mem::swap(&mut cache, &mut self.cache);
        let ghost mut removed: Seq<CacheEntry<C>> = Seq::empty();
        let mut t: usize = 0;
        while t < to_remove
            invariant
                to_remove < before.len(),
                t <= to_remove,
                cache@.len() == before.len() - t,
                keys_distinct(before),
                keys_distinct(cache@),
                forall|i: int| 0 <= i < cache@.len() ==> #[trigger] before.contains(cache@[i]),
                forall|j: int| 0 <= j < before.len() ==> has_key(cache@, before[j].key@) || removed.contains(#[trigger] before[j]),
                forall|a: int, b: int| 0 <= a < removed.len() && 0 <= b < cache@.len() ==> #[trigger] removed[a].last_access <= #[trigger] cache@[b].last_access,
                forall|a: int| 0 <= a < removed.len() ==> !has_key(cache@, #[trigger] removed[a].key@),
            decreases to_remove - t,
        {
            let mut m: usize = 0;
            let mut k: usize = 1;
            while k < cache.len()
                invariant
                    cache@.len() == before.len() - t,
                    cache@.len() > 0,
                    1 <= k <= cache@.len(),
                    m < k,
                    forall|x: int| 0 <= x < k ==> cache@[m as int].last_access <= #[trigger] cache@[x].last_access,
                decreases cache@.len() - k,
            {
                if cache[k].last_access < cache[m].last_access {
                    m = k;
                }
                k = k + 1;
            }
            let ghost c0 = cache@;
            let ghost gone = c0[m as int];
            let _dropped = cache.remove(m);
            proof {
                assert forall|i: int| 0 <= i < cache@.len() implies (#[trigger] cache@[i] == c0[if i < m { i } else { i + 1 }]) by {}
                assert(keys_distinct(cache@)) by {
                    assert forall|a: int, b: int| 0 <= a < b < cache@.len() implies cache@[a].key@ != cache@[b].key@ by {
                        assert(cache@[a] == c0[if a < m { a } else { a + 1 }]);
                        assert(cache@[b] == c0[if b < m { b } else { b + 1 }]);
                    }
                }
                assert forall|i: int| 0 <= i < cache@.len() implies #[trigger] before.contains(cache@[i]) by {
                    assert(cache@[i] == c0[if i < m { i } else { i + 1 }]);
                    assert(before.contains(c0[if i < m { i } else { i + 1 }]));
                }
                let r1 = removed.push(gone);
                assert forall|i: int| 0 <= i < cache@.len() implies cache@[i].key@ != gone.key@ by {
                    assert(cache@[i] == c0[if i < m { i } else { i + 1 }]);
                }
                assert forall|j: int| 0 <= j < before.len() implies has_key(cache@, before[j].key@) || r1.contains(#[trigger] before[j]) by {
                    if removed.contains(before[j]) {
                        let x = choose|x: int| 0 <= x < removed.len() && removed[x] == before[j];
                        assert(r1[x] == before[j]);
                    } else {
                        assert(has_key(c0, before[j].key@));
                        let y = choose|y: int| 0 <= y < c0.len() && #[trigger] c0[y].key@ == before[j].key@;
                        if y == m {
                            assert(before.contains(gone));
                            let z = choose|z: int| 0 <= z < before.len() && before[z] == gone;
                            if z != j {
                                assert(before[z].key@ != before[j].key@);
                            }
                            assert(r1[r1.len() - 1] == before[j]);
                        } else {
                            let y2 = if y < m { y } else { y - 1 };
                            assert(cache@[y2] == c0[y]);
                            assert(cache@[y2].key@ == before[j].key@);
                        }
                    }
                }
                assert forall|a: int, b: int| 0 <= a < r1.len() && 0 <= b < cache@.len() implies #[trigger] r1[a].last_access <= #[trigger] cache@[b].last_access by {
                    let b0 = if b < m { b } else { b + 1 };
                    assert(cache@[b] == c0[b0]);
                    if a < removed.len() {
                        assert(r1[a] == removed[a]);
                    } else {
                        assert(r1[a] == gone);
                    }
                }
                assert forall|a: int| 0 <= a < r1.len() implies !has_key(cache@, #[trigger] r1[a].key@) by {
                    if a < removed.len() {
                        assert(r1[a] == removed[a]);
                        if has_key(cache@, removed[a].key@) {
                            let y = choose|y: int| 0 <= y < cache@.len() && #[trigger] cache@[y].key@ == removed[a].key@;
                            assert(cache@[y] == c0[if y < m { y } else { y + 1 }]);
                        }
                    }
                }
                removed = r1;
            }
            t = t + 1;
        }
        proof {
            let after = cache@;
            assert forall|j: int, i: int|
                0 <= j < before.len() && !has_key(after, before[j].key@) && 0 <= i < after.len()
                    implies #[trigger] before[j].last_access <= #[trigger] after[i].last_access by {
                assert(removed.contains(before[j]));
                let x = choose|x: int| 0 <= x < removed.len() && removed[x] == before[j];
                assert(removed[x].last_access <= after[i].last_access);
            }
        }
        self.cache = cache;
    }

    /// Caches the preview of `key`, generated at time `now` from a file of
    /// `file_size` bytes, in place of any earlier one, read at `now`; then
    /// drops the oldest fifth of the bound if the cache has outgrown it.
    pub fn add_to_cache(&mut self, key: String, content: C, file_size: u64, now: i64)
        ensures
            final(self).bound() == old(self).bound(),
            ({
                let added = old(self).entries().filter(other_key(key@)).push(
                    CacheEntry { key, content, generated_at: now, file_size, last_access: now },
                );
                if added.len() <= old(self).bound() {
                    final(self).entries() == added
                } else {
                    &&& final(self).entries().len() == added.len() - old(self).bound() / 5
                    &&& evicted_oldest(added, final(self).entries())
                }
            }),
    {
        proof {
            use_type_invariant(&*self);
        }
        let ghost before = self.cache@;
        let ghost k = key@;
        let ghost keep = other_key::<C>(k);
        let mut cache: Vec<CacheEntry<C>> = Vec::new();
        std::mem::swap(&mut cache, &mut self.cache);
        let mut kept: Vec<CacheEntry<C>> = Vec::new();
        assert(before.take(0).filter(keep) =~= Seq::<CacheEntry<C>>::empty());
        assert(before.take(0) + before =~= before);
        while cache.len() > 0
            invariant
                keep == other_key::<C>(k),
                k == key@,
                keys_distinct(before),
                cache@.len() <= before.len(),
                before == before.take(before.len() - cache@.len()) + cache@,
                kept@ == before.take(before.len() - cache@.len()).filter(keep),
                keys_distinct(kept@),
                forall|a: int| 0 <= a < kept@.len() ==> (#[trigger] kept@[a]).key@ != k,
                forall|a: int| 0 <= a < kept@.len() ==> has_key(before.take(before.len() - cache@.len()), (#[trigger] kept@[a]).key@),
            decreases cache@.len(),
        {
            let ghost c0 = cache@;
            let ghost n = before.len() - c0.len();
            let e = cache.remove(0);
            proof {
                assert(cache@ =~= c0.drop_first());
                assert(before[n] == c0[0]);
                assert(before.take(n + 1) =~= before.take(n).push(c0[0]));
                before.take(n).lemma_filter_push(c0[0], keep);
                assert(before =~= before.take(n + 1) + cache@);
            }
            if !str_eq(e.key.as_str(), key.as_str()) {
                let ghost k0 = kept@;
                kept.push(e);
                proof {
                    assert forall|a: int| 0 <= a < k0.len() implies k0[a].key@ != c0[0].key@ by {
                        let j = choose|j: int| 0 <= j < before.take(n).len() && #[trigger] before.take(n)[j].key@ == k0[a].key@;
                        assert(before[j].key@ == k0[a].key@);
                    }
                    assert forall|a: int| 0 <= a < kept@.len() implies has_key(before.take(n + 1), (#[trigger] kept@[a]).key@) by {
                        if a < k0.len() {
                            let j = choose|j: int| 0 <= j < before.take(n).len() && #[trigger] before.take(n)[j].key@ == k0[a].key@;
                            assert(before.take(n + 1)[j] == before.take(n)[j]);
                        } else {
                            assert(before.take(n + 1)[n] == c0[0]);
                        }
                    }
                }
            } else {
                proof {
                    assert forall|a: int| 0 <= a < kept@.len() implies has_key(before.take(n + 1), (#[trigger] kept@[a]).key@) by {
                        let j = choose|j: int| 0 <= j < before.take(n).len() && #[trigger] before.take(n)[j].key@ == kept@[a].key@;
                        assert(before.take(n + 1)[j] == before.take(n)[j]);
                    }
                }
            }
        }
        proof {
            assert(before.take(before.len() as int) =~= before);
            assert(kept@ == before.filter(keep));
        }
        let ghost filtered = kept@;
        kept.push(CacheEntry { key, content, generated_at: now, file_size, last_access: now });
        proof {
            assert(keys_distinct(kept@)) by {
                assert forall|a: int, b: int| 0 <= a < b < kept@.len() implies kept@[a].key@ != kept@[b].key@ by {
                    if b == kept@.len() - 1 {
                        assert(kept@[a] == filtered[a]);
                    } else {
                        assert(kept@[a] == filtered[a]);
                        assert(kept@[b] == filtered[b]);
                    }
                }
            }
        }
        self.cache = kept;
        self.cleanup();
    }

    /// Empties the cache.
    pub fn clear_cache(&mut self)
        ensures
            final(self).entries().len() == 0,
            final(self).bound() == old(self).bound(),
    {
        self.cache = Vec::new();
    }

    /// The number of cached previews, the bytes of their files added up
    /// (wrapping past `u64::MAX`), and the bound.
    pub fn get_cache_stats(&self) -> (r: CacheStats)
        ensures
            r.entry_count == self.entries().len(),
            r.total_size as nat == cached_bytes(self.entries()) % 0x1_0000_0000_0000_0000,
            r.max_cache_size == self.bound(),
    {
        let mut total: u64 = 0;
        let mut i: usize = 0;
        while i < self.cache.len()
            invariant
                i <= self.cache@.len(),
                total as nat == cached_bytes(self.cache@.take(i as int)) % 0x1_0000_0000_0000_0000,
            decreases self.cache@.len() - i,
        {
            proof {
                let t = self.cache@.take(i + 1);
                assert(t.drop_last() =~= self.cache@.take(i as int));
                assert(t.last() == self.cache@[i as int]);
                let s = cached_bytes(self.cache@.take(i as int));
                let f = self.cache@[i as int].file_size as nat;
                assert((s % 0x1_0000_0000_0000_0000 + f) % 0x1_0000_0000_0000_0000 == (s + f) % 0x1_0000_0000_0000_0000) by (nonlinear_arith);
            }
            total = total.wrapping_add(self.cache[i].file_size);
            i = i + 1;
        }
        assert(self.cache@.take(self.cache@.len() as int) =~= self.cache@);
        CacheStats { entry_count: self.cache.len(), total_size: total, max_cache_size: self.max_cache_size }
    }
}

} // verus!
