//! Bounded, TTL'd caches: the bookkeeping behind every read path of the
//! store. Time is a caller-supplied clock in milliseconds; a value stored at
//! `at` is fresh at `now` while `now - at` (zero when `now` is earlier) is
//! below the cache's TTL.
//!
//! Eviction runs at the end of every insertion: every expired entry is
//! dropped, then, if the cache still holds more than its capacity, the single
//! oldest remaining entry is dropped too.

use vstd::prelude::*;

verus! {

/// A key that can be compared and copied with a statement of what it does.
pub trait CacheKey: View + Sized {
    /// Whether `self` and `other` are the same key.
    fn same_key(&self, other: &Self) -> (r: bool)
        ensures
            r == (self@ == other@),
    ;

    /// An owned copy of the key.
    fn copy_key(&self) -> (r: Self)
        ensures
            r@ == self@,
    ;
}

impl CacheKey for String {
    fn same_key(&self, other: &Self) -> (r: bool) {
        crate::text::str_eq(self.as_str(), other.as_str())
    }

    fn copy_key(&self) -> (r: Self) {
        self.clone()
    }
}

impl CacheKey for () {
    fn same_key(&self, other: &Self) -> (r: bool) {
        true
    }

    fn copy_key(&self) -> (r: Self) {
        ()
    }
}

/// One stored value, with the clock reading at which it was stored.
pub struct CacheEntry<K, V> {
    pub key: K,
    pub value: V,
    pub stored_at: u64,
}

/// Age of a value stored at `at`, read at `now`: zero when `now` is earlier.
pub open spec fn age(at: u64, now: u64) -> int {
    if now >= at {
        now - at
    } else {
        0
    }
}

/// A value stored at `at` is still served at `now`.
pub open spec fn is_fresh(at: u64, ttl: u64, now: u64) -> bool {
    age(at, now) < ttl
}

/// The entries of `s` still fresh at `now`, in order.
pub open spec fn keep_fresh<K, V>(s: Seq<CacheEntry<K, V>>, ttl: u64, now: u64) -> Seq<CacheEntry<K, V>>
    decreases s.len(),
{
    if s.len() == 0 {
        Seq::empty()
    } else {
        keep_fresh(s.drop_last(), ttl, now) + if is_fresh(s.last().stored_at, ttl, now) {
            seq![s.last()]
        } else {
            Seq::empty()
        }
    }
}

/// Index of the first entry of `s` with the smallest storage time (`0` for
/// an empty sequence).
pub open spec fn oldest_index<K, V>(s: Seq<CacheEntry<K, V>>) -> int
    decreases s.len(),
{
    if s.len() <= 1 {
        0
    } else {
        let m = oldest_index(s.drop_last());
        if s.last().stored_at < s[m].stored_at {
            s.len() - 1
        } else {
            m
        }
    }
}

/// `s` after an eviction pass at `now`: the expired entries dropped, then
/// the oldest remaining one too if more than `cap` remain.
pub open spec fn evicted<K, V>(s: Seq<CacheEntry<K, V>>, ttl: u64, cap: usize, now: u64) -> Seq<
    CacheEntry<K, V>,
> {
    let f = keep_fresh(s, ttl, now);
    if f.len() > cap {
        f.remove(oldest_index(f))
    } else {
        f
    }
}

/// Index of the entry of `s` whose key has view `k`, or `-1`.
pub open spec fn index_of<K: View, V>(s: Seq<CacheEntry<K, V>>, k: K::V) -> int
    decreases s.len(),
{
    if s.len() == 0 {
        -1
    } else if s.last().key@ == k {
        s.len() - 1
    } else {
        index_of(s.drop_last(), k)
    }
}

/// `s` without the entry for key `k`, if it has one.
pub open spec fn without_key<K: View, V>(s: Seq<CacheEntry<K, V>>, k: K::V) -> Seq<CacheEntry<K, V>> {
    let i = index_of(s, k);
    if i >= 0 {
        s.remove(i)
    } else {
        s
    }
}

/// The value that entries `s` serve for key `k` at `now`: the one stored
/// for `k`, while fresh.
pub open spec fn served<K: View, V>(s: Seq<CacheEntry<K, V>>, ttl: u64, k: K::V, now: u64) -> Option<V> {
    let i = index_of(s, k);
    if i >= 0 && is_fresh(s[i].stored_at, ttl, now) {
        Some(s[i].value)
    } else {
        None
    }
}

/// No two entries of `s` share a key.
pub open spec fn distinct_keys<K: View, V>(s: Seq<CacheEntry<K, V>>) -> bool {
    forall|i: int, j: int| 0 <= i < j < s.len() ==> (#[trigger] s[i]).key@ != (#[trigger] s[j]).key@
}

/// A per-key, TTL'd, capacity-bounded cache.
pub struct TtlCache<K: CacheKey, V> {
    entries: Vec<CacheEntry<K, V>>,
    ttl: u64,
    cap: usize,
}

impl<K: CacheKey, V> TtlCache<K, V> {
    /// No two stored entries share a key.
    #[verifier::type_invariant]
    spec fn keys_distinct(self) -> bool {
        distinct_keys(self.entries@)
    }

    /// The stored entries, in storage order.
    pub closed spec fn contents(&self) -> Seq<CacheEntry<K, V>> {
        self.entries@
    }

    /// How long a stored value is served.
    pub closed spec fn spec_ttl(&self) -> u64 {
        self.ttl
    }

    /// Soft bound on the number of entries kept.
    pub closed spec fn spec_cap(&self) -> usize {
        self.cap
    }

    /// No two entries share a key.
    pub open spec fn wf(&self) -> bool {
        distinct_keys(self.contents())
    }

    /// The value served for `k` at `now`, if any.
    pub open spec fn fresh_value(&self, k: K::V, now: u64) -> Option<V> {
        served(self.contents(), self.spec_ttl(), k, now)
    }

    /// An empty cache serving values for `ttl` milliseconds and keeping about
    /// `cap` of them.
    pub fn new(ttl: u64, cap: usize) -> (r: Self)
        ensures
            r.contents().len() == 0,
            r.spec_ttl() == ttl,
            r.spec_cap() == cap,
            r.wf(),
    {
        TtlCache { entries: Vec::new(), ttl, cap }
    }

    /// Number of stored entries.
    pub fn len(&self) -> (r: usize)
        ensures
            r == self.contents().len(),
    {
        self.entries.len()
    }

    fn find_in(entries: &Vec<CacheEntry<K, V>>, key: &K) -> (r: Option<usize>)
        ensures
            match r {
                Some(i) => i == index_of(entries@, key@) && i < entries@.len(),
                None => index_of(entries@, key@) == -1,
            },
    {
        let mut i: usize = entries.len();
        proof {
            assert(entries@.take(i as int) =~= entries@);
        }
        while i > 0
            invariant
                i <= entries@.len(),
                index_of(entries@, key@) == index_of(entries@.take(i as int), key@),
            decreases i,
        {
            if entries[i - 1].key.same_key(key) {
                return Some(i - 1);
            }
            proof {
                assert(entries@.take(i as int).drop_last() =~= entries@.take(i - 1));
            }
            i = i - 1;
        }
        None
    }

    /// The still-fresh value stored for `key`, if any; never stores anything.
    pub fn get_fresh(&self, key: &K, now: u64) -> (r: Option<&V>)
        ensures
            match r {
                Some(v) => self.fresh_value(key@, now) == Some(*v),
                None => self.fresh_value(key@, now) is None,
            },
    {
        match Self::find_in(&self.entries, key) {
            Some(i) => {
                let at = self.entries[i].stored_at;
                let age = if now >= at { now - at } else { 0 };
                if age < self.ttl {
                    Some(&self.entries[i].value)
                } else {
                    None
                }
            },
            None => None,
        }
    }

    /// Drops every entry, fresh ones included.
    pub fn clear(&mut self)
        ensures
            final(self).contents().len() == 0,
            final(self).spec_ttl() == old(self).spec_ttl(),
            final(self).spec_cap() == old(self).spec_cap(),
            final(self).wf(),
    {
        self.entries = Vec::new();
    }

    /// `entries` after an eviction pass at `now`.
    fn evicted_entries(entries: Vec<CacheEntry<K, V>>, ttl: u64, cap: usize, now: u64) -> (r: Vec<
        CacheEntry<K, V>,
    >)
        requires
            distinct_keys(entries@),
        ensures
            r@ == evicted(entries@, ttl, cap, now),
            distinct_keys(r@),
    {
        let ghost orig = entries@;
        let mut rest = entries;
        let mut kept: Vec<CacheEntry<K, V>> = Vec::new();
        let mut k: usize = 0;
        let n = rest.len();
        assert(rest@ =~= orig.skip(0));
        assert(orig.take(0) =~= Seq::<CacheEntry<K, V>>::empty());
        while rest.len() > 0
            invariant
                n == orig.len(),
                k + rest@.len() == n,
                rest@ == orig.skip(k as int),
                kept@ == keep_fresh(orig.take(k as int), ttl, now),
                distinct_keys(orig),
                distinct_keys(kept@),
                forall|m: int| 0 <= m < kept@.len() ==> exists|j: int| 0 <= j < k && #[trigger] kept@[m] == orig[j],
            decreases rest.len(),
        {
            let e = rest.remove(0);
            proof {
                assert(e == orig[k as int]);
                assert(rest@ =~= orig.skip(k + 1));
                assert(orig.take(k + 1).drop_last() =~= orig.take(k as int));
                assert(orig.take(k + 1).last() == orig[k as int]);
            }
            let age = if now >= e.stored_at { now - e.stored_at } else { 0 };
            if age < ttl {
                let ghost before = kept@;
                kept.push(e);
                proof {
                    assert forall|a: int, b: int| 0 <= a < b < kept@.len() implies (#[trigger] kept@[a]).key@
                        != (#[trigger] kept@[b]).key@ by {
                        if b == before.len() {
                            let j = choose|j: int| 0 <= j < k && #[trigger] before[a] == orig[j];
                            assert(orig[j] == before[a]);
                        }
                    }
                    assert forall|m: int| 0 <= m < kept@.len() implies exists|j: int| 0 <= j < k + 1 && #[trigger] kept@[m] == orig[j] by {
                        if m == before.len() {
                            assert(kept@[m] == orig[k as int]);
                        } else {
                            let j = choose|j: int| 0 <= j < k && #[trigger] before[m] == orig[j];
                            assert(kept@[m] == orig[j]);
                        }
                    }
                }
            } else {
                proof {
                    assert(keep_fresh(orig.take(k + 1), ttl, now) =~= keep_fresh(orig.take(k as int), ttl, now));
                }
            }
            k = k + 1;
        }
        proof {
            assert(orig.take(n as int) =~= orig);
        }
        if kept.len() > cap {
            let idx = Self::oldest_of(&kept);
            let ghost before = kept@;
            kept.remove(idx);
            proof {
                assert forall|a: int, b: int| 0 <= a < b < kept@.len() implies (#[trigger] kept@[a]).key@
                    != (#[trigger] kept@[b]).key@ by {
                    let a0 = if a < idx { a } else { a + 1 };
                    let b0 = if b < idx { b } else { b + 1 };
                    assert(kept@[a] == before[a0]);
                    assert(kept@[b] == before[b0]);
                }
            }
        }
        kept
    }

    /// Drops every expired entry, then, if more than the capacity remain, the
    /// oldest remaining one.
    pub fn evict(&mut self, now: u64)
        ensures
            final(self).contents() == evicted(old(self).contents(), old(self).spec_ttl(), old(self).spec_cap(), now),
            final(self).spec_ttl() == old(self).spec_ttl(),
            final(self).spec_cap() == old(self).spec_cap(),
            final(self).wf(),
    {
        proof {
            use_type_invariant(&*self);
        }
        let mut current: Vec<CacheEntry<K, V>> = Vec::new();
        std::mem::swap(&mut current, &mut self.entries);
        self.entries = Self::evicted_entries(current, self.ttl, self.cap, now);
    }

    fn oldest_of(entries: &Vec<CacheEntry<K, V>>) -> (r: usize)
        requires
            entries@.len() > 0,
        ensures
            r == oldest_index(entries@),
            r < entries@.len(),
    {
        let mut m: usize = 0;
        let mut i: usize = 1;
        while i < entries.len()
            invariant
                1 <= i <= entries@.len(),
                m < i,
                m == oldest_index(entries@.take(i as int)),
            decreases entries.len() - i,
        {
            proof {
                assert(entries@.take(i + 1).drop_last() =~= entries@.take(i as int));
                assert(entries@.take(i as int)[m as int] == entries@[m as int]);
            }
            if entries[i].stored_at < entries[m].stored_at {
                m = i;
            }
            i = i + 1;
        }
        proof {
            assert(entries@.take(i as int) =~= entries@);
        }
        m
    }

    /// Stores `value` for `key` at `now`, replacing any value stored for it,
    /// then runs an eviction pass at `now`.
    pub fn insert(&mut self, key: K, value: V, now: u64)
        ensures
            final(self).contents() == evicted(
                without_key(old(self).contents(), key@).push(CacheEntry { key, value, stored_at: now }),
                old(self).spec_ttl(),
                old(self).spec_cap(),
                now,
            ),
            final(self).spec_ttl() == old(self).spec_ttl(),
            final(self).spec_cap() == old(self).spec_cap(),
            final(self).wf(),
    {
        proof {
            use_type_invariant(&*self);
        }
        let mut current: Vec<CacheEntry<K, V>> = Vec::new();
        std::mem::swap(&mut current, &mut self.entries);
        let ghost orig = current@;
        match Self::find_in(&current, &key) {
            Some(i) => {
                current.remove(i);
                proof {
                    assert forall|a: int, b: int| 0 <= a < b < current@.len() implies (#[trigger] current@[a]).key@
                        != (#[trigger] current@[b]).key@ by {
                        let a0 = if a < i { a } else { a + 1 };
                        let b0 = if b < i { b } else { b + 1 };
                        assert(current@[a] == orig[a0]);
                        assert(current@[b] == orig[b0]);
                    }
                }
            },
            None => {},
        }
        proof {
            lemma_without_key_absent(orig, key@);
            assert(current@ == without_key(orig, key@));
        }
        let ghost before = current@;
        current.push(CacheEntry { key, value, stored_at: now });
        proof {
            assert forall|a: int, b: int| 0 <= a < b < current@.len() implies (#[trigger] current@[a]).key@
                != (#[trigger] current@[b]).key@ by {
                if b == before.len() {
                    assert(before[a] == current@[a]);
                }
            }
        }
        self.entries = Self::evicted_entries(current, self.ttl, self.cap, now);
    }
}

/// Every entry kept by `keep_fresh` is an entry of the input.
proof fn lemma_keep_fresh_subset<K, V>(s: Seq<CacheEntry<K, V>>, ttl: u64, now: u64)
    ensures
        keep_fresh(s, ttl, now).len() <= s.len(),
        forall|m: int|
            0 <= m < keep_fresh(s, ttl, now).len() ==> exists|j: int|
                0 <= j < s.len() && #[trigger] keep_fresh(s, ttl, now)[m] == s[j],
    decreases s.len(),
{
    if s.len() > 0 {
        let t = s.drop_last();
        lemma_keep_fresh_subset(t, ttl, now);
        let f = keep_fresh(s, ttl, now);
        let g = keep_fresh(t, ttl, now);
        assert forall|m: int| 0 <= m < f.len() implies exists|j: int| 0 <= j < s.len() && #[trigger] f[m] == s[j] by {
            if m < g.len() {
                assert(f[m] == g[m]);
                let j = choose|j: int| 0 <= j < t.len() && #[trigger] g[m] == t[j];
                assert(s[j] == t[j]);
            } else {
                assert(f[m] == s[s.len() - 1]);
            }
        }
    }
}

/// `oldest_index` points into a non-empty sequence.
proof fn lemma_oldest_index<K, V>(s: Seq<CacheEntry<K, V>>)
    requires
        s.len() > 0,
    ensures
        0 <= oldest_index(s) < s.len(),
    decreases s.len(),
{
    if s.len() > 1 {
        lemma_oldest_index(s.drop_last());
    }
}

/// A value just stored is served at the same clock reading, when values live
/// for a positive time, the cache keeps at least one entry, and no entry was
/// stored later than that reading.
pub proof fn law_inserted_value_is_served<K: View, V>(
    s: Seq<CacheEntry<K, V>>,
    key: K,
    value: V,
    ttl: u64,
    cap: usize,
    now: u64,
)
    requires
        distinct_keys(s),
        ttl > 0,
        cap >= 1,
        forall|j: int| 0 <= j < s.len() ==> (#[trigger] s[j]).stored_at <= now,
    ensures
        served(
            evicted(without_key(s, key@).push(CacheEntry { key, value, stored_at: now }), ttl, cap, now),
            ttl,
            key@,
            now,
        ) == Some(value),
{
    let e = CacheEntry { key, value, stored_at: now };
    let w = without_key(s, key@);
    lemma_index_of(s, key@);
    assert forall|j: int| 0 <= j < w.len() implies (#[trigger] w[j]).stored_at <= now by {
        let i = index_of(s, key@);
        if i >= 0 {
            let j0 = if j < i { j } else { j + 1 };
            assert(w[j] == s[j0]);
        }
    }
    let p = w.push(e);
    assert(p.drop_last() =~= w);
    let f = keep_fresh(p, ttl, now);
    assert(f =~= keep_fresh(w, ttl, now).push(e));
    lemma_keep_fresh_subset(w, ttl, now);
    let g = keep_fresh(w, ttl, now);
    assert forall|j: int| 0 <= j < f.len() implies (#[trigger] f[j]).stored_at <= now by {
        if j < g.len() {
            assert(f[j] == g[j]);
            let j0 = choose|j0: int| 0 <= j0 < w.len() && #[trigger] g[j] == w[j0];
        }
    }
    let t = evicted(p, ttl, cap, now);
    if f.len() > cap {
        lemma_oldest_index(g);
        assert(f.drop_last() =~= g);
        assert(oldest_index(f) < f.len() - 1);
        assert(t.last() == e);
    } else {
        assert(t.last() == e);
    }
    assert(t.len() > 0);
    assert(index_of(t, key@) == t.len() - 1);
}

/// An insertion never takes a cache that kept within its capacity above it.
pub proof fn law_insert_stays_within_cap<K: View, V>(
    s: Seq<CacheEntry<K, V>>,
    e: CacheEntry<K, V>,
    ttl: u64,
    cap: usize,
    now: u64,
)
    requires
        s.len() <= cap,
    ensures
        evicted(without_key(s, e.key@).push(e), ttl, cap, now).len() <= cap,
{
    let w = without_key(s, e.key@);
    lemma_index_of(s, e.key@);
    lemma_keep_fresh_subset(w.push(e), ttl, now);
    let f = keep_fresh(w.push(e), ttl, now);
    if f.len() > cap {
        lemma_oldest_index(f);
    }
}

/// After removing the entry for `k`, no entry of a sequence with distinct
/// keys has key `k`.
proof fn lemma_without_key_absent<K: View, V>(s: Seq<CacheEntry<K, V>>, k: K::V)
    requires
        distinct_keys(s),
    ensures
        forall|m: int| 0 <= m < without_key(s, k).len() ==> (#[trigger] without_key(s, k)[m]).key@ != k,
{
    lemma_index_of(s, k);
    let i = index_of(s, k);
    if i >= 0 {
        assert forall|m: int| 0 <= m < without_key(s, k).len() implies (#[trigger] without_key(s, k)[m]).key@ != k by {
            let m0 = if m < i { m } else { m + 1 };
            assert(without_key(s, k)[m] == s[m0]);
        }
    }
}

/// What `index_of` finds.
pub proof fn lemma_index_of<K: View, V>(s: Seq<CacheEntry<K, V>>, k: K::V)
    ensures
        -1 <= index_of(s, k) < s.len(),
        index_of(s, k) >= 0 ==> s[index_of(s, k)].key@ == k,
        index_of(s, k) == -1 ==> forall|m: int| 0 <= m < s.len() ==> (#[trigger] s[m]).key@ != k,
        forall|m: int| index_of(s, k) < m < s.len() ==> (#[trigger] s[m]).key@ != k,
    decreases s.len(),
{
    if s.len() > 0 {
        let t = s.drop_last();
        lemma_index_of(t, k);
        if s.last().key@ != k {
            assert(index_of(s, k) == index_of(t, k));
            assert forall|m: int| index_of(s, k) < m < s.len() implies (#[trigger] s[m]).key@ != k by {
                if m < s.len() - 1 {
                    assert(s[m] == t[m]);
                }
            }
            if index_of(s, k) == -1 {
                assert forall|m: int| 0 <= m < s.len() implies (#[trigger] s[m]).key@ != k by {
                    if m < s.len() - 1 {
                        assert(s[m] == t[m]);
                    }
                }
            }
        }
    }
}

/// A cache with no entries serves nothing: after a clear (such as the
/// invalidation of the installed listing after a write), every lookup
/// misses until a new value is inserted.
pub proof fn law_empty_cache_serves_nothing<K: CacheKey, V>(c: TtlCache<K, V>, k: K::V, now: u64)
    requires
        c.contents().len() == 0,
    ensures
        c.fresh_value(k, now) is None,
{
}

} // verus!
