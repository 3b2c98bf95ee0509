//! The local cache of downloaded covers: when it is pruned, which files a
//! pruning removes, and the remembered dimensions of each cover.

use vstd::prelude::*;

use crate::artwork::elapsed;
use crate::path::{path_key, paths_equal};

verus! {

/// Cached covers older than this many seconds are removed.
pub const MAX_ART_CACHE_AGE_SECS: u64 = 30 * 24 * 60 * 60;

/// The cache is trimmed to at most this many bytes.
pub const MAX_ART_CACHE_BYTES: u64 = 100 * 1024 * 1024;

/// The cache is pruned at most once in this many nanoseconds.
pub const CACHE_PRUNE_INTERVAL_NANOS: u64 = 6 * 60 * 60 * 1_000_000_000;

/// When the cache was last pruned, on the applet's monotonic clock (nanoseconds).
pub struct CachePruneClock {
    pub last_prune: Option<u64>,
}

impl CachePruneClock {
    /// Never pruned yet.
    pub fn new() -> (r: Self)
        ensures
            r.last_prune is None,
    {
        CachePruneClock { last_prune: None }
    }
}

/// The cache is due for pruning unless it was pruned less than the interval ago.
pub open spec fn spec_prune_due(last_prune: Option<u64>, now: u64) -> bool {
    match last_prune {
        Some(t) => elapsed(now, t) >= CACHE_PRUNE_INTERVAL_NANOS,
        None => true,
    }
}

/// Whether the cache is to be pruned at `now`; when it is, `now` becomes
/// the time of the last pruning.
pub fn prune_album_art_cache(clock: &mut CachePruneClock, now: u64) -> (r: bool)
    ensures
        r == spec_prune_due(old(clock).last_prune, now),
        r ==> final(clock).last_prune == Some(now),
        !r ==> final(clock).last_prune == old(clock).last_prune,
{
    if let Some(last) = clock.last_prune {
        if now < last || now - last < CACHE_PRUNE_INTERVAL_NANOS {
            return false;
        }
    }
    clock.last_prune = Some(now);
    true
}

/// The cache is pruned on the first chance, then again only once six hours
/// have passed since the last pruning; covers are kept for 30 days and the
/// cache for at most 100 MiB.
pub proof fn law_cache_limits(last: u64, now: u64)
    ensures
        spec_prune_due(None, now),
        last <= now ==> (spec_prune_due(Some(last), now) <==> now - last >= 21_600_000_000_000),
        MAX_ART_CACHE_AGE_SECS == 2_592_000,
        MAX_ART_CACHE_BYTES == 104_857_600,
{
}

/// Once the cache is pruned, it is not pruned again within the interval.
pub proof fn law_prune_at_most_once_per_interval(first: u64, later: u64)
    requires
        first <= later,
        later - first < CACHE_PRUNE_INTERVAL_NANOS,
    ensures
        !spec_prune_due(Some(first), later),
{
}

/// A moment of the system clock: seconds and nanoseconds since the Unix
/// epoch (seconds are negative before it).
#[derive(Clone, Copy, Debug, PartialEq, Eq, Structural)]
pub struct Timestamp {
    pub secs: i64,
    pub nanos: u32,
}

/// The moment `t` in nanoseconds since the Unix epoch.
pub open spec fn timestamp_nanos(t: Timestamp) -> int {
    t.secs * 1_000_000_000 + t.nanos
}

fn nanos_of(t: Timestamp) -> (r: i128)
    ensures
        r == timestamp_nanos(t),
{
    (t.secs as i128) * 1_000_000_000i128 + (t.nanos as i128)
}

/// What the pruning reads of one directory entry of the cache.
#[derive(Clone, Copy, Debug, PartialEq, Eq, Structural)]
pub struct CacheEntry {
    /// The entry is a regular file.
    pub is_file: bool,
    /// The entry is a partial download (its extension is `part`).
    pub is_partial: bool,
    /// When the file was last modified, if the system reports it.
    pub modified: Option<Timestamp>,
    /// The file's size in bytes.
    pub len: u64,
}

/// The modification time of `e` in nanoseconds; the Unix epoch if unknown.
pub open spec fn modified_nanos(e: Option<CacheEntry>) -> int {
    match e {
        Some(c) => match c.modified {
            Some(t) => timestamp_nanos(t),
            None => 0,
        },
        None => 0,
    }
}

/// The entry could be read and is a finished cached cover.
pub open spec fn is_cached_cover(e: Option<CacheEntry>) -> bool {
    match e {
        Some(c) => c.is_file && !c.is_partial,
        None => false,
    }
}

/// How old a file modified at `modified` is at `now`; zero if it is from the future.
pub open spec fn age(now: int, modified: int) -> int {
    if now >= modified {
        now - modified
    } else {
        0
    }
}

/// The cached cover at index `i` is older than `max_age` nanoseconds at `now`.
pub open spec fn is_expired(entries: Seq<Option<CacheEntry>>, i: int, now: int, max_age: int) -> bool {
    is_cached_cover(entries[i]) && age(now, modified_nanos(entries[i])) > max_age
}

/// The cached cover at index `i` stays after the expired ones are removed.
pub open spec fn is_kept(entries: Seq<Option<CacheEntry>>, i: int, now: int, max_age: int) -> bool {
    is_cached_cover(entries[i]) && !(age(now, modified_nanos(entries[i])) > max_age)
}

/// The indices below `n` of the expired covers, in increasing order.
pub open spec fn expired_indices(entries: Seq<Option<CacheEntry>>, n: nat, now: int, max_age: int) -> Seq<usize>
    decreases n,
{
    if n == 0 {
        Seq::empty()
    } else if is_expired(entries, n - 1, now, max_age) {
        expired_indices(entries, (n - 1) as nat, now, max_age).push((n - 1) as usize)
    } else {
        expired_indices(entries, (n - 1) as nat, now, max_age)
    }
}

proof fn lemma_expired_members(entries: Seq<Option<CacheEntry>>, n: nat, now: int, max_age: int, k: int)
    requires
        n <= entries.len(),
        entries.len() <= usize::MAX,
        0 <= k < entries.len(),
    ensures
        expired_indices(entries, n, now, max_age).contains(k as usize) <==> (k < n && is_expired(
            entries,
            k,
            now,
            max_age,
        )),
    decreases n,
{
    if n > 0 {
        lemma_expired_members(entries, (n - 1) as nat, now, max_age, k);
        let prev = expired_indices(entries, (n - 1) as nat, now, max_age);
        if is_expired(entries, n - 1, now, max_age) {
            let cur = prev.push((n - 1) as usize);
            assert(expired_indices(entries, n, now, max_age) == cur);
            assert(cur[prev.len() as int] == (n - 1) as usize);
            if k == n - 1 {
                assert(cur.contains(k as usize));
            } else {
                if cur.contains(k as usize) {
                    let j = choose|j: int| 0 <= j < cur.len() && cur[j] == k as usize;
                    assert(j != prev.len());
                    assert(prev[j] == k as usize);
                }
                if prev.contains(k as usize) {
                    let j = choose|j: int| 0 <= j < prev.len() && prev[j] == k as usize;
                    assert(cur[j] == k as usize);
                }
            }
        } else {
            assert(expired_indices(entries, n, now, max_age) == prev);
        }
    } else {
        assert(expired_indices(entries, 0, now, max_age) =~= Seq::<usize>::empty());
    }
}

/// A cache entry is removed as expired exactly when it is a finished cover
/// (a regular file, not a partial download) modified more than `max_age`
/// nanoseconds before `now`.
pub proof fn law_expired_covers(entries: Seq<Option<CacheEntry>>, now: int, max_age: int, k: int)
    requires
        entries.len() <= usize::MAX,
        0 <= k < entries.len(),
        max_age >= 0,
    ensures
        expired_indices(entries, entries.len(), now, max_age).contains(k as usize) <==> (
        entries[k] matches Some(c) && c.is_file && !c.is_partial && now - modified_nanos(entries[k])
            > max_age),
{
    lemma_expired_members(entries, entries.len(), now, max_age, k);
}

/// The sizes of the entries at the indices `order`, in that order.
pub open spec fn sizes_in(entries: Seq<Option<CacheEntry>>, order: Seq<usize>) -> Seq<u64> {
    order.map_values(|k: usize| entries[k as int]->0.len)
}

/// `total` capped at `u64::MAX`, as saturating additions give it.
pub open spec fn saturated(total: int) -> int {
    if total <= u64::MAX {
        total
    } else {
        u64::MAX as int
    }
}

/// Entry `i` comes before entry `j` in the oldest-first order: it was
/// modified earlier, or at the same time and listed earlier.
pub open spec fn older_than(entries: Seq<Option<CacheEntry>>, i: int, j: int) -> bool {
    modified_nanos(entries[i]) < modified_nanos(entries[j]) || (modified_nanos(entries[i])
        == modified_nanos(entries[j]) && i < j)
}

/// `order` lists the kept covers, each once, oldest first.
pub open spec fn oldest_first(entries: Seq<Option<CacheEntry>>, order: Seq<usize>, now: int, max_age: int) -> bool {
    &&& forall|k: int|
        0 <= k < entries.len() && is_kept(entries, k, now, max_age) ==> #[trigger] order.contains(
            k as usize,
        )
    &&& forall|a: int|
        0 <= a < order.len() ==> #[trigger] order[a] < entries.len() && is_kept(
            entries,
            order[a] as int,
            now,
            max_age,
        )
    &&& forall|a: int, b: int|
        0 <= a < b < order.len() ==> older_than(entries, #[trigger] order[a] as int, #[trigger] order[b] as int)
}

/// The bytes still in the cache while it is trimmed towards its limit.
pub struct Eviction {
    pub remaining: u64,
    pub max_bytes: u64,
}

impl Eviction {
    /// Whether the cache is still over its limit, so the next oldest cover goes.
    pub fn wants_eviction(&self) -> (r: bool)
        ensures
            r == (self.remaining > self.max_bytes),
    {
        self.remaining > self.max_bytes
    }

    /// Accounts for the attempt to remove a cover of `size` bytes: its
    /// bytes leave the count only if the removal succeeded.
    pub fn removed(&mut self, size: u64, succeeded: bool)
        ensures
            final(self).max_bytes == old(self).max_bytes,
            final(self).remaining == if succeeded {
                if old(self).remaining >= size {
                    (old(self).remaining - size) as u64
                } else {
                    0
                }
            } else {
                old(self).remaining
            },
    {
        if succeeded {
            self.remaining = self.remaining.saturating_sub(size);
        }
    }
}

/// What a pruning of the cache does: remove the expired covers, then remove
/// the kept ones oldest first while the cache is over its byte limit.
pub struct PrunePlan {
    /// The indices of the expired covers, in listing order.
    pub expired: Vec<usize>,
    /// The indices of the kept covers, oldest first.
    pub by_age: Vec<usize>,
    /// The byte count of the kept covers and the limit.
    pub eviction: Eviction,
}

/// Plans the pruning of a cache whose directory lists `entries` (`None`
/// where an entry's metadata could not be read): covers older than
/// `max_age_nanos` at `now` are expired; partial downloads and other entries
/// are left alone; the kept covers are ordered oldest first and their sizes
/// added up (saturating) against `max_bytes`.
pub fn prune_album_art_cache_with_limits(
    entries: &Vec<Option<CacheEntry>>,
    now: Timestamp,
    max_age_nanos: u128,
    max_bytes: u64,
) -> (r: PrunePlan)
    ensures
        r.expired@ == expired_indices(entries@, entries@.len(), timestamp_nanos(now), max_age_nanos as int),
        oldest_first(entries@, r.by_age@, timestamp_nanos(now), max_age_nanos as int),
        r.eviction.remaining == saturated(total_of(sizes_in(entries@, r.by_age@))),
        r.eviction.max_bytes == max_bytes,
{
    let ghost e = entries@;
    let ghost now_n = timestamp_nanos(now);
    let ghost max_age = max_age_nanos as int;
    let now_v = nanos_of(now);
    let mut expired: Vec<usize> = Vec::new();
    let mut by_age: Vec<usize> = Vec::new();
    let mut mods: Vec<i128> = Vec::new();
    let mut i: usize = 0;
    while i < entries.len()
        invariant
            e == entries@,
            now_n == timestamp_nanos(now),
            now_v == now_n,
            max_age == max_age_nanos as int,
            i <= e.len(),
            mods@.len() == i,
            forall|k: int| 0 <= k < i ==> #[trigger] mods@[k] == modified_nanos(e[k]),
            expired@ == expired_indices(e, i as nat, now_n, max_age),
            forall|k: int| 0 <= k < i && is_kept(e, k, now_n, max_age) ==> #[trigger] by_age@.contains(k as usize),
            forall|a: int| 0 <= a < by_age@.len() ==> #[trigger] by_age@[a] < i && is_kept(e, by_age@[a] as int, now_n, max_age),
            forall|a: int, b: int| 0 <= a < b < by_age@.len() ==> older_than(e, #[trigger] by_age@[a] as int, #[trigger] by_age@[b] as int),
        decreases e.len() - i,
    {
        let m: i128 = match &entries[i] {
            Some(c) => match c.modified {
                Some(t) => nanos_of(t),
                None => 0,
            },
            None => 0,
        };
        mods.push(m);
        if let Some(c) = &entries[i] {
            if c.is_file && !c.is_partial {
                let too_old = if now_v > m {
                    let diff: i128 = now_v - m;
                    (diff as u128) > max_age_nanos
                } else {
                    false
                };
                if too_old {
                    expired.push(i);
                } else {
                    // Insert `i` after every kept cover not modified later.
                    let mut p: usize = 0;
                    while p < by_age.len()
                        invariant
                            e == entries@,
                            i < e.len(),
                            mods@.len() == i + 1,
                            forall|k: int| 0 <= k <= i ==> #[trigger] mods@[k] == modified_nanos(e[k]),
                            m == modified_nanos(e[i as int]),
                            p <= by_age@.len(),
                            forall|a: int| 0 <= a < by_age@.len() ==> #[trigger] by_age@[a] < i,
                            forall|a: int| 0 <= a < p ==> modified_nanos(e[#[trigger] by_age@[a] as int]) <= m,
                        ensures
                            p < by_age@.len() ==> modified_nanos(e[by_age@[p as int] as int]) > m,
                        decreases by_age@.len() - p,
                    {
                        if mods[by_age[p]] > m {
                            break;
                        }
                        p = p + 1;
                    }
                    let ghost before = by_age@;
                    proof {
                        if p < before.len() {
                            assert(modified_nanos(e[before[p as int] as int]) > m);
                        }
                    }
                    by_age.insert(p, i);
                    proof {
                        let after = by_age@;
                        assert forall|a: int, b: int| 0 <= a < b < after.len() implies older_than(e, #[trigger] after[a] as int, #[trigger] after[b] as int) by {
                            if a < p && b < p {
                                assert(after[a] == before[a] && after[b] == before[b]);
                            } else if a < p && b == p {
                                assert(after[a] == before[a]);
                            } else if a < p && b > p {
                                assert(after[a] == before[a] && after[b] == before[b - 1]);
                            } else if a == p {
                                assert(after[b] == before[b - 1]);
                                assert(older_than(e, before[p as int] as int, before[b - 1] as int) || b - 1 == p);
                            } else {
                                assert(after[a] == before[a - 1] && after[b] == before[b - 1]);
                            }
                        }
                        assert forall|a: int| 0 <= a < after.len() implies #[trigger] after[a] < i + 1 && is_kept(e, after[a] as int, now_n, max_age) by {
                            if a < p {
                                assert(after[a] == before[a]);
                            } else if a > p {
                                assert(after[a] == before[a - 1]);
                            }
                        }
                        assert forall|k: int| 0 <= k < i && is_kept(e, k, now_n, max_age) implies #[trigger] after.contains(k as usize) by {
                            assert(before.contains(k as usize));
                            let a = choose|a: int| 0 <= a < before.len() && before[a] == k as usize;
                            if a < p {
                                assert(after[a] == before[a]);
                            } else {
                                assert(after[a + 1] == before[a]);
                            }
                        }
                        assert(after[p as int] == i);
                    }
                }
            }
        }
        proof {
            assert(expired_indices(e, (i + 1) as nat, now_n, max_age) == if is_expired(e, i as int, now_n, max_age) {
                expired_indices(e, i as nat, now_n, max_age).push(i as usize)
            } else {
                expired_indices(e, i as nat, now_n, max_age)
            });
        }
        i = i + 1;
    }
    let total = kept_total(entries, &by_age);
    PrunePlan { expired, by_age, eviction: Eviction { remaining: total, max_bytes } }
}

/// Adding `x` at the end adds it to the total.
proof fn lemma_total_push(s: Seq<u64>, x: u64)
    ensures
        total_of(s.push(x)) == total_of(s) + x,
    decreases s.len(),
{
    if s.len() > 0 {
        assert(s.push(x).drop_first() =~= s.drop_first().push(x));
        assert(s.push(x)[0] == s[0]);
        lemma_total_push(s.drop_first(), x);
    } else {
        assert(s.push(x).drop_first() =~= Seq::<u64>::empty());
        assert(total_of(s.push(x).drop_first()) == 0);
        assert(s.push(x)[0] == x);
    }
}

/// The saturating total size of the covers at the indices `order`.
fn kept_total(entries: &Vec<Option<CacheEntry>>, order: &Vec<usize>) -> (r: u64)
    requires
        forall|a: int| 0 <= a < order@.len() ==> #[trigger] order@[a] < entries@.len() && is_cached_cover(entries@[order@[a] as int]),
    ensures
        r == saturated(total_of(sizes_in(entries@, order@))),
{
    let mut total: u64 = 0;
    let mut i: usize = 0;
    assert(sizes_in(entries@, order@).take(0) =~= Seq::<u64>::empty());
    while i < order.len()
        invariant
            i <= order@.len(),
            forall|a: int| 0 <= a < order@.len() ==> #[trigger] order@[a] < entries@.len() && is_cached_cover(entries@[order@[a] as int]),
            total == saturated(total_of(sizes_in(entries@, order@).take(i as int))),
        decreases order@.len() - i,
    {
        let len = match &entries[order[i]] {
            Some(c) => c.len,
            None => 0,
        };
        proof {
            let sizes = sizes_in(entries@, order@);
            assert(sizes.take(i + 1) =~= sizes.take(i as int).push(sizes[i as int]));
            lemma_total_push(sizes.take(i as int), sizes[i as int]);
            lemma_total_nonnegative(sizes.take(i as int));
        }
        total = total.saturating_add(len);
        i = i + 1;
    }
    assert(sizes_in(entries@, order@).take(i as int) =~= sizes_in(entries@, order@));
    total
}


/// Evicting covers of `sizes`, oldest first, while `remaining` exceeds
/// `max_bytes`, every removal succeeding: the bytes left.
pub open spec fn bytes_after_eviction(sizes: Seq<u64>, remaining: int, max_bytes: int) -> int
    decreases sizes.len(),
{
    if remaining <= max_bytes || sizes.len() == 0 {
        remaining
    } else {
        bytes_after_eviction(
            sizes.drop_first(),
            if remaining >= sizes[0] { remaining - sizes[0] } else { 0 },
            max_bytes,
        )
    }
}

/// The total of `sizes`.
pub open spec fn total_of(sizes: Seq<u64>) -> int
    decreases sizes.len(),
{
    if sizes.len() == 0 {
        0
    } else {
        sizes[0] + total_of(sizes.drop_first())
    }
}

proof fn lemma_total_nonnegative(sizes: Seq<u64>)
    ensures
        total_of(sizes) >= 0,
    decreases sizes.len(),
{
    if sizes.len() > 0 {
        lemma_total_nonnegative(sizes.drop_first());
    }
}

/// When the byte count is the total of the kept covers and every removal
/// succeeds, trimming oldest first leaves the cache within its limit.
pub proof fn law_eviction_meets_limit(sizes: Seq<u64>, max_bytes: u64)
    ensures
        bytes_after_eviction(sizes, total_of(sizes), max_bytes as int) <= max_bytes,
    decreases sizes.len(),
{
    if total_of(sizes) <= max_bytes || sizes.len() == 0 {
    } else {
        lemma_total_nonnegative(sizes.drop_first());
        assert(total_of(sizes) - sizes[0] == total_of(sizes.drop_first()));
        law_eviction_meets_limit(sizes.drop_first(), max_bytes);
    }
}

/// Converts measured image dimensions; `None` if either does not fit in `u32`.
pub fn dimensions_from_size(width: usize, height: usize) -> (r: Option<(u32, u32)>)
    ensures
        r == if width <= u32::MAX && height <= u32::MAX {
            Some((width as u32, height as u32))
        } else {
            None::<(u32, u32)>
        },
{
    if width <= 4294967295usize && height <= 4294967295usize {
        Some((width as u32, height as u32))
    } else {
        None
    }
}

/// Whether two byte strings are equal.
pub fn bytes_equal(a: &Vec<u8>, b: &Vec<u8>) -> (r: bool)
    ensures
        r == (a@ == b@),
{
    if a.len() != b.len() {
        return false;
    }
    let mut i: usize = 0;
    while i < a.len()
        invariant
            a@.len() == b@.len(),
            i <= a@.len(),
            forall|k: int| 0 <= k < i ==> a@[k] == b@[k],
        decreases a@.len() - i,
    {
        if a[i] != b[i] {
            return false;
        }
        i = i + 1;
    }
    assert(a@ =~= b@);
    true
}

/// The dimensions read once for each cover path, so the panel can reserve a
/// thumbnail's natural width without decoding the image on every redraw.
pub struct ArtworkDimensionsCache {
    entries: Vec<(Vec<u8>, Option<(u32, u32)>)>,
}

impl ArtworkDimensionsCache {
    #[verifier::type_invariant]
    spec fn distinct_paths(self) -> bool {
        forall|i: int, j: int|
            0 <= i < self.entries@.len() && 0 <= j < self.entries@.len() && i != j
                ==> #[trigger] path_key(self.entries@[i].0@) != #[trigger] path_key(self.entries@[j].0@)
    }

    /// The remembered dimensions of each path, keyed by its components;
    /// `None` where the file could not be measured.
    pub closed spec fn dimensions(self) -> Map<(bool, bool, Seq<Seq<u8>>), Option<(u32, u32)>> {
        Map::new(
            |p: (bool, bool, Seq<Seq<u8>>)| exists|i: int| 0 <= i < self.entries@.len() && #[trigger] path_key(self.entries@[i].0@) == p,
            |p: (bool, bool, Seq<Seq<u8>>)|
                self.entries@[choose|i: int|
                    0 <= i < self.entries@.len() && #[trigger] path_key(self.entries@[i].0@) == p].1,
        )
    }

    /// Nothing remembered yet.
    pub fn new() -> (r: Self)
        ensures
            r.dimensions() == Map::<(bool, bool, Seq<Seq<u8>>), Option<(u32, u32)>>::empty(),
    {
        let r = ArtworkDimensionsCache { entries: Vec::new() };
        assert(r.dimensions() =~= Map::<(bool, bool, Seq<Seq<u8>>), Option<(u32, u32)>>::empty());
        r
    }

    fn position(&self, path: &Vec<u8>) -> (r: Option<usize>)
        ensures
            match r {
                Some(i) => i < self.entries@.len() && path_key(self.entries@[i as int].0@) == path_key(path@),
                None => forall|j: int| 0 <= j < self.entries@.len() ==> #[trigger] path_key(self.entries@[j].0@) != path_key(path@),
            },
    {
        let mut i: usize = 0;
        while i < self.entries.len()
            invariant
                i <= self.entries@.len(),
                forall|j: int| 0 <= j < i ==> #[trigger] path_key(self.entries@[j].0@) != path_key(path@),
            decreases self.entries@.len() - i,
        {
            if paths_equal(&self.entries[i].0, path) {
                return Some(i);
            }
            i = i + 1;
        }
        None
    }

    /// The remembered dimensions of `path`, if it was measured before.
    pub fn get(&self, path: &Vec<u8>) -> (r: Option<Option<(u32, u32)>>)
        ensures
            r == if self.dimensions().dom().contains(path_key(path@)) {
                Some(self.dimensions()[path_key(path@)])
            } else {
                None
            },
    {
        proof {
            use_type_invariant(self);
        }
        match self.position(path) {
            None => None,
            Some(i) => {
                proof {
                    let k = choose|k: int| 0 <= k < self.entries@.len() && #[trigger] path_key(self.entries@[k].0@) == path_key(path@);
                    assert(k == i);
                }
                Some(self.entries[i].1)
            },
        }
    }

    /// Remembers `dims` as the dimensions of a path that is not remembered yet.
    fn remember(&mut self, path: Vec<u8>, dims: Option<(u32, u32)>)
        requires
            !old(self).dimensions().dom().contains(path_key(path@)),
        ensures
            final(self).dimensions() == old(self).dimensions().insert(path_key(path@), dims),
    {
        proof {
            use_type_invariant(&*self);
        }
        let ghost before = self.entries@;
        let ghost key = path_key(path@);
        assert(forall|k: int| 0 <= k < before.len() ==> #[trigger] path_key(before[k].0@) != key);
        let mut entries = Vec::new();
        std::mem::swap(&mut entries, &mut self.entries);
        entries.push((path, dims));
        let ghost idx = before.len() as int;
        proof {
            assert forall|a: int, b: int|
                0 <= a < entries@.len() && 0 <= b < entries@.len() && a != b implies #[trigger] path_key(entries@[a].0@)
                != #[trigger] path_key(entries@[b].0@) by {
                if a != idx && b != idx {
                    assert(entries@[a] == before[a] && entries@[b] == before[b]);
                }
            }
        }
        self.entries = entries;
        proof {
            let m = self.dimensions();
            let o = old(self).dimensions();
            let e = self.entries@;
            assert(path_key(e[idx].0@) == key);
            assert forall|u: (bool, bool, Seq<Seq<u8>>)| #[trigger] m.dom().contains(u) == o.insert(key, dims).dom().contains(u) by {
                if u != key {
                    if o.dom().contains(u) {
                        let k = choose|k: int| 0 <= k < before.len() && #[trigger] path_key(before[k].0@) == u;
                        assert(path_key(e[k].0@) == u);
                    }
                    if m.dom().contains(u) {
                        let k = choose|k: int| 0 <= k < e.len() && #[trigger] path_key(e[k].0@) == u;
                        assert(path_key(before[k].0@) == u);
                    }
                }
            }
            assert forall|u: (bool, bool, Seq<Seq<u8>>)| #[trigger] m.dom().contains(u) implies m[u] == o.insert(key, dims)[u] by {
                let k = choose|k: int| 0 <= k < e.len() && #[trigger] path_key(e[k].0@) == u;
                if u == key {
                    assert(k == idx);
                } else {
                    assert(path_key(before[k].0@) == u);
                    let k0 = choose|k: int| 0 <= k < before.len() && #[trigger] path_key(before[k].0@) == u;
                    assert(k0 == k);
                }
            }
            assert(m =~= o.insert(key, dims));
        }
    }
}

/// The dimensions of the cover at `path`: remembered ones if the path was
/// measured before, else what `read_dimensions` measures of `path` now, which
/// is then remembered. Each path is measured at most once.
pub fn album_art_dimensions<F: FnOnce(&Vec<u8>) -> Option<(u32, u32)>>(
    cache: &mut ArtworkDimensionsCache,
    path: &Vec<u8>,
    read_dimensions: F,
) -> (r: Option<(u32, u32)>)
    requires
        call_requires(read_dimensions, (path,)),
    ensures
        old(cache).dimensions().dom().contains(path_key(path@)) ==> {
            &&& r == old(cache).dimensions()[path_key(path@)]
            &&& final(cache).dimensions() == old(cache).dimensions()
        },
        !old(cache).dimensions().dom().contains(path_key(path@)) ==> {
            &&& call_ensures(read_dimensions, (path,), r)
            &&& final(cache).dimensions() == old(cache).dimensions().insert(path_key(path@), r)
        },
{
    match cache.get(path) {
        Some(dims) => dims,
        None => {
            let dims = read_dimensions(path);
            cache.remember(path.clone(), dims);
            dims
        },
    }
}

/// Once a path is measured, later lookups of it, under any spelling with the
/// same components, give the remembered dimensions.
pub proof fn law_dimensions_remembered(
    remembered: Map<(bool, bool, Seq<Seq<u8>>), Option<(u32, u32)>>,
    measured: Seq<u8>,
    looked_up: Seq<u8>,
    dims: Option<(u32, u32)>,
)
    requires
        path_key(measured) == path_key(looked_up),
    ensures
        remembered.insert(path_key(measured), dims).dom().contains(path_key(looked_up)),
        remembered.insert(path_key(measured), dims)[path_key(looked_up)] == dims,
{
}

} // verus!
