//! The thumbnail cache: which thumbnails are loaded or loading, which loads
//! were requested, and the throttle that spaces loads out in time and, when
//! loads may not overlap, lets only one run at a time.

use moka::sync::{Cache, CacheBuilder};
use vstd::map_lib::lemma_submap_of_trans;
use vstd::prelude::*;

verus! {

#[verifier::external_type_specification]
#[verifier::external_body]
#[verifier::reject_recursive_types(K)]
#[verifier::reject_recursive_types(V)]
#[verifier::reject_recursive_types(S)]
pub struct ExMokaCache<K, V, S>(Cache<K, V, S>);

/// What the cache holds for a thumbnail: a load under way, or the loaded
/// texture (by its id) with its size in bytes.
#[derive(Clone, Copy, PartialEq, Eq, Debug, Structural)]
pub enum ThumbnailCacheItem {
    Loading,
    Loaded { texture: u64, byte_size: u64 },
}

/// The weight of an entry against the capacity of the cache: a load under
/// way weighs nothing, a texture its size in bytes, cut to `u32::MAX`.
pub open spec fn item_weight_spec(item: ThumbnailCacheItem) -> u32 {
    match item {
        ThumbnailCacheItem::Loading => 0,
        ThumbnailCacheItem::Loaded { byte_size, .. } => if byte_size <= u32::MAX {
            byte_size as u32
        } else {
            u32::MAX
        },
    }
}

/// The weight of an entry against the capacity of the cache.
pub fn item_weight(item: &ThumbnailCacheItem) -> (w: u32)
    ensures
        w == item_weight_spec(*item),
{
    match item {
        ThumbnailCacheItem::Loading => 0,
        ThumbnailCacheItem::Loaded { byte_size, .. } => if *byte_size <= 0xffff_ffffu64 {
            *byte_size as u32
        } else {
            0xffff_ffffu32
        },
    }
}

/// The entries that a cache of thumbnails hands out: thumbnail key to item.
pub uninterp spec fn thumbnail_entries(c: Cache<u64, ThumbnailCacheItem>) -> Map<
    u64,
    ThumbnailCacheItem,
>;

/// A map without entries.
pub open spec fn no_thumbnails() -> Map<u64, ThumbnailCacheItem> {
    Map::empty()
}

/// A cache built by `CacheBuilder::new(max_capacity)` with a weigher that
/// calls `item_weight`; a new cache has no entries.
#[verifier::external_body]
fn cache_new(max_capacity: u64) -> (c: Cache<u64, ThumbnailCacheItem>)
    ensures
        thumbnail_entries(c) == no_thumbnails(),
{
    CacheBuilder::new(max_capacity).weigher(|_k: &u64, v: &ThumbnailCacheItem| item_weight(v)).build()
}

/// `Cache::get`: it reads the entry of `key` before any housekeeping, so it
/// hands back the value stored for `key` when there is one; no entry is
/// added, though the cache may evict entries meanwhile; when it hands back
/// nothing, `key` has no entry afterwards.
#[verifier::external_body]
fn cache_get(c: &mut Cache<u64, ThumbnailCacheItem>, key: u64) -> (r: Option<ThumbnailCacheItem>)
    ensures
        thumbnail_entries(*final(c)).submap_of(thumbnail_entries(*old(c))),
        thumbnail_entries(*old(c)).dom().contains(key) ==> r == Some(
            thumbnail_entries(*old(c))[key],
        ),
        r matches Some(v) ==> thumbnail_entries(*old(c)).contains_pair(key, v),
        r is None ==> !thumbnail_entries(*final(c)).dom().contains(key),
{
    c.get(&key)
}

/// `Cache::insert`: stores `value` for `key`; what the cache holds afterwards
/// is part of that, since its eviction policy may drop entries, the new one
/// among them.
#[verifier::external_body]
fn cache_insert(c: &mut Cache<u64, ThumbnailCacheItem>, key: u64, value: ThumbnailCacheItem)
    ensures
        thumbnail_entries(*final(c)).submap_of(thumbnail_entries(*old(c)).insert(key, value)),
{
    c.insert(key, value);
}

/// `Cache::invalidate`: discards the entry of `key`; other entries may be
/// evicted meanwhile.
#[verifier::external_body]
fn cache_invalidate(c: &mut Cache<u64, ThumbnailCacheItem>, key: u64)
    ensures
        thumbnail_entries(*final(c)).submap_of(thumbnail_entries(*old(c)).remove(key)),
{
    c.invalidate(&key);
}

/// `Cache::invalidate_all`: no entry stored before the call is handed out
/// afterwards.
#[verifier::external_body]
fn cache_invalidate_all(c: &mut Cache<u64, ThumbnailCacheItem>)
    ensures
        thumbnail_entries(*final(c)) == no_thumbnails(),
{
    c.invalidate_all();
}

/// Bound on the milliseconds since the Unix epoch of the clock readings the
/// library works with (about 300,000 years either way).
pub open spec fn time_bound() -> int {
    10_000_000_000_000_000
}

#[verifier::external_type_specification]
#[verifier::external_body]
pub struct ExSystemTime(std::time::SystemTime);

/// `SystemTime::now`: a reading of the system clock. Nothing is known of
/// its value.
#[verifier::external_body]
fn system_now() -> (t: std::time::SystemTime) {
    std::time::SystemTime::now()
}

/// How a clock reading lies from the Unix epoch, in whole milliseconds.
#[derive(Debug, Clone, Copy, PartialEq, Eq, Structural)]
pub enum ClockReading {
    /// This many milliseconds after the epoch (or at it).
    AfterEpoch(u128),
    /// This many milliseconds before the epoch.
    BeforeEpoch(u128),
}

/// `SystemTime::duration_since(UNIX_EPOCH)` of a reading, in milliseconds
/// (`Duration::as_millis`): a reading before the epoch is an error whose
/// duration tells how far before it lies. The result depends on the reading
/// alone, which is opaque here, so nothing is said of it.
#[verifier::external_body]
fn since_epoch(t: &std::time::SystemTime) -> (r: ClockReading) {
    match t.duration_since(std::time::UNIX_EPOCH) {
        Ok(d) => ClockReading::AfterEpoch(d.as_millis()),
        Err(e) => ClockReading::BeforeEpoch(e.duration().as_millis()),
    }
}

/// Milliseconds since the Unix epoch of a clock reading, negative before
/// it; readings beyond the bound are held at the bound.
pub open spec fn reading_millis(r: ClockReading) -> int {
    match r {
        ClockReading::AfterEpoch(m) => if m < time_bound() {
            m as int
        } else {
            time_bound() - 1
        },
        ClockReading::BeforeEpoch(m) => if m < time_bound() {
            -(m as int)
        } else {
            -(time_bound() - 1)
        },
    }
}

/// Milliseconds since the Unix epoch of a clock reading, negative before
/// it, held within the bound.
pub fn clock_millis(r: ClockReading) -> (t: i64)
    ensures
        t == reading_millis(r),
        -time_bound() < t < time_bound(),
{
    match r {
        ClockReading::AfterEpoch(m) => if m < 10_000_000_000_000_000u128 {
            m as i64
        } else {
            9_999_999_999_999_999i64
        },
        ClockReading::BeforeEpoch(m) => if m < 10_000_000_000_000_000u128 {
            -(m as i64)
        } else {
            -9_999_999_999_999_999i64
        },
    }
}

/// The current time in milliseconds since the Unix epoch, read from the
/// system clock; negative when the clock is set before 1970. Successive
/// readings are not promised to grow: the clock may be set back.
pub(crate) fn now_millis() -> (t: i64)
    ensures
        -time_bound() < t < time_bound(),
{
    let now = system_now();
    clock_millis(since_epoch(&now))
}

/// `r` lists entries of `p` in the order they stand there: `idx` gives,
/// for each entry of `r`, its position in `p`, and the positions grow.
pub open spec fn in_order_from(r: Seq<u64>, p: Seq<u64>, idx: Seq<int>) -> bool {
    &&& idx.len() == r.len()
    &&& forall|j: int| 0 <= j < idx.len() ==> 0 <= #[trigger] idx[j] < p.len() && r[j] == p[idx[j]]
    &&& forall|j: int, k: int| 0 <= j < k < idx.len() ==> #[trigger] idx[j] < #[trigger] idx[k]
}

/// The next start set by a load granted at `started`: `interval` later.
pub open spec fn next_start(started: i64, interval: i64) -> Option<i64> {
    Some((started + interval) as i64)
}

/// A thumbnail cache with its load throttle.
pub struct ThumbnailCache {
    cache: Cache<u64, ThumbnailCacheItem>,
    pending_inserts: Vec<u64>,
    is_loading: bool,
    next_load_ms: Option<i64>,
    load_interval_ms: i64,
    is_concurrent: bool,
}

/// Whether the throttle holds a load back: loads may not overlap and one is
/// under way, or the next load may only start later than `now`. `earliest`
/// is the time that stands in for the next start when none is set.
pub open spec fn load_blocked(
    is_concurrent: bool,
    is_loading: bool,
    next_load_ms: Option<i64>,
    earliest: i64,
    now: i64,
) -> bool {
    (!is_concurrent && is_loading) || (match next_load_ms {
        Some(t) => t,
        None => earliest,
    }) > now
}

impl ThumbnailCache {
    /// The entries that the cache hands out.
    pub closed spec fn entries(self) -> Map<u64, ThumbnailCacheItem> {
        thumbnail_entries(self.cache)
    }

    /// The keys of thumbnails whose load was requested and not yet granted
    /// or refused.
    pub closed spec fn pending(self) -> Seq<u64> {
        self.pending_inserts@
    }

    /// A load is under way.
    pub closed spec fn loading(self) -> bool {
        self.is_loading
    }

    /// The earliest start of the next load, when one was set.
    pub closed spec fn next_load(self) -> Option<i64> {
        self.next_load_ms
    }

    /// The time between the starts of two loads, in milliseconds.
    pub closed spec fn interval(self) -> i64 {
        self.load_interval_ms
    }

    /// Loads may overlap.
    pub closed spec fn concurrent(self) -> bool {
        self.is_concurrent
    }

    /// The interval keeps the next start within the bound of clock readings.
    pub closed spec fn wf(self) -> bool {
        -time_bound() < self.load_interval_ms < time_bound()
    }

    /// An empty cache of at most `max_cache_size` bytes of textures, whose
    /// loads start `load_interval_ms` apart and overlap only when
    /// `is_concurrent`.
    pub fn new(max_cache_size: u64, load_interval_ms: i64, is_concurrent: bool) -> (r: Self)
        requires
            -time_bound() < load_interval_ms < time_bound(),
        ensures
            r.wf(),
            r.entries() == no_thumbnails(),
            r.pending() == Seq::<u64>::empty(),
            !r.loading(),
            r.next_load() is None,
            r.interval() == load_interval_ms,
            r.concurrent() == is_concurrent,
    {
        ThumbnailCache {
            cache: cache_new(max_cache_size),
            pending_inserts: Vec::new(),
            is_loading: false,
            next_load_ms: None,
            load_interval_ms,
            is_concurrent,
        }
    }

    /// A cache without a size limit whose loads may overlap and start at any
    /// time.
    pub fn unlimited() -> (r: Self)
        ensures
            r.wf(),
            r.entries() == no_thumbnails(),
            r.pending() == Seq::<u64>::empty(),
            !r.loading(),
            r.next_load() is None,
            r.interval() == 0,
            r.concurrent(),
    {
        Self::new(u64::MAX, 0, true)
    }

    /// The cached item of the thumbnail `key`. When there is none, the
    /// thumbnail is marked as loading and its load is requested.
    pub fn read(&mut self, key: u64) -> (r: ThumbnailCacheItem)
        ensures
            final(self).wf() == old(self).wf(),
            final(self).loading() == old(self).loading(),
            final(self).next_load() == old(self).next_load(),
            final(self).interval() == old(self).interval(),
            final(self).concurrent() == old(self).concurrent(),
            old(self).entries().contains_pair(key, r) && final(self).pending() == old(self).pending()
                && final(self).entries().submap_of(old(self).entries())
                || r == ThumbnailCacheItem::Loading && final(self).pending() == old(self).pending().push(key)
                && final(self).entries().submap_of(old(self).entries().insert(key, r)),
            !old(self).entries().dom().contains(key) ==> r == ThumbnailCacheItem::Loading
                && final(self).pending() == old(self).pending().push(key),
            old(self).entries().dom().contains(key) ==> r == old(self).entries()[key]
                && final(self).pending() == old(self).pending(),
    {
        broadcast use vstd::map_lib::lemma_submap_of_trans;

        match cache_get(&mut self.cache, key) {
            Some(item) => item,
            None => {
                let ghost mid = thumbnail_entries(self.cache);
                cache_insert(&mut self.cache, key, ThumbnailCacheItem::Loading);
                proof {
                    let ins = mid.insert(key, ThumbnailCacheItem::Loading);
                    let all = old(self).entries().insert(
                        key,
                        ThumbnailCacheItem::Loading,
                    );
                    assert(ins.submap_of(all));
                }
                self.pending_inserts.push(key);
                ThumbnailCacheItem::Loading
            },
        }
    }

    /// Stores the result of a load; no load is under way afterwards.
    pub fn commit(&mut self, key: u64, item: ThumbnailCacheItem)
        ensures
            final(self).wf() == old(self).wf(),
            final(self).entries().submap_of(old(self).entries().insert(key, item)),
            final(self).pending() == old(self).pending(),
            !final(self).loading(),
            final(self).next_load() == old(self).next_load(),
            final(self).interval() == old(self).interval(),
            final(self).concurrent() == old(self).concurrent(),
    {
        cache_insert(&mut self.cache, key, item);
        self.is_loading = false;
    }

    /// the throttle's decision on one requested load, given two readings of the
    /// clock: `earliest` stands in for the next start when none is set, and
    /// `now` is the time to compare with. A granted load marks a load as
    /// under way and sets the next start to `started` plus the interval.
    pub fn throttle(&mut self, earliest: i64, now: i64, started: i64) -> (granted: bool)
        requires
            old(self).wf(),
            -time_bound() < started < time_bound(),
        ensures
            final(self).wf(),
            granted == !load_blocked(
                old(self).concurrent(),
                old(self).loading(),
                old(self).next_load(),
                earliest,
                now,
            ),
            granted ==> final(self).loading() && final(self).next_load() == Some(
                (started + old(self).interval()) as i64,
            ),
            !granted ==> final(self).loading() == old(self).loading() && final(self).next_load()
                == old(self).next_load(),
            final(self).entries() == old(self).entries(),
            final(self).pending() == old(self).pending(),
            final(self).interval() == old(self).interval(),
            final(self).concurrent() == old(self).concurrent(),
    {
        let conc_blocked = !self.is_concurrent && self.is_loading;
        let next = match self.next_load_ms {
            Some(t) => t,
            None => earliest,
        };
        let time_blocked = next > now;
        if conc_blocked || time_blocked {
            return false;
        }
        self.is_loading = true;
        self.next_load_ms = Some(started + self.load_interval_ms);
        true
    }

    /// Hands out the requested loads that the throttle lets through, in the
    /// order they were requested, and forgets the others, whose loading
    /// marks leave the cache so that they are requested again.
    pub fn drain_requests(&mut self) -> (r: Vec<u64>)
        requires
            old(self).wf(),
        ensures
            final(self).wf(),
            final(self).pending() == Seq::<u64>::empty(),
            r@.len() <= old(self).pending().len(),
            forall|i: int| 0 <= i < r@.len() ==> old(self).pending().contains(#[trigger] r@[i]),
            forall|k: u64|
                old(self).pending().contains(k) && !r@.contains(k)
                    ==> !final(self).entries().dom().contains(k),
            final(self).entries().submap_of(old(self).entries()),
            !old(self).concurrent() ==> r@.len() <= 1,
            !old(self).concurrent() && old(self).loading() ==> r@.len() == 0,
            final(self).loading() == (old(self).loading() || r@.len() > 0),
            r@.len() == 0 ==> final(self).next_load() == old(self).next_load(),
            r@.len() > 0 ==> exists|t: i64|
                -time_bound() < t < time_bound() && final(self).next_load() == #[trigger] next_start(
                    t,
                    old(self).interval(),
                ),
            exists|idx: Seq<int>| in_order_from(r@, old(self).pending(), idx),
            final(self).interval() == old(self).interval(),
            final(self).concurrent() == old(self).concurrent(),
    {
        let ghost old_self = *self;
        let ghost mut idx: Seq<int> = Seq::empty();
        let ghost mut last_start: i64 = 0;
        let mut pending: Vec<u64> = Vec::new();
        std::mem::swap(&mut pending, &mut self.pending_inserts);
        let mut requests: Vec<u64> = Vec::new();
        let mut i: usize = 0;
        while i < pending.len()
            invariant
                i <= pending.len(),
                pending@ == old_self.pending_inserts@,
                self.pending_inserts@ == Seq::<u64>::empty(),
                self.wf(),
                self.load_interval_ms == old_self.load_interval_ms,
                self.is_concurrent == old_self.is_concurrent,
                requests@.len() <= i,
                forall|j: int|
                    0 <= j < requests@.len() ==> pending@.take(i as int).contains(
                        #[trigger] requests@[j],
                    ),
                forall|k: u64|
                    pending@.take(i as int).contains(k) && !requests@.contains(k) ==> !thumbnail_entries(
                        self.cache,
                    ).dom().contains(k),
                thumbnail_entries(self.cache).submap_of(thumbnail_entries(old_self.cache)),
                !self.is_concurrent ==> requests@.len() <= 1,
                !self.is_concurrent && old_self.is_loading ==> requests@.len() == 0,
                self.is_loading == (old_self.is_loading || requests@.len() > 0),
                requests@.len() == 0 ==> self.next_load_ms == old_self.next_load_ms,
                requests@.len() > 0 ==> -time_bound() < last_start < time_bound()
                    && self.next_load_ms == Some((last_start + old_self.load_interval_ms) as i64),
                in_order_from(requests@, pending@, idx),
                forall|j: int| 0 <= j < idx.len() ==> #[trigger] idx[j] < i,
            decreases pending.len() - i,
        {
            let key = pending[i];
            let earliest = now_millis();
            let now = now_millis();
            let started = now_millis();
            let ghost before = requests@;
            let ghost cache_before = thumbnail_entries(self.cache);
            proof {
                assert(pending@.take(i + 1) =~= pending@.take(i as int).push(key));
            }
            if self.throttle(earliest, now, started) {
                requests.push(key);
                proof {
                    idx = idx.push(i as int);
                    last_start = started;
                    assert(requests@ =~= before.push(key));
                    assert forall|j: int| 0 <= j < requests@.len() implies pending@.take(
                        i + 1,
                    ).contains(#[trigger] requests@[j]) by {
                        if j < before.len() {
                            assert(pending@.take(i as int).contains(before[j]));
                            let w = choose|w: int|
                                0 <= w < i && #[trigger] pending@.take(i as int)[w] == before[j];
                            assert(pending@.take(i + 1)[w] == before[j]);
                        } else {
                            assert(pending@.take(i + 1)[i as int] == key);
                        }
                    }
                    assert forall|k: u64|
                        pending@.take(i + 1).contains(k) && !requests@.contains(k) implies !thumbnail_entries(
                        self.cache,
                    ).dom().contains(k) by {
                        let w = choose|w: int| 0 <= w < i + 1 && #[trigger] pending@.take(i + 1)[w] == k;
                        if w == i {
                            assert(requests@[before.len() as int] == key);
                        } else {
                            assert(pending@.take(i as int)[w] == k);
                            assert(pending@.take(i as int).contains(k));
                            if before.contains(k) {
                                let v = choose|v: int| 0 <= v < before.len() && #[trigger] before[v] == k;
                                assert(requests@[v] == k);
                            }
                            assert(!cache_before.dom().contains(k));
                        }
                    }
                }
            } else {
                cache_invalidate(&mut self.cache, key);
                proof {
                    assert forall|j: int| 0 <= j < requests@.len() implies pending@.take(
                        i + 1,
                    ).contains(#[trigger] requests@[j]) by {
                        assert(pending@.take(i as int).contains(requests@[j]));
                        let w = choose|w: int|
                            0 <= w < i && #[trigger] pending@.take(i as int)[w] == requests@[j];
                        assert(pending@.take(i + 1)[w] == requests@[j]);
                    }
                    assert forall|k: u64|
                        pending@.take(i + 1).contains(k) && !requests@.contains(k) implies !thumbnail_entries(
                        self.cache,
                    ).dom().contains(k) by {
                        let w = choose|w: int| 0 <= w < i + 1 && #[trigger] pending@.take(i + 1)[w] == k;
                        if w < i {
                            assert(pending@.take(i as int)[w] == k);
                            assert(pending@.take(i as int).contains(k));
                            assert(!cache_before.dom().contains(k));
                        }
                        assert(!cache_before.remove(key).dom().contains(k));
                        if thumbnail_entries(self.cache).dom().contains(k) {
                            assert(cache_before.remove(key).dom().contains(k));
                        }
                    }
                    assert(cache_before.remove(key).submap_of(cache_before));
                    lemma_submap_of_trans(thumbnail_entries(self.cache), cache_before.remove(key), cache_before);
                    lemma_submap_of_trans(thumbnail_entries(self.cache), cache_before, thumbnail_entries(old_self.cache));
                }
            }
            i = i + 1;
        }
        proof {
            assert(pending@.take(pending@.len() as int) =~= pending@);
            assert(old_self.pending_inserts@ == old(self).pending());
            assert(old_self.load_interval_ms == old(self).interval());
            assert(in_order_from(requests@, old(self).pending(), idx));
            if requests@.len() > 0 {
                assert(self.next_load_ms == next_start(last_start, old(self).interval()));
            }
        }
        requests
    }

    /// Empties the cache and lets the next load start at any time.
    pub fn clear(&mut self)
        ensures
            final(self).wf() == old(self).wf(),
            final(self).entries() == no_thumbnails(),
            final(self).pending() == old(self).pending(),
            final(self).loading() == old(self).loading(),
            final(self).next_load() is None,
            final(self).interval() == old(self).interval(),
            final(self).concurrent() == old(self).concurrent(),
    {
        cache_invalidate_all(&mut self.cache);
        self.next_load_ms = None;
    }
}

/// The height of the low-quality thumbnails, loaded first and shown while
/// the full ones load.
pub const LOW_QUALITY_HEIGHT: usize = 128;

/// The thumbnail to draw: for rows taller than the low-quality height, the
/// full thumbnail (`key`) when it is loaded, else the low-quality one
/// (`lq_key`), whose load is requested in its own cache when missing.
pub fn read_thumbnail(
    cache: &mut ThumbnailCache,
    lq_cache: &mut ThumbnailCache,
    key: u64,
    lq_key: u64,
    height: usize,
) -> (r: ThumbnailCacheItem)
    ensures
        height <= LOW_QUALITY_HEIGHT ==> final(cache).pending() == old(cache).pending()
            && final(cache).entries() == old(cache).entries(),
        r != ThumbnailCacheItem::Loading && height > LOW_QUALITY_HEIGHT && old(cache).entries().contains_pair(key, r)
            ==> final(lq_cache).pending() == old(lq_cache).pending(),
        !old(cache).entries().dom().contains(key) && height > LOW_QUALITY_HEIGHT ==> final(cache).pending()
            == old(cache).pending().push(key),
        old(cache).entries().contains_pair(key, ThumbnailCacheItem::Loading) || height <= LOW_QUALITY_HEIGHT
            ==> (old(lq_cache).entries().contains_pair(lq_key, r) || r == ThumbnailCacheItem::Loading),
        !old(lq_cache).entries().dom().contains(lq_key) && (height <= LOW_QUALITY_HEIGHT
            || !old(cache).entries().dom().contains(key)) ==> r == ThumbnailCacheItem::Loading
            && final(lq_cache).pending() == old(lq_cache).pending().push(lq_key),
        height > LOW_QUALITY_HEIGHT && old(cache).entries().dom().contains(key)
            && old(cache).entries()[key] != ThumbnailCacheItem::Loading ==> r == old(
            cache,
        ).entries()[key] && final(cache).pending() == old(cache).pending() && final(lq_cache).pending()
            == old(lq_cache).pending(),
        (height <= LOW_QUALITY_HEIGHT || old(cache).entries().contains_pair(
            key,
            ThumbnailCacheItem::Loading,
        )) && old(lq_cache).entries().dom().contains(lq_key) ==> r == old(lq_cache).entries()[lq_key]
            && final(lq_cache).pending() == old(lq_cache).pending(),
{
    let mut thumb = ThumbnailCacheItem::Loading;
    if height > LOW_QUALITY_HEIGHT {
        thumb = cache.read(key);
    }
    if thumb == ThumbnailCacheItem::Loading {
        thumb = lq_cache.read(lq_key);
    }
    thumb
}

/// Stores a loaded thumbnail: in the full cache, and also in the
/// low-quality cache when it has the low-quality height.
pub fn commit_loaded(
    cache: &mut ThumbnailCache,
    lq_cache: &mut ThumbnailCache,
    key: u64,
    height: usize,
    item: ThumbnailCacheItem,
)
    ensures
        final(cache).entries().submap_of(old(cache).entries().insert(key, item)),
        !final(cache).loading(),
        height == LOW_QUALITY_HEIGHT ==> final(lq_cache).entries().submap_of(
            old(lq_cache).entries().insert(key, item),
        ) && !final(lq_cache).loading(),
        height != LOW_QUALITY_HEIGHT ==> final(lq_cache).entries() == old(lq_cache).entries()
            && final(lq_cache).loading() == old(lq_cache).loading(),
        final(cache).pending() == old(cache).pending(),
        final(lq_cache).pending() == old(lq_cache).pending(),
{
    if height == LOW_QUALITY_HEIGHT {
        lq_cache.commit(key, item);
    }
    cache.commit(key, item);
}

} // verus!
