use riiman::thumb_cache::{commit_loaded, read_thumbnail, LOW_QUALITY_HEIGHT};
use riiman::thumb_cache::{clock_millis, item_weight, ClockReading, ThumbnailCache, ThumbnailCacheItem};

#[test]
fn weights_of_entries() {
    assert_eq!(0, item_weight(&ThumbnailCacheItem::Loading));
    assert_eq!(1024, item_weight(&ThumbnailCacheItem::Loaded { texture: 1, byte_size: 1024 }));
    assert_eq!(u32::MAX, item_weight(&ThumbnailCacheItem::Loaded { texture: 1, byte_size: 1 << 40 }));
}

#[test]
fn concurrent_cache_grants_every_request() {
    let mut c = ThumbnailCache::unlimited();
    assert_eq!(ThumbnailCacheItem::Loading, c.read(1));
    assert_eq!(ThumbnailCacheItem::Loading, c.read(2));
    // A thumbnail already loading is not requested twice.
    assert_eq!(ThumbnailCacheItem::Loading, c.read(1));
    assert_eq!(vec![1, 2], c.drain_requests());
    assert!(c.drain_requests().is_empty());
    let t = ThumbnailCacheItem::Loaded { texture: 7, byte_size: 10 };
    c.commit(1, t);
    assert_eq!(t, c.read(1));
}

#[test]
fn serial_cache_loads_one_at_a_time() {
    let mut c = ThumbnailCache::new(1 << 20, 0, false);
    c.read(1);
    c.read(2);
    assert_eq!(vec![1], c.drain_requests());
    // The refused request left the cache and is made again.
    assert_eq!(ThumbnailCacheItem::Loading, c.read(2));
    assert!(c.drain_requests().is_empty());
    c.commit(1, ThumbnailCacheItem::Loaded { texture: 1, byte_size: 4 });
    c.read(2);
    assert_eq!(vec![2], c.drain_requests());
}

#[test]
fn loads_are_spaced_in_time() {
    let mut c = ThumbnailCache::new(1 << 20, 60_000, true);
    c.read(1);
    c.read(2);
    assert_eq!(vec![1], c.drain_requests());
}

#[test]
fn throttle_decisions() {
    let mut c = ThumbnailCache::new(1 << 20, 50, false);
    assert!(c.throttle(100, 100, 100));
    // Loading, and loads may not overlap.
    assert!(!c.throttle(200, 200, 200));
    c.commit(1, ThumbnailCacheItem::Loading);
    // Not yet time: the next start is 150.
    assert!(!c.throttle(120, 149, 149));
    assert!(c.throttle(120, 150, 150));
}

#[test]
fn clearing_empties_the_cache() {
    let mut c = ThumbnailCache::unlimited();
    c.commit(3, ThumbnailCacheItem::Loaded { texture: 3, byte_size: 1 });
    c.clear();
    assert_eq!(ThumbnailCacheItem::Loading, c.read(3));
    assert_eq!(vec![3], c.drain_requests());
}

#[test]
fn tall_rows_fall_back_to_low_quality() {
    let mut hq = ThumbnailCache::unlimited();
    let mut lq = ThumbnailCache::unlimited();
    // Nothing loaded: both are requested.
    assert_eq!(ThumbnailCacheItem::Loading, read_thumbnail(&mut hq, &mut lq, 1, 2, 400));
    assert_eq!(vec![1], hq.drain_requests());
    assert_eq!(vec![2], lq.drain_requests());
    // The low-quality thumbnail arrives and is shown meanwhile.
    let small = ThumbnailCacheItem::Loaded { texture: 20, byte_size: 1 };
    commit_loaded(&mut hq, &mut lq, 2, LOW_QUALITY_HEIGHT, small);
    assert_eq!(small, read_thumbnail(&mut hq, &mut lq, 1, 2, 400));
    // The full one replaces it.
    let big = ThumbnailCacheItem::Loaded { texture: 10, byte_size: 9 };
    commit_loaded(&mut hq, &mut lq, 1, 400, big);
    assert_eq!(big, read_thumbnail(&mut hq, &mut lq, 1, 2, 400));
    // Short rows only use the low-quality cache.
    assert_eq!(small, read_thumbnail(&mut hq, &mut lq, 1, 2, 100));
    assert!(hq.drain_requests().is_empty());
}

#[test]
fn clock_readings_in_milliseconds() {
    assert_eq!(1_700_000_000_000, clock_millis(ClockReading::AfterEpoch(1_700_000_000_000)));
    assert_eq!(-5_000, clock_millis(ClockReading::BeforeEpoch(5_000)));
    assert_eq!(0, clock_millis(ClockReading::AfterEpoch(0)));
    assert_eq!(9_999_999_999_999_999, clock_millis(ClockReading::AfterEpoch(u128::MAX)));
    assert_eq!(-9_999_999_999_999_999, clock_millis(ClockReading::BeforeEpoch(1 << 80)));
}

#[test]
fn a_hit_returns_the_cached_item_without_a_request() {
    let mut c = ThumbnailCache::unlimited();
    assert_eq!(ThumbnailCacheItem::Loading, c.read(3));
    let item = ThumbnailCacheItem::Loaded { texture: 9, byte_size: 10 };
    c.commit(3, item);
    assert_eq!(vec![3], c.drain_requests());
    c.commit(3, item);
    assert_eq!(item, c.read(3));
    assert!(c.drain_requests().is_empty());
}

#[test]
fn requests_are_handed_out_in_order() {
    let mut c = ThumbnailCache::unlimited();
    c.read(5);
    c.read(2);
    c.read(8);
    assert_eq!(vec![5, 2, 8], c.drain_requests());
}
