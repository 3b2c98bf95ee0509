use cosmic_ext_applet_now_playing::cache::{
    album_art_dimensions, dimensions_from_size, prune_album_art_cache,
    prune_album_art_cache_with_limits, ArtworkDimensionsCache, CacheEntry, CachePruneClock,
    Timestamp, CACHE_PRUNE_INTERVAL_NANOS, MAX_ART_CACHE_AGE_SECS,
};
use std::cell::Cell;

fn entry(secs: i64, len: u64) -> Option<CacheEntry> {
    Some(CacheEntry {
        is_file: true,
        is_partial: false,
        modified: Some(Timestamp { secs, nanos: 0 }),
        len,
    })
}

#[test]
fn prunes_at_most_once_per_interval() {
    let mut clock = CachePruneClock::new();
    assert!(prune_album_art_cache(&mut clock, 5));
    assert!(!prune_album_art_cache(&mut clock, 6));
    assert!(!prune_album_art_cache(&mut clock, 5 + CACHE_PRUNE_INTERVAL_NANOS - 1));
    assert!(!prune_album_art_cache(&mut clock, 4));
    assert!(prune_album_art_cache(&mut clock, 5 + CACHE_PRUNE_INTERVAL_NANOS));
    assert_eq!(clock.last_prune, Some(5 + CACHE_PRUNE_INTERVAL_NANOS));
}

#[test]
fn expired_covers_are_removed_and_the_rest_ordered_oldest_first() {
    let max_age = MAX_ART_CACHE_AGE_SECS as u128 * 1_000_000_000;
    let now = Timestamp { secs: 10_000_000, nanos: 0 };
    let entries = vec![
        entry(9_000_000, 8),
        entry(10_000_000 - MAX_ART_CACHE_AGE_SECS as i64 - 1, 3),
        None,
        Some(CacheEntry { is_file: false, is_partial: false, modified: None, len: 1 }),
        Some(CacheEntry { is_file: true, is_partial: true, modified: None, len: 1 }),
        entry(8_000_000, 5),
        entry(9_000_000, 2),
        Some(CacheEntry { is_file: true, is_partial: false, modified: None, len: 7 }),
    ];
    let plan = prune_album_art_cache_with_limits(&entries, now, max_age, 10);
    assert_eq!(plan.expired, vec![1, 7]);
    assert_eq!(plan.by_age, vec![5, 0, 6]);
    assert_eq!(plan.eviction.remaining, 15);
    assert_eq!(plan.eviction.max_bytes, 10);
}

#[test]
fn eviction_stops_within_the_limit() {
    let now = Timestamp { secs: 100, nanos: 0 };
    let entries = vec![entry(1, 8), entry(2, 8), entry(3, 8)];
    let plan = prune_album_art_cache_with_limits(&entries, now, 1_000_000_000_000, 10);
    let mut eviction = plan.eviction;
    let mut removed = Vec::new();
    for index in plan.by_age {
        if !eviction.wants_eviction() {
            break;
        }
        eviction.removed(entries[index].unwrap().len, true);
        removed.push(index);
    }
    assert_eq!(removed, vec![0, 1]);
    assert!(eviction.remaining <= 10);
    let mut failing = prune_album_art_cache_with_limits(&entries, now, 1_000_000_000_000, 10).eviction;
    failing.removed(8, false);
    assert_eq!(failing.remaining, 24);
}

#[test]
fn a_file_from_the_future_is_not_expired() {
    let now = Timestamp { secs: 100, nanos: 0 };
    let entries = vec![entry(200, 1), entry(-5, 1)];
    let plan = prune_album_art_cache_with_limits(&entries, now, 104_000_000_000, 10);
    assert_eq!(plan.expired, vec![1]);
    assert_eq!(plan.by_age, vec![0]);
}

#[test]
fn dimensions_are_measured_once_per_path() {
    let mut cache = ArtworkDimensionsCache::new();
    let reads = Cell::new(0);
    let cover = b"/tmp/cover.png".to_vec();
    let missing = b"/tmp/missing.png".to_vec();
    let measured = album_art_dimensions(&mut cache, &cover, |path| {
        assert_eq!(path, &b"/tmp/cover.png".to_vec());
        reads.set(reads.get() + 1);
        Some((2, 3))
    });
    assert_eq!(measured, Some((2, 3)));
    let again = album_art_dimensions(&mut cache, &cover, |_| {
        reads.set(reads.get() + 1);
        None
    });
    assert_eq!(again, Some((2, 3)));
    assert_eq!(reads.get(), 1);
    assert_eq!(album_art_dimensions(&mut cache, &missing, |_| None), None);
    assert_eq!(cache.get(&missing), Some(None));
    assert_eq!(cache.get(&b"/x".to_vec()), None);
}

#[test]
fn dimensions_must_fit_u32() {
    assert_eq!(dimensions_from_size(2, 3), Some((2, 3)));
    assert_eq!(dimensions_from_size(u32::MAX as usize, 1), Some((u32::MAX, 1)));
    assert_eq!(dimensions_from_size(u32::MAX as usize + 1, 1), None);
}

#[test]
fn another_spelling_of_a_measured_path_is_not_measured_again() {
    let mut cache = ArtworkDimensionsCache::new();
    let cover = b"/cache/art/cover.png".to_vec();
    assert_eq!(album_art_dimensions(&mut cache, &cover, |_| Some((4, 5))), Some((4, 5)));
    let respelled = b"/cache//art/./cover.png/".to_vec();
    assert_eq!(album_art_dimensions(&mut cache, &respelled, |_| panic!("measured twice")), Some((4, 5)));
    let relative = b"cache/art/cover.png".to_vec();
    assert_eq!(album_art_dimensions(&mut cache, &relative, |_| Some((1, 1))), Some((1, 1)));
}
