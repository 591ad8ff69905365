use typster_core::export::ExportCache;

fn h(b: &[u8]) -> u128 {
    typst_utils::hash128(b)
}

#[test]
fn export_cache_tracks_frames_per_page() {
    let mut cache = ExportCache::new();
    assert!(!cache.is_cached(0, b"frame A"));
    assert!(cache.is_cached(0, b"frame A"));
    assert!(!cache.is_cached(0, b"frame B"));
    assert_eq!(cache.cache[0], h(b"frame B"));
    assert_eq!(cache.cache.len(), 1);
    assert!(!cache.is_cached(5, b"frame C"));
    assert_eq!(cache.cache.len(), 6);
    assert_eq!(cache.cache[5], h(b"frame C"));
    assert_eq!(cache.cache[0], h(b"frame B"));
}

#[test]
fn export_cache_change_leaves_other_pages() {
    let mut cache = ExportCache::new();
    assert!(!cache.is_cached_hash(0, 10));
    assert!(!cache.is_cached_hash(1, 11));
    assert!(!cache.is_cached_hash(2, 12));
    assert!(!cache.is_cached_hash(1, 99));
    assert!(cache.is_cached_hash(0, 10));
    assert!(cache.is_cached_hash(2, 12));
    assert!(cache.is_cached_hash(1, 99));
}
