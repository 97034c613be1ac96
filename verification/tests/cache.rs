use slideglance::cache::{CacheEntry, CacheStep, FetchOutcome, FontCache, MAX_CACHE_ENTRIES};

#[test]
fn negative_result_is_cached_once() {
    let mut cache: FontCache<u32> = FontCache::new();
    assert!(cache.lookup("Missing").is_none());
    assert_eq!(cache.record("Missing", FetchOutcome::NoBytes), None);
    assert!(matches!(cache.lookup("Missing"), Some(CacheEntry::Missing)));
    assert_eq!(cache.len(), 1);
}

#[test]
fn parsed_face_is_returned_and_cached() {
    let mut cache: FontCache<u32> = FontCache::new();
    assert_eq!(cache.record("Good", FetchOutcome::Parsed(Some(7))), Some(7));
    assert_eq!(cache.lookup("Good").and_then(|e| e.as_face()), Some(7));
}

#[test]
fn unparsable_bytes_and_panics_are_parse_failures() {
    let mut cache: FontCache<u32> = FontCache::new();
    assert_eq!(cache.record("Bad", FetchOutcome::Parsed(None)), None);
    assert_eq!(cache.record("Boom", FetchOutcome::Panicked), None);
    assert_eq!(cache.parse_fail_count(), 2);
    assert_eq!(cache.missing_count(), 0);
}

#[test]
fn missing_vs_parse_fail_counted_separately_in_cache() {
    let mut cache: FontCache<u32> = FontCache::new();
    cache.record("AbsentFont", FetchOutcome::NoBytes);
    cache.record("CorruptFont", FetchOutcome::Parsed(None));
    assert_eq!(cache.missing_count(), 1);
    assert_eq!(cache.parse_fail_count(), 1);
    assert_eq!(cache.len(), 2);
}

#[test]
fn clear_negative_drops_only_missing() {
    let mut cache: FontCache<u32> = FontCache::new();
    cache.record("AbsentFont", FetchOutcome::NoBytes);
    cache.record("CorruptFont", FetchOutcome::Parsed(None));
    cache.record("Good", FetchOutcome::Parsed(Some(1)));
    cache.clear_negative();
    assert_eq!(cache.len(), 2);
    assert_eq!(cache.missing_count(), 0);
    assert_eq!(cache.parse_fail_count(), 1);
    assert!(cache.lookup("AbsentFont").is_none());
    assert!(cache.lookup("Good").is_some());
}

#[test]
fn forget_drops_one_entry() {
    let mut cache: FontCache<u32> = FontCache::new();
    cache.record("AbsentFont", FetchOutcome::NoBytes);
    cache.record("CorruptFont", FetchOutcome::Parsed(None));
    assert!(cache.forget("CorruptFont"));
    assert_eq!(cache.len(), 1);
    assert_eq!(cache.parse_fail_count(), 0);
    assert!(!cache.forget("NeverFetched"));
}

#[test]
fn clear_drops_everything() {
    let mut cache: FontCache<u32> = FontCache::new();
    cache.record("A", FetchOutcome::NoBytes);
    cache.record("B", FetchOutcome::Parsed(None));
    cache.clear();
    assert_eq!(cache.len(), 0);
    assert_eq!(cache.missing_count(), 0);
    assert_eq!(cache.parse_fail_count(), 0);
}

#[test]
fn cache_is_bounded_but_still_resolves() {
    let mut cache: FontCache<u32> = FontCache::new();
    for i in 0..(MAX_CACHE_ENTRIES + 1) {
        let name = format!("Font{i}");
        cache.record(&name, FetchOutcome::NoBytes);
    }
    assert_eq!(cache.len(), MAX_CACHE_ENTRIES);
    // a new result is still returned when the cache is full
    assert_eq!(cache.record("Overflow", FetchOutcome::Parsed(Some(3))), Some(3));
    assert!(cache.lookup("Overflow").is_none());
    // an existing name can still be updated when full
    cache.record("Font0", FetchOutcome::Parsed(None));
    assert!(matches!(cache.lookup("Font0"), Some(CacheEntry::ParseFail)));
    assert_eq!(cache.len(), MAX_CACHE_ENTRIES);
}

#[test]
fn entry_helpers() {
    assert!(CacheEntry::<u32>::Missing.is_missing());
    assert!(!CacheEntry::<u32>::ParseFail.is_missing());
    assert_eq!(CacheEntry::Hit(5u32).as_face(), Some(5));
    assert_eq!(CacheEntry::<u32>::ParseFail.as_face(), None);
}

#[test]
fn negative_cache_prevents_repeated_fetcher_calls() {
    let mut cache: FontCache<u32> = FontCache::new();
    assert!(matches!(cache.step("Nope"), CacheStep::Fetch));
    assert_eq!(cache.record("Nope", FetchOutcome::NoBytes), None);
    assert!(matches!(cache.step("Nope"), CacheStep::Cached(None)));
    assert_eq!(cache.record("Broken", FetchOutcome::Panicked), None);
    assert!(matches!(cache.step("Broken"), CacheStep::Cached(None)));
    assert_eq!(cache.record("Face", FetchOutcome::Parsed(Some(7))), Some(7));
    assert!(matches!(cache.step("Face"), CacheStep::Cached(Some(7))));
    assert_eq!(cache.len(), 3);
}
