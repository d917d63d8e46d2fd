use kvsnap::redis::cache::{Cache, CacheError};

#[test]
fn test_value() {
    let mut cache = Cache::new();
    cache.put("key".to_string(), 42, None);
    assert_eq!(cache.value("key", 0), Ok(&42));
}

#[test]
fn test_value_miss() {
    let now = 1_000;
    let mut cache = Cache::new();
    cache.put("key".to_string(), 42, Some(now));
    assert_eq!(cache.value("key", now), Err(CacheError::Expired));
    assert_eq!(cache.value("key", now), Err(CacheError::Missing));
}

#[test]
fn value_before_expiry() {
    let mut cache = Cache::new();
    cache.put("key".to_string(), 7, Some(100));
    assert_eq!(cache.value("key", 99), Ok(&7));
}

#[test]
fn absent_key_is_missing() {
    let mut cache: Cache<i32> = Cache::new();
    assert_eq!(cache.value("nope", 0), Err(CacheError::Missing));
}

#[test]
fn write_returns_previous_even_if_expired() {
    let mut cache = Cache::new();
    assert_eq!(cache.write("k".to_string(), "a".to_string(), Some(5)), None);
    assert_eq!(
        cache.write("k".to_string(), "b".to_string(), None),
        Some("a".to_string())
    );
    assert_eq!(cache.value("k", 1_000_000), Ok(&"b".to_string()));
}
