use nexlink_lib::cache::{AiCache, AiResponseCache, CacheConfig, CacheEntry};

fn json(text: &str) -> serde_json::Value {
    serde_json::from_str(text).unwrap()
}

#[test]
fn test_cache_put_get() {
    let mut cache = AiCache::new(CacheConfig::default());
    let key = "test_key";
    let value = "test_value";

    cache.put(key.to_string(), value.to_string(), None).unwrap();
    let retrieved = cache.get(&key.to_string());

    assert_eq!(retrieved, Some(value.to_string()));
}

#[test]
fn test_cache_expiry() {
    let config = CacheConfig { default_ttl: 10, ..CacheConfig::default() };
    let mut cache = AiCache::new(config);

    cache.put_at("expiring_key".to_string(), "value".to_string(), None, 1_000).unwrap();

    let result = cache.get_at(&"expiring_key".to_string(), 1_015);
    assert!(result.is_none());
}

#[test]
fn test_cache_stats() {
    let mut cache = AiCache::new(CacheConfig::default());

    cache.put("key1".to_string(), "value1".to_string(), None).unwrap();
    let _ = cache.get(&"key1".to_string());
    let _ = cache.get(&"key2".to_string());

    let stats = cache.stats();
    assert_eq!(stats.size, 1);
    assert_eq!(stats.hits, 1);
    assert_eq!(stats.misses, 1);
    assert_eq!(stats.hits as f64 / (stats.hits + stats.misses) as f64, 0.5);
}

#[test]
fn test_ai_response_cache() {
    let mut cache = AiResponseCache::ai_response_cache();
    let model = "gpt-4";
    let input_hash = "abc123";
    let response = json(r#"{"choices": [{"message": {"content": "Hello"}}]}"#);

    cache.cache_ai_response(model, input_hash, response.clone(), None).unwrap();
    let cached = cache.get_cached_response(model, input_hash);

    assert_eq!(cached, Some(response));
}

#[test]
fn entry_lives_until_its_expiry() {
    let mut cache: AiCache<u32> = AiCache::new(CacheConfig::default());
    cache.put_at("k".to_string(), 7, Some(100), 1_000).unwrap();
    assert!(cache.contains_key_at(&"k".to_string(), 1_099));
    assert_eq!(cache.get_at(&"k".to_string(), 1_099), Some(7));
    assert!(!cache.contains_key_at(&"k".to_string(), 1_100));
    assert_eq!(cache.get_at(&"k".to_string(), 1_100), None);
    let stats = cache.stats();
    assert_eq!((stats.hits, stats.misses), (1, 0));
    assert_eq!(cache.get_at(&"other".to_string(), 1_100), None);
    assert_eq!(cache.stats().misses, 1);
}

#[test]
fn unrepresentable_expiry_is_refused() {
    let mut cache: AiCache<u32> = AiCache::new(CacheConfig::default());
    assert!(cache.put_at("k".to_string(), 1, Some(10), u64::MAX).is_err());
    assert_eq!(cache.len(), 0);
}

#[test]
fn full_cache_evicts_oldest_entries_first() {
    let config = CacheConfig { max_size: 3, eviction_batch_size: 2, ..CacheConfig::default() };
    let mut cache: AiCache<u32> = AiCache::new(config);
    cache.put_at("a".to_string(), 1, None, 10).unwrap();
    cache.put_at("b".to_string(), 2, None, 20).unwrap();
    cache.put_at("c".to_string(), 3, None, 30).unwrap();
    assert!(cache.is_full());
    cache.put_at("d".to_string(), 4, None, 40).unwrap();
    assert_eq!(cache.len(), 2);
    assert!(!cache.contains_key_at(&"a".to_string(), 41));
    assert!(!cache.contains_key_at(&"b".to_string(), 41));
    assert!(cache.contains_key_at(&"c".to_string(), 41));
    assert!(cache.contains_key_at(&"d".to_string(), 41));
}

#[test]
fn cleanup_removes_expired_entries() {
    let mut cache: AiCache<u32> = AiCache::new(CacheConfig::default());
    cache.put_at("short".to_string(), 1, Some(5), 0).unwrap();
    cache.put_at("long".to_string(), 2, Some(500), 0).unwrap();
    cache.cleanup_at(100);
    assert_eq!(cache.len(), 1);
    assert_eq!(cache.remove(&"long".to_string()), Some(2));
    assert_eq!(cache.remove(&"long".to_string()), None);
}

#[test]
fn clear_resets_counters() {
    let mut cache: AiCache<u32> = AiCache::new(CacheConfig::default());
    cache.put_at("x".to_string(), 1, None, 0).unwrap();
    let _ = cache.get_at(&"x".to_string(), 1);
    let _ = cache.get_at(&"y".to_string(), 1);
    cache.clear();
    let stats = cache.stats();
    assert_eq!((stats.size, stats.hits, stats.misses), (0, 0, 0));
    assert_eq!(stats.ttl_default, 300_000);
    assert_eq!(stats.max_size, 1000);
}

#[test]
fn cache_entry_times() {
    let e = CacheEntry::new_at("v", 50, 1_000);
    assert_eq!(e.expires_at, 1_050);
    assert!(!e.is_expired_at(1_049));
    assert!(e.is_expired_at(1_050));
    let live = CacheEntry::new("v", 60_000).unwrap();
    assert!(!live.is_expired());
    assert!(CacheEntry::new("v", u64::MAX).is_none());
}

#[test]
fn puts_never_grow_the_cache_past_max_size() {
    let config = CacheConfig { max_size: 2, eviction_batch_size: 1, ..CacheConfig::default() };
    let mut cache: AiCache<u32> = AiCache::new(config);
    for (i, key) in ["a", "b", "c", "d", "e"].iter().enumerate() {
        cache.put_at(key.to_string(), i as u32, None, 1_000 + i as u64).unwrap();
        assert!(cache.len() <= 2);
    }
    assert!(cache.contains_key_at(&"e".to_string(), 1_010));
    assert!(!cache.contains_key_at(&"a".to_string(), 1_010));
}
