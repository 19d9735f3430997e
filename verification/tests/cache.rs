use osauth::cache::{CacheKey, MapCache, ValueCache};

#[test]
fn value_cache_starts_empty() {
    let cache: ValueCache<u32> = ValueCache::default();
    assert!(!cache.validate(|_| true));
    assert_eq!(cache.extract(|value| *value), None);
}

#[test]
fn value_cache_validates_what_is_set() {
    let mut cache = ValueCache::default();
    cache.set(7u32);
    assert!(cache.validate(|value| *value == 7));
    assert!(!cache.validate(|value| *value == 8));
    assert_eq!(cache.extract(|value| *value + 1), Some(8));
}

#[test]
fn value_cache_set_replaces() {
    let mut cache = ValueCache::default();
    cache.set(String::from("old"));
    cache.set(String::from("new"));
    assert_eq!(cache.extract(|value| value.clone()), Some(String::from("new")));
}

#[test]
fn map_cache_starts_empty() {
    let cache: MapCache<String, u32> = MapCache::default();
    assert!(!cache.is_set(&String::from("compute")));
    assert_eq!(cache.extract(&String::from("compute"), |value| *value), None);
    assert!(cache.get(&String::from("compute")).is_none());
}

#[test]
fn map_cache_keeps_one_value_under_each_key() {
    let mut cache: MapCache<String, u32> = MapCache::default();
    cache.set(String::from("compute"), 1);
    cache.set(String::from("image"), 2);
    cache.set(String::from("compute"), 3);
    assert!(cache.is_set(&String::from("compute")));
    assert!(cache.is_set(&String::from("image")));
    assert!(!cache.is_set(&String::from("volume")));
    assert_eq!(cache.extract(&String::from("compute"), |value| *value), Some(3));
    assert_eq!(cache.extract(&String::from("image"), |value| *value * 10), Some(20));
    assert_eq!(cache.get(&String::from("image")), Some(&2));
}

#[test]
fn strings_are_keys_by_their_text() {
    assert!(String::from("a").same_key(&String::from("a")));
    assert!(!String::from("a").same_key(&String::from("b")));
}
