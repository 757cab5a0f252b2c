use pokecache::cache::{Cache, CompositeKey, LockOutcome};

fn key(name: &str, tag: u64) -> CompositeKey {
    CompositeKey { name: name.to_string(), type_tag: tag }
}

#[test]
fn read_is_none_before_any_write() {
    let mut cache: Cache<String> = Cache::new();
    let e = cache.entry(key("a", 1));
    assert!(cache.get(e).is_none());
}

#[test]
fn set_then_read_round_trips() {
    let mut cache: Cache<String> = Cache::new();
    let e = cache.entry(key("a", 1));
    cache.set(e, "hello".to_string());
    assert_eq!(cache.get(e), Some(&"hello".to_string()));
    // still the same value on a later read
    assert_eq!(cache.get(e), Some(&"hello".to_string()));
}

#[test]
fn set_overwrites_until_overwritten() {
    let mut cache: Cache<String> = Cache::new();
    let e = cache.entry(key("a", 1));
    cache.set(e, "first".to_string());
    assert_eq!(cache.get(e), Some(&"first".to_string()));
    cache.set(e, "second".to_string());
    assert_eq!(cache.get(e), Some(&"second".to_string()));
}

#[test]
fn entry_is_idempotent_for_one_key() {
    let mut cache: Cache<u64> = Cache::new();
    let e1 = cache.entry(key("a", 1));
    cache.set(e1, 42);
    // a second handle for the same composite key addresses the same slot
    let e2 = cache.entry(key("a", 1));
    assert_eq!(cache.get(e2), Some(&42));
}

#[test]
fn distinct_names_are_distinct_slots() {
    let mut cache: Cache<u64> = Cache::new();
    let ea = cache.entry(key("a", 1));
    let eb = cache.entry(key("b", 1));
    cache.set(ea, 1);
    assert!(cache.get(eb).is_none());
    cache.set(eb, 2);
    assert_eq!(cache.get(ea), Some(&1));
    assert_eq!(cache.get(eb), Some(&2));
}

#[test]
fn same_name_distinct_tags_are_distinct_slots() {
    let mut cache: Cache<u64> = Cache::new();
    let e1 = cache.entry(key("a", 1));
    let e2 = cache.entry(key("a", 2));
    cache.set(e1, 7);
    assert!(cache.get(e2).is_none());
}

#[test]
fn lock_outcomes_follow_slot_state() {
    let mut cache: Cache<u64> = Cache::new();
    let e = cache.entry(key("a", 1));
    // empty and unleased: this caller becomes the populator
    assert_eq!(cache.get_or_write_lock(e), LockOutcome::Granted);
    // empty but leased: another caller must wait
    assert_eq!(cache.get_or_write_lock(e), LockOutcome::Waited);
    cache.set_and_release(e, 9);
    // populated: read path, no populate needed
    assert_eq!(cache.get_or_write_lock(e), LockOutcome::Cached);
    assert_eq!(cache.get(e), Some(&9));
}

#[test]
fn release_without_set_leaves_slot_empty_for_retry() {
    let mut cache: Cache<u64> = Cache::new();
    let e = cache.entry(key("a", 1));
    assert_eq!(cache.get_or_write_lock(e), LockOutcome::Granted);
    cache.release_write(e);
    assert!(cache.get(e).is_none());
    // the failure was not cached: the next caller is granted the populate
    assert_eq!(cache.get_or_write_lock(e), LockOutcome::Granted);
}

#[test]
fn default_cache_is_empty() {
    let mut cache: Cache<u64> = Cache::default();
    let e = cache.entry(key("anything", 3));
    assert!(cache.get(e).is_none());
}
