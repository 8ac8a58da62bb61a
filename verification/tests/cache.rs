use merutable::engine::cache::{CacheEntry, RowCache};
use merutable::types::sequence::OpType;
use merutable::types::value::{FieldValue, Row};

fn make_entry(val: i64) -> CacheEntry {
    CacheEntry {
        op_type: OpType::Put,
        row: Row::new(vec![Some(FieldValue::Int64(val))]),
    }
}

#[test]
fn insert_and_get() {
    let mut cache = RowCache::new(10);
    cache.insert(b"key1".to_vec(), make_entry(1));
    let hit = cache.get(b"key1");
    assert!(hit.is_some());
    assert_eq!(cache.hit_count(), 1);
    assert_eq!(cache.miss_count(), 0);
}

#[test]
fn miss_returns_none() {
    let mut cache = RowCache::new(10);
    assert!(cache.get(b"missing").is_none());
    assert_eq!(cache.miss_count(), 1);
}

#[test]
fn invalidate_removes_entry() {
    let mut cache = RowCache::new(10);
    cache.insert(b"key1".to_vec(), make_entry(1));
    cache.invalidate(b"key1");
    assert!(cache.get(b"key1").is_none());
}

#[test]
fn lru_eviction() {
    let mut cache = RowCache::new(2);
    cache.insert(b"a".to_vec(), make_entry(1));
    cache.insert(b"b".to_vec(), make_entry(2));
    cache.insert(b"c".to_vec(), make_entry(3)); // evicts "a"
    assert!(cache.get(b"a").is_none());
    assert!(cache.get(b"b").is_some());
    assert!(cache.get(b"c").is_some());
}

#[test]
fn len_and_cap() {
    let mut cache = RowCache::new(5);
    assert_eq!(cache.cap(), 5);
    assert_eq!(cache.len(), 0);
    assert!(cache.is_empty());
    cache.insert(b"x".to_vec(), make_entry(1));
    assert_eq!(cache.len(), 1);
    assert!(!cache.is_empty());
}

#[test]
fn a_hit_is_evicted_last() {
    let mut cache = RowCache::new(2);
    cache.insert(b"a".to_vec(), make_entry(1));
    cache.insert(b"b".to_vec(), make_entry(2));
    assert!(cache.get(b"a").is_some());
    cache.insert(b"c".to_vec(), make_entry(3)); // evicts "b"
    assert!(cache.get(b"b").is_none());
    assert!(cache.get(b"a").is_some());
    assert_eq!(cache.hit_count(), 2);
    assert_eq!(cache.miss_count(), 1);
}

#[test]
fn a_replaced_entry_is_served_and_evicts_nothing() {
    let mut cache = RowCache::new(2);
    cache.insert(b"a".to_vec(), make_entry(1));
    cache.insert(b"b".to_vec(), make_entry(2));
    cache.insert(b"a".to_vec(), make_entry(9));
    assert_eq!(cache.len(), 2);
    let entry = cache.get(b"a").unwrap();
    assert_eq!(entry.op_type, OpType::Put);
    assert_eq!(entry.row.get(0), Some(&FieldValue::Int64(9)));
    assert!(cache.get(b"b").is_some());
}

#[test]
fn invalidation_spares_other_keys() {
    let mut cache = RowCache::new(3);
    cache.insert(b"a".to_vec(), make_entry(1));
    cache.insert(b"b".to_vec(), make_entry(2));
    cache.invalidate(b"a");
    cache.invalidate(b"missing");
    assert_eq!(cache.len(), 1);
    assert!(cache.get(b"b").is_some());
}

#[test]
fn clear_empties_the_cache() {
    let mut cache = RowCache::new(3);
    cache.insert(b"a".to_vec(), make_entry(1));
    cache.insert(b"b".to_vec(), make_entry(2));
    cache.clear();
    assert!(cache.is_empty());
    assert_eq!(cache.cap(), 3);
    assert!(cache.get(b"a").is_none());
}
