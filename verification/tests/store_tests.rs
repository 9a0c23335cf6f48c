use rust_url_shortener::pool::WorkerPool;
use rust_url_shortener::store::{InMemorySessionStore, InMemoryStore, RecordStore, SessionStore};

#[test]
fn test_in_memory_records() {
    let mut s = InMemoryStore::new();
    assert!(s.get("k").unwrap().is_none());
    s.put("k", "v1").unwrap();
    assert_eq!(s.get("k").unwrap().unwrap(), "v1");
    s.put("k", "v2").unwrap();
    assert_eq!(s.get("k").unwrap().unwrap(), "v2");
    assert_eq!(s.del("k").unwrap(), 1);
    assert!(s.get("k").unwrap().is_none());
    assert_eq!(s.del("k").unwrap(), 0);
}

#[test]
fn test_in_memory_index() {
    let mut s = InMemoryStore::new();
    assert_eq!(s.set_is_member("m").unwrap(), false);
    s.set_add("m").unwrap();
    s.set_add("m").unwrap();
    s.set_add("n").unwrap();
    assert_eq!(s.set_is_member("m").unwrap(), true);
    let mut members = s.set_members().unwrap();
    members.sort();
    assert_eq!(members, vec!["m".to_string(), "n".to_string()]);
    assert_eq!(s.set_remove("m").unwrap(), 1);
    assert_eq!(s.set_remove("m").unwrap(), 0);
    assert_eq!(s.set_is_member("m").unwrap(), false);
    assert_eq!(s.set_is_member("n").unwrap(), true);
}

#[test]
fn test_session_store() {
    let mut s = InMemorySessionStore::new();
    assert!(s.get_created_at("k").is_none());
    s.put_session("k", "123");
    assert_eq!(s.get_created_at("k").unwrap(), "123");
    s.put_session("k", "456");
    assert_eq!(s.get_created_at("k").unwrap(), "456");
}

#[test]
fn test_worker_pool_admission() {
    let mut pool = WorkerPool::new(2);
    assert!(pool.try_submit());
    assert!(pool.try_submit());
    // full: the third connection is rejected, not queued
    assert!(!pool.try_submit());
    pool.complete();
    assert!(pool.try_submit());
}

#[test]
fn test_worker_pool_shutdown_drains() {
    let mut pool = WorkerPool::new(3);
    assert!(pool.try_submit());
    assert!(pool.try_submit());
    pool.shutdown();
    // no admissions after shutdown; in-flight work drains
    assert!(!pool.try_submit());
    assert!(!pool.is_drained());
    pool.complete();
    pool.complete();
    assert!(pool.is_drained());
}
