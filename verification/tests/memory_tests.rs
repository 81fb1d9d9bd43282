use agentflow::memory::{MemoryEntry, MemoryStore, MemoryValue};
use agentflow::types::MemoryCategory;

fn entry(key: &str, text: &str, category: MemoryCategory, task: Option<&str>, ts: i64) -> MemoryEntry {
    MemoryEntry {
        key: String::from(key),
        value: MemoryValue::Text(String::from(text)),
        expires_at: None,
        category,
        task_id: task.map(String::from),
        timestamp: ts,
    }
}

#[test]
fn set_and_get_round_trip() {
    let mut store = MemoryStore::new(3600, 1000);
    store.set_at(
        String::from("test_key"),
        MemoryValue::Text(String::from("test")),
        MemoryCategory::Execution,
        Some(String::from("task_123")),
        None,
        1_000,
    );
    let got = store.get_at("test_key", 1_001).unwrap();
    assert_eq!(got.key, "test_key");
    assert_eq!(got.timestamp, 1_000);
    assert_eq!(got.expires_at, Some(4_600));
    assert_eq!(got.task_id.as_deref(), Some("task_123"));
}

#[test]
fn ttl_expiry_scenario() {
    // TTL one second: after two seconds the key reads as absent, stats
    // show the expired entry until the sweep removes it
    let mut store = MemoryStore::new(1, 100);
    store.set_at(
        String::from("k"),
        MemoryValue::Text(String::from("v")),
        MemoryCategory::Context,
        None,
        None,
        1_000,
    );
    assert!(store.get_at("k", 1_000).is_some());
    assert!(store.get_at("k", 1_002).is_none());

    let stats = store.stats_at(1_002);
    assert_eq!(stats.total, 1);
    assert!(stats.expired >= 1);
    assert_eq!(stats.active, 0);

    let removed = store.cleanup_expired_at(1_002);
    assert_eq!(removed, 1);
    let stats = store.stats_at(1_002);
    assert_eq!(stats.total, 0);
    assert_eq!(stats.expired, 0);
}

#[test]
fn index_is_idempotent_per_key() {
    // two inserts with the same key leave one entry holding the latest
    // value, and the total count is unchanged by the second
    let mut store = MemoryStore::new(3600, 100);
    store.index_at(&entry("k", "first", MemoryCategory::Context, None, 10), 10);
    assert_eq!(store.stats_at(10).total, 1);
    store.index_at(&entry("k", "second", MemoryCategory::Result, None, 20), 20);
    assert_eq!(store.stats_at(20).total, 1);
    let got = store.get_at("k", 20).unwrap();
    assert!(matches!(got.value, MemoryValue::Text(ref s) if s == "second"));
    assert_eq!(got.category, MemoryCategory::Result);
}

#[test]
fn delete_removes_unconditionally() {
    let mut store = MemoryStore::new(3600, 100);
    store.index_at(&entry("k", "v", MemoryCategory::Context, None, 10), 10);
    assert!(store.delete("k"));
    assert!(!store.delete("k"));
    assert!(store.get_at("k", 10).is_none());
}

#[test]
fn search_matches_key_and_value_text() {
    let mut store = MemoryStore::new(3600, 100);
    store.index_at(&entry("key1", "test_value", MemoryCategory::Context, Some("task_123"), 10), 10);
    store.index_at(&entry("other", "nothing here", MemoryCategory::Context, None, 11), 11);

    let results = store.search_at("test_value", None, None, None, 100);
    assert_eq!(results.len(), 1);
    assert_eq!(results[0].key, "key1");

    let by_key = store.search_at("other", None, None, None, 100);
    assert_eq!(by_key.len(), 1);
    assert_eq!(by_key[0].key, "other");
}

#[test]
fn search_never_returns_an_expired_entry() {
    let mut store = MemoryStore::new(3600, 100);
    let mut e = entry("gone", "match me", MemoryCategory::Context, None, 10);
    e.expires_at = Some(50);
    store.index_at(&e, 10);
    let mut live = entry("kept", "match me", MemoryCategory::Context, None, 11);
    live.expires_at = Some(5_000);
    store.index_at(&live, 11);

    let results = store.search_at("match me", None, None, None, 100);
    assert_eq!(results.len(), 1);
    assert_eq!(results[0].key, "kept");
    for r in &results {
        assert!(r.expires_at.map_or(true, |t| t > 100));
    }
}

#[test]
fn search_filters_by_category_and_task() {
    let mut store = MemoryStore::new(3600, 100);
    store.index_at(&entry("a", "x", MemoryCategory::Error, Some("t1"), 10), 10);
    store.index_at(&entry("b", "x", MemoryCategory::Result, Some("t1"), 11), 11);
    store.index_at(&entry("c", "x", MemoryCategory::Error, Some("t2"), 12), 12);

    let errors = store.search_at("x", Some(MemoryCategory::Error), None, None, 100);
    assert_eq!(errors.len(), 2);

    let t1_errors = store.search_at("x", Some(MemoryCategory::Error), Some("t1"), None, 100);
    assert_eq!(t1_errors.len(), 1);
    assert_eq!(t1_errors[0].key, "a");
}

#[test]
fn search_is_newest_first_and_capped() {
    let mut store = MemoryStore::new(3600, 100);
    store.index_at(&entry("old", "m", MemoryCategory::Context, None, 10), 10);
    store.index_at(&entry("new", "m", MemoryCategory::Context, None, 30), 30);
    store.index_at(&entry("mid", "m", MemoryCategory::Context, None, 20), 20);

    let all = store.search_at("m", None, None, None, 100);
    assert_eq!(all.len(), 3);
    assert_eq!(all[0].key, "new");
    assert_eq!(all[1].key, "mid");
    assert_eq!(all[2].key, "old");

    let top2 = store.search_at("m", None, None, Some(2), 100);
    assert_eq!(top2.len(), 2);
    assert_eq!(top2[0].key, "new");
    assert_eq!(top2[1].key, "mid");
}

#[test]
fn get_task_memories_finds_tagged_entries() {
    let mut store = MemoryStore::new(3600, 100);
    store.index_at(&entry("a", "x", MemoryCategory::Context, Some("t1"), 10), 10);
    store.index_at(&entry("b", "y", MemoryCategory::Result, None, 11), 11);
    let got = store.get_task_memories_at("t1", 100);
    assert_eq!(got.len(), 1);
    assert_eq!(got[0].key, "a");
}

#[test]
fn capacity_sweep_reclaims_expired_entries() {
    // at the soft cap a fresh key sweeps expired entries first, but the
    // insertion itself is never refused
    let mut store = MemoryStore::new(3600, 2);
    let mut dead = entry("dead", "v", MemoryCategory::Context, None, 10);
    dead.expires_at = Some(20);
    store.index_at(&dead, 10);
    store.index_at(&entry("live1", "v", MemoryCategory::Context, None, 11), 11);

    // the sweep drops "dead" and the fresh key takes its place
    store.index_at(&entry("live2", "v", MemoryCategory::Context, None, 30), 30);
    let stats = store.stats_at(30);
    assert_eq!(stats.total, 2);
    assert!(store.get_at("dead", 30).is_none());
    assert!(store.get_at("live1", 30).is_some());
    assert!(store.get_at("live2", 30).is_some());

    // with nothing expired the soft cap can be exceeded
    store.index_at(&entry("live3", "v", MemoryCategory::Context, None, 31), 31);
    assert_eq!(store.stats_at(31).total, 3);
}

#[test]
fn snapshot_holds_only_live_entries() {
    let mut store = MemoryStore::new(3600, 100);
    let mut dead = entry("dead", "v", MemoryCategory::Context, None, 10);
    dead.expires_at = Some(20);
    store.index_at(&dead, 10);
    store.index_at(&entry("live", "v", MemoryCategory::Context, None, 11), 11);

    let snap = store.create_snapshot_at(String::from("worker-1"), 30);
    assert_eq!(snap.worker_id, "worker-1");
    assert_eq!(snap.snapshot_time, 30);
    assert_eq!(snap.entries.len(), 1);
    assert_eq!(snap.entries[0].key, "live");
}

#[test]
fn stats_counts_per_category() {
    let mut store = MemoryStore::new(3600, 100);
    store.index_at(&entry("a", "x", MemoryCategory::Error, None, 10), 10);
    store.index_at(&entry("b", "x", MemoryCategory::Error, None, 11), 11);
    store.index_at(&entry("c", "x", MemoryCategory::Checkpoint, None, 12), 12);
    let stats = store.stats_at(20);
    assert_eq!(stats.total, 3);
    let mut by_cat = std::collections::BTreeMap::new();
    for (c, n) in &stats.category_counts {
        by_cat.insert(format!("{:?}", c), *n);
    }
    assert_eq!(by_cat["Error"], 2);
    assert_eq!(by_cat["Checkpoint"], 1);
    assert_eq!(by_cat["Execution"], 0);
}

#[test]
fn clear_empties_the_store() {
    let mut store = MemoryStore::new(3600, 100);
    store.index_at(&entry("a", "x", MemoryCategory::Context, None, 10), 10);
    store.clear();
    assert_eq!(store.stats_at(10).total, 0);
}

#[test]
fn wall_clock_front_methods_agree_with_explicit_time() {
    // the clock-driven front store behaves as the explicit-time calls do
    let mut store = MemoryStore::new(3600, 100);
    store.set(
        String::from("k"),
        MemoryValue::Text(String::from("v")),
        MemoryCategory::Context,
        None,
        Some(3600),
    );
    let got = store.get("k");
    assert!(got.is_some());
    let results = store.search("v", None, None, None);
    assert_eq!(results.len(), 1);
    assert_eq!(store.stats().total, 1);
    let snap = store.create_snapshot(String::from("w"));
    assert_eq!(snap.entries.len(), 1);
    assert_eq!(store.cleanup_expired(), 0);
}
