use kestrel::memory_config::{
    merge_hits,
    default_config_for, default_max_entries, default_memory_char_budget,
    default_memory_char_budget_overflow, MemoryConfig, RecallStep, TieredMemoryStore,
};

#[test]
fn test_default_config() {
    let config = MemoryConfig::default();
    assert_eq!(config.max_entries, 1000);
    assert_eq!(config.memory_char_budget, 2200);
    assert_eq!(config.memory_char_budget_overflow, 1375);
    assert!(config.hot_store_path.contains(".kestrel"));
    assert!(config.tantivy_index_path.contains(".kestrel"));
}

#[test]
fn test_for_test_config() {
    let config = MemoryConfig::for_test("/tmp/mem");
    assert_eq!(config.max_entries, 100);
    assert!(config.hot_store_path.starts_with("/tmp/mem"));
    assert!(config.tantivy_index_path.starts_with("/tmp/mem"));
}

#[test]
fn defaults_under_base() {
    let c = default_config_for("/home/u");
    assert_eq!(c.hot_store_path, "/home/u/.kestrel/memory/hot.jsonl");
    assert_eq!(c.tantivy_index_path, "/home/u/.kestrel/memory/tantivy");
    assert_eq!(default_max_entries(), 1000);
    assert_eq!(default_memory_char_budget(), 2200);
    assert_eq!(default_memory_char_budget_overflow(), 1375);
}

#[test]
fn tiered_recall_steps() {
    let t = TieredMemoryStore::new(1u8, 2u8);
    assert_eq!(*t.l1(), 1);
    assert_eq!(*t.l2(), 2);
    assert_eq!(t.after_first_recall(true), RecallStep::Found);
    assert_eq!(t.after_first_recall(false), RecallStep::AskSecondLayer);
    assert_eq!(t.after_second_recall(true), RecallStep::PromoteAndReturn);
    assert_eq!(t.after_second_recall(false), RecallStep::Missing);
}

fn hits(v: &[(&str, u64)]) -> Vec<(String, u64)> {
    v.iter().map(|(id, k)| (id.to_string(), *k)).collect()
}

#[test]
fn test_search_dedup_keeps_higher_score() {
    let l1 = hits(&[("a", 5), ("b", 9)]);
    let l2 = hits(&[("a", 7), ("c", 1)]);
    let r = merge_hits(&l1, &l2, 10);
    assert_eq!(r, vec![1, 2, 3]);
}

#[test]
fn test_search_dedup_keeps_l1_score_when_higher() {
    let l1 = hits(&[("x", 8)]);
    let l2 = hits(&[("x", 3), ("y", 8)]);
    let r = merge_hits(&l1, &l2, 10);
    assert_eq!(r, vec![0, 2]);
}

#[test]
fn merge_tie_keeps_first_layer_and_limit() {
    let l1 = hits(&[("x", 4), ("y", 2)]);
    let l2 = hits(&[("x", 4), ("z", 3)]);
    assert_eq!(merge_hits(&l1, &l2, 10), vec![0, 3, 1]);
    assert_eq!(merge_hits(&l1, &l2, 2), vec![0, 3]);
    assert!(merge_hits(&l1, &l2, 0).is_empty());
    assert!(merge_hits(&vec![], &vec![], 5).is_empty());
}

#[test]
fn tiered_writes_tolerate_second_layer_failures() {
    let t = TieredMemoryStore::new(0u8, 0u8);
    assert_eq!(t.after_first_write(Err("l1 down".to_string())), Some("l1 down".to_string()));
    assert_eq!(t.after_first_write(Ok(())), None);
    assert_eq!(t.after_second_write(Err("l2 down".to_string())), (Ok(()), Some("l2 down".to_string())));
    assert_eq!(t.after_second_write(Ok(())), (Ok(()), None));
}
