use bustcall::cache_types::{CacheEvicon, CacheState, EvictionStrategy, ModelBinding, ModelWeights};
use bustcall::dimensional_cache::DimensionalCacheManager;
use bustcall::severity::CacheBustSeverity;

fn binding(runtime: &str, path: &str) -> ModelBinding {
    ModelBinding {
        runtime: runtime.to_string(),
        pid: None,
        path: path.to_string(),
        last_modified: 0,
        cache_dependencies: Vec::new(),
    }
}

fn evicon(id: &str, target: &str, last_access: u64, freq: u32, integrity: u8, depth: u8) -> CacheEvicon {
    CacheEvicon {
        cache_id: id.to_string(),
        model_binding: target.to_string(),
        last_access,
        access_frequency: freq,
        integrity_score: integrity,
        dependency_depth: depth,
    }
}

#[test]
fn bust_sets_stale_and_halves_score() {
    let mut manager = DimensionalCacheManager::new();
    manager.bind_model("node-target", binding("node", "./node_modules"));
    assert_eq!(manager.vector_state("node-target"), Some(CacheState::Cold));
    manager.bust_cache("node-target", CacheBustSeverity::Low);
    assert_eq!(manager.vector_state("node-target"), Some(CacheState::Stale));
    assert_eq!(manager.hot_path_score_milli("node-target"), Some(0));
    manager.bust_cache("node-target", CacheBustSeverity::Critical);
    assert_eq!(manager.vector_state("node-target"), Some(CacheState::Stale));
}

#[test]
fn bind_then_bust_medium_scenario() {
    let mut manager = DimensionalCacheManager::new();
    manager.bind_model("node-target", binding("node", "./node_modules"));
    manager.register_evicon(evicon("e1", "node-target", 10, 1, 50, 1));
    manager.register_evicon(evicon("e2", "node-target", 20, 2, 60, 2));
    manager.register_evicon(evicon("other", "python-target", 30, 3, 70, 3));
    manager.bust_cache("node-target", CacheBustSeverity::Medium);
    assert_eq!(manager.vector_state("node-target"), Some(CacheState::Stale));
    let request = manager.pop_rebuild().expect("a rebuild must be queued");
    assert_eq!(request.priority_score, 5);
    assert_eq!(request.cache_id, "node-target");
    assert_eq!(manager.entries_bound_to("node-target").len(), 0);
    assert_eq!(manager.entries_bound_to("python-target").len(), 1);
}

#[test]
fn bust_unknown_target_is_noop() {
    let mut manager = DimensionalCacheManager::new();
    manager.bust_cache("ghost", CacheBustSeverity::High);
    assert_eq!(manager.rebuild_queue_len(), 0);
}

#[test]
fn pid_change_busts_medium_once() {
    let mut manager = DimensionalCacheManager::new();
    manager.bind_model("python-target", binding("python3", "./venv/lib"));
    manager.monitor_pid_changes("python-target", None, Some(4321));
    assert_eq!(manager.binding_pid("python-target"), Some(Some(4321)));
    assert_eq!(manager.vector_state("python-target"), Some(CacheState::Stale));
    assert_eq!(manager.rebuild_queue_len(), 1);
    let request = manager.pop_rebuild().expect("one rebuild");
    assert_eq!(request.priority_score, 5);
    assert_eq!(manager.rebuild_queue_len(), 0);
}

#[test]
fn pid_loss_busts_high() {
    let mut manager = DimensionalCacheManager::new();
    manager.bind_model("python-target", binding("python3", "./venv/lib"));
    manager.monitor_pid_changes("python-target", Some(4321), None);
    let request = manager.pop_rebuild().expect("one rebuild");
    assert_eq!(request.priority_score, 10);
}

#[test]
fn unchanged_pid_does_nothing() {
    let mut manager = DimensionalCacheManager::new();
    manager.bind_model("python-target", binding("python3", "./venv/lib"));
    manager.monitor_pid_changes("python-target", Some(7), Some(7));
    assert_eq!(manager.rebuild_queue_len(), 0);
}

#[test]
fn rebind_replaces_target() {
    let mut manager = DimensionalCacheManager::new();
    manager.bind_model("node-target", binding("node", "./a"));
    manager.bust_cache("node-target", CacheBustSeverity::Low);
    assert_eq!(manager.vector_state("node-target"), Some(CacheState::Stale));
    manager.bind_model("node-target", binding("node", "./b"));
    assert_eq!(manager.vector_state("node-target"), Some(CacheState::Cold));
}

#[test]
fn model_aware_evicts_three_lowest_of_five() {
    let mut manager = DimensionalCacheManager::new();
    manager.bind_model("stale-target", binding("node", "./x"));
    manager.bust_cache("stale-target", CacheBustSeverity::Low);
    // Five eligible entries with strictly increasing scores via frequency.
    manager.register_evicon(evicon("c1", "stale-target", 1, 1, 0, 0));
    manager.register_evicon(evicon("c2", "stale-target", 2, 2, 0, 0));
    manager.register_evicon(evicon("c3", "stale-target", 3, 3, 0, 0));
    manager.register_evicon(evicon("c4", "stale-target", 4, 4, 0, 0));
    manager.register_evicon(evicon("c5", "stale-target", 5, 5, 0, 0));
    let weights = ModelWeights {
        language_priority_milli: 700,
        dependency_impact_milli: 800,
        build_cost_milli: 600,
        critical_path: true,
    };
    let evicted = manager.cache_evict(&EvictionStrategy::ModelAware(weights));
    assert_eq!(evicted.len(), 3);
    let mut evicted_sorted = evicted.clone();
    evicted_sorted.sort();
    assert_eq!(evicted_sorted, vec!["c1".to_string(), "c2".to_string(), "c3".to_string()]);
    // The two highest-scoring candidates remain.
    assert!(manager.get_evicon("c4").is_some());
    assert!(manager.get_evicon("c5").is_some());
}

#[test]
fn model_aware_never_selects_hot_or_warm() {
    let mut manager = DimensionalCacheManager::new();
    manager.bind_model("hot-target", binding("node", "./hot"));
    manager.record_access("hot-target", 100);
    assert_eq!(manager.vector_state("hot-target"), Some(CacheState::Hot));
    manager.bind_model("cold-target", binding("node", "./cold"));
    manager.register_evicon(evicon("hot-entry", "hot-target", 1, 0, 0, 0));
    manager.register_evicon(evicon("cold-entry", "cold-target", 1, 0, 0, 0));
    let weights = ModelWeights {
        language_priority_milli: 0,
        dependency_impact_milli: 0,
        build_cost_milli: 0,
        critical_path: false,
    };
    let evicted = manager.cache_evict(&EvictionStrategy::ModelAware(weights));
    assert_eq!(evicted, vec!["cold-entry".to_string()]);
    assert!(manager.get_evicon("hot-entry").is_some());
}

#[test]
fn lru_evicts_oldest_regardless_of_state() {
    let mut manager = DimensionalCacheManager::new();
    manager.bind_model("hot-target", binding("node", "./hot"));
    manager.record_access("hot-target", 100);
    manager.register_evicon(evicon("old-entry", "hot-target", 5, 0, 0, 0));
    manager.register_evicon(evicon("new-entry", "hot-target", 50, 0, 0, 0));
    let evicted = manager.cache_evict(&EvictionStrategy::LRU);
    assert_eq!(evicted, vec!["old-entry".to_string()]);
    assert!(manager.get_evicon("new-entry").is_some());
}

#[test]
fn lru_on_empty_store_evicts_nothing() {
    let mut manager = DimensionalCacheManager::new();
    let evicted = manager.cache_evict(&EvictionStrategy::LRU);
    assert!(evicted.is_empty());
}

#[test]
fn other_strategies_evict_nothing() {
    let mut manager = DimensionalCacheManager::new();
    manager.bind_model("t", binding("node", "./t"));
    manager.register_evicon(evicon("e", "t", 1, 1, 1, 1));
    assert!(manager.cache_evict(&EvictionStrategy::MRU).is_empty());
    assert!(manager.cache_evict(&EvictionStrategy::LFU).is_empty());
    assert!(manager.cache_evict(&EvictionStrategy::FIFO).is_empty());
    assert!(manager.get_evicon("e").is_some());
}

#[test]
fn rebuild_priority_scores_follow_severity() {
    assert_eq!(CacheBustSeverity::Low.priority_score(), 1);
    assert_eq!(CacheBustSeverity::Medium.priority_score(), 5);
    assert_eq!(CacheBustSeverity::High.priority_score(), 10);
    assert_eq!(CacheBustSeverity::Critical.priority_score(), 50);
}

#[test]
fn rebuild_queue_pops_by_priority_then_fifo() {
    let mut manager = DimensionalCacheManager::new();
    manager.bind_model("a", binding("node", "./a"));
    manager.bind_model("b", binding("node", "./b"));
    manager.bind_model("c", binding("node", "./c"));
    manager.bust_cache("a", CacheBustSeverity::Low);
    manager.bust_cache("b", CacheBustSeverity::High);
    manager.bust_cache("c", CacheBustSeverity::High);
    let first = manager.pop_rebuild().unwrap();
    let second = manager.pop_rebuild().unwrap();
    let third = manager.pop_rebuild().unwrap();
    assert_eq!(first.cache_id, "b");
    assert_eq!(second.cache_id, "c");
    assert_eq!(third.cache_id, "a");
}
