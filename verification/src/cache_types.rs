//! Data model of the dimensional cache: per-target freshness vectors,
//! eviction units, model bindings and rebuild requests.

use vstd::prelude::*;

verus! {

/// Freshness state of a target's cache vector.
#[derive(Debug, Clone, Copy, PartialEq, Eq, Structural)]
pub enum CacheState {
    /// Frequently accessed, keep in memory.
    Hot,
    /// Occasionally accessed, eligible for eviction.
    Warm,
    /// Rarely accessed, priority eviction candidate.
    Cold,
    /// Invalidated, must be rebuilt.
    Stale,
}

/// Model-aware eviction weights, in thousandths (a weight of 0.3 is 300).
#[derive(Debug, Clone, Copy, PartialEq, Eq, Structural)]
pub struct ModelWeights {
    pub language_priority_milli: u32,
    pub dependency_impact_milli: u32,
    pub build_cost_milli: u32,
    pub critical_path: bool,
}

/// Policy selecting which cache entries to remove.
#[derive(Debug, Clone, Copy)]
pub enum EvictionStrategy {
    LRU,
    MRU,
    LFU,
    FIFO,
    ModelAware(ModelWeights),
}

/// One evictable cache entry, bound to a monitored target.
#[derive(Debug, Clone)]
pub struct CacheEvicon {
    pub cache_id: String,
    pub model_binding: String,
    pub last_access: u64,
    pub access_frequency: u32,
    pub integrity_score: u8,
    pub dependency_depth: u8,
}

/// Per-target dimensional cache vector. The hot-path score is kept in
/// thousandths.
#[derive(Debug, Clone)]
pub struct DiramDimension {
    pub vector_id: String,
    pub hot_path_score_milli: u64,
    pub memory_footprint: usize,
    pub access_pattern: Vec<u64>,
    pub cache_state: CacheState,
}

/// Binding of a monitored target to its runtime process and path.
#[derive(Debug, Clone)]
pub struct ModelBinding {
    pub runtime: String,
    pub pid: Option<u32>,
    pub path: String,
    pub last_modified: u64,
    pub cache_dependencies: Vec<String>,
}

/// A registered target: its binding and its dimensional vector.
#[derive(Debug, Clone)]
pub struct TargetRecord {
    pub name: String,
    pub binding: ModelBinding,
    pub dimension: DiramDimension,
}

/// A rebuild queued after a cache bust, keyed by severity-derived score.
#[derive(Debug, Clone)]
pub struct RebuildRequest {
    pub cache_id: String,
    pub priority_score: u64,
    pub enqueued_at: u64,
}

/// Composite eviction score of an entry under model-aware weights:
/// 0.3 per access, 0.2 per integrity point, the dependency impact per
/// depth level, plus the language priority; doubled on the critical path.
/// Expressed over thousandths.
pub open spec fn spec_eviction_score(e: CacheEvicon, w: ModelWeights) -> int {
    (300 * e.access_frequency + 200 * e.integrity_score
        + w.dependency_impact_milli * e.dependency_depth + w.language_priority_milli) * (
    if w.critical_path {
        2int
    } else {
        1int
    })
}

/// Model-aware eviction score of one entry.
pub fn eviction_score(e: &CacheEvicon, w: &ModelWeights) -> (r: u64)
    ensures
        r == spec_eviction_score(*e, *w),
{
    let access: u64 = 300 * (e.access_frequency as u64);
    let integrity: u64 = 200 * (e.integrity_score as u64);
    let impact: u64 = w.dependency_impact_milli as u64;
    let depth: u64 = e.dependency_depth as u64;
    proof {
        assert(impact * depth <= 4294967295u64 * 255u64) by (nonlinear_arith)
            requires
                impact <= 4294967295u64,
                depth <= 255u64,
        ;
    }
    let dependency: u64 = impact * depth;
    let language: u64 = w.language_priority_milli as u64;
    let base: u64 = access + integrity + dependency + language;
    if w.critical_path {
        2 * base
    } else {
        base
    }
}

} // verus!
