//! The dimensional cache coordinator: tracks per-target freshness vectors,
//! runs bust and eviction decisions, and queues severity-scored rebuilds.

use vstd::prelude::*;
use vstd::string::StringExecFns;
use crate::cache_types::{
    CacheEvicon, CacheState, DiramDimension, EvictionStrategy, ModelBinding, ModelWeights,
    RebuildRequest, TargetRecord, eviction_score, spec_eviction_score,
};
use crate::evicon_store::{
    empty_entries, evicon_entries, store_get, store_insert, store_new, store_pairs, store_remove,
};
use crate::queue::{PriorityQueue, QueueItem, pop_index};
use crate::severity::CacheBustSeverity;

verus! {

/// The entries of `m` whose target binding is not `t`: what a bust of `t`
/// leaves behind.
pub open spec fn entries_without_target(m: Map<Seq<char>, CacheEvicon>, t: Seq<char>) -> Map<
    Seq<char>,
    CacheEvicon,
> {
    Map::new(|k: Seq<char>| m.dom().contains(k) && m[k].model_binding@ != t, |k: Seq<char>| m[k])
}

/// Some pair among the first `n` keyed `k` and was bound to target `t`:
/// the removal loop of a bust has already taken `k` out.
pub open spec fn removed_in_prefix(
    pairs: Seq<(String, CacheEvicon)>,
    n: int,
    k: Seq<char>,
    t: Seq<char>,
) -> bool {
    exists|i: int| 0 <= i < n && #[trigger] pairs[i].0@ == k && pairs[i].1.model_binding@ == t
}

/// Model-aware eviction never selects an entry whose target vector is Hot
/// or Warm: an eviction candidate's vector is always Cold or Stale.
pub proof fn lemma_candidate_never_hot_or_warm(m: DimensionalCacheManager, k: Seq<char>)
    requires
        m.is_eviction_candidate(k),
    ensures
        m.state_of(m.entries()[k].model_binding@) != Some(CacheState::Hot),
        m.state_of(m.entries()[k].model_binding@) != Some(CacheState::Warm),
{
}

/// The cache ids named in an eviction result, as a key set.
pub open spec fn evicted_key_set(r: Seq<String>) -> Set<Seq<char>> {
    Set::new(|k: Seq<char>| exists|i: int| 0 <= i < r.len() && #[trigger] r[i]@ == k)
}

/// Index of a lowest-scoring candidate under model-aware weights.
fn min_score_index(cands: &Vec<(String, CacheEvicon)>, w: &ModelWeights) -> (r: usize)
    requires
        cands@.len() > 0,
    ensures
        r < cands@.len(),
        forall|j: int|
            0 <= j < cands@.len() ==> spec_eviction_score(#[trigger] cands@[j].1, *w)
                >= spec_eviction_score(cands@[r as int].1, *w),
{
    let mut best: usize = 0;
    let mut j: usize = 1;
    while j < cands.len()
        invariant
            1 <= j <= cands@.len(),
            best < j,
            forall|p: int|
                0 <= p < j ==> spec_eviction_score(#[trigger] cands@[p].1, *w)
                    >= spec_eviction_score(cands@[best as int].1, *w),
        decreases cands@.len() - j,
    {
        if eviction_score(&cands[j].1, w) < eviction_score(&cands[best].1, w) {
            best = j;
        }
        j += 1;
    }
    best
}

/// Index of an entry with the oldest last access.
fn min_access_index(pairs: &Vec<(String, CacheEvicon)>) -> (r: usize)
    requires
        pairs@.len() > 0,
    ensures
        r < pairs@.len(),
        forall|j: int|
            0 <= j < pairs@.len() ==> (#[trigger] pairs@[j].1).last_access
                >= pairs@[r as int].1.last_access,
{
    let mut best: usize = 0;
    let mut j: usize = 1;
    while j < pairs.len()
        invariant
            1 <= j <= pairs@.len(),
            best < j,
            forall|p: int|
                0 <= p < j ==> (#[trigger] pairs@[p].1).last_access
                    >= pairs@[best as int].1.last_access,
        decreases pairs@.len() - j,
    {
        if pairs[j].1.last_access < pairs[best].1.last_access {
            best = j;
        }
        j += 1;
    }
    best
}

/// Coordinator of per-target cache freshness and eviction.
pub struct DimensionalCacheManager {
    targets: Vec<TargetRecord>,
    evicons: dashmap::DashMap<String, CacheEvicon>,
    rebuild_queue: PriorityQueue<RebuildRequest>,
    clock: u64,
}

impl DimensionalCacheManager {
    /// The registered targets, in binding order.
    pub closed spec fn targets(self) -> Seq<TargetRecord> {
        self.targets@
    }

    /// The evictable entries, keyed by cache id.
    pub closed spec fn entries(self) -> Map<Seq<char>, CacheEvicon> {
        evicon_entries(self.evicons)
    }

    /// The queued rebuild requests, in insertion order.
    pub closed spec fn rebuilds(self) -> Seq<QueueItem<RebuildRequest>> {
        self.rebuild_queue@
    }

    /// Target names are unique, so lookups by name are unambiguous.
    pub open spec fn wf(self) -> bool {
        forall|i: int, j: int|
            0 <= i < j < self.targets().len() ==> self.targets()[i].name@
                != self.targets()[j].name@
    }

    /// Whether a target of this name is bound.
    pub open spec fn has_target(self, name: Seq<char>) -> bool {
        exists|i: int| 0 <= i < self.targets().len() && self.targets()[i].name@ == name
    }

    /// Index of the target of this name.
    pub open spec fn target_index(self, name: Seq<char>) -> int {
        choose|i: int| 0 <= i < self.targets().len() && self.targets()[i].name@ == name
    }

    /// The record of the target of this name.
    pub open spec fn target_at(self, name: Seq<char>) -> TargetRecord {
        self.targets()[self.target_index(name)]
    }

    /// Vector state of the named target, `None` when unbound.
    pub open spec fn state_of(self, name: Seq<char>) -> Option<CacheState> {
        if self.has_target(name) {
            Some(self.target_at(name).dimension.cache_state)
        } else {
            None
        }
    }

    /// An entry may be evicted under the model-aware strategy only while its
    /// target's vector is Cold or Stale.
    pub open spec fn is_eviction_candidate(self, k: Seq<char>) -> bool {
        &&& self.entries().dom().contains(k)
        &&& match self.state_of(self.entries()[k].model_binding@) {
            Some(s) => s == CacheState::Cold || s == CacheState::Stale,
            None => false,
        }
    }

    /// Under unique names, any index holding the name is the lookup index.
    pub proof fn lemma_target_index_unique(self, j: int, name: Seq<char>)
        requires
            self.wf(),
            0 <= j < self.targets().len(),
            self.targets()[j].name@ == name,
        ensures
            self.has_target(name),
            self.target_index(name) == j,
    {
        assert(self.has_target(name));
        let i = self.target_index(name);
        if i != j {
            if i < j {
                assert(self.targets()[i].name@ != self.targets()[j].name@);
            } else {
                assert(self.targets()[j].name@ != self.targets()[i].name@);
            }
        }
    }

    /// An empty coordinator: no targets, no entries, no queued rebuilds.
    pub fn new() -> (r: DimensionalCacheManager)
        ensures
            r.wf(),
            r.targets().len() == 0,
            r.entries() == empty_entries(),
            r.rebuilds().len() == 0,
    {
        DimensionalCacheManager {
            targets: Vec::new(),
            evicons: store_new(),
            rebuild_queue: PriorityQueue::new(),
            clock: 0,
        }
    }

    /// Index of the named target in the registry, `None` when unbound.
    fn find_target(&self, name: &str) -> (r: Option<usize>)
        requires
            self.wf(),
        ensures
            match r {
                Some(i) => i < self.targets().len() && self.targets()[i as int].name@ == name@
                    && i as int == self.target_index(name@) && self.has_target(name@),
                None => !self.has_target(name@),
            },
    {
        let needle = String::from_str(name);
        let mut i: usize = 0;
        while i < self.targets.len()
            invariant
                self.wf(),
                needle@ == name@,
                i <= self.targets().len(),
                forall|j: int| 0 <= j < i ==> self.targets()[j].name@ != name@,
            decreases self.targets().len() - i,
        {
            if self.targets[i].name == needle {
                proof {
                    self.lemma_target_index_unique(i as int, name@);
                }
                return Some(i);
            }
            i += 1;
        }
        None
    }

    /// Register a model binding for the target and give it a fresh Cold
    /// dimensional vector with a zero hot-path score. Re-binding a known
    /// target replaces its record; nothing else changes.
    pub fn bind_model(&mut self, target_name: &str, binding: ModelBinding)
        requires
            old(self).wf(),
        ensures
            final(self).wf(),
            final(self).has_target(target_name@),
            final(self).target_at(target_name@).binding == binding,
            final(self).target_at(target_name@).dimension.cache_state == CacheState::Cold,
            final(self).target_at(target_name@).dimension.hot_path_score_milli == 0,
            final(self).target_at(target_name@).dimension.access_pattern@.len() == 0,
            final(self).target_at(target_name@).dimension.vector_id@ == "diram_"@ + target_name@,
            forall|n: Seq<char>|
                n != target_name@ ==> {
                    &&& final(self).has_target(n) == old(self).has_target(n)
                    &&& (old(self).has_target(n) ==> final(self).target_at(n) == old(
                        self,
                    ).target_at(n))
                },
            final(self).entries() == old(self).entries(),
            final(self).rebuilds() == old(self).rebuilds(),
    {
        let name = String::from_str(target_name);
        let vector_id = String::from_str("diram_").concat(target_name);
        let dimension = DiramDimension {
            vector_id,
            hot_path_score_milli: 0,
            memory_footprint: 0,
            access_pattern: Vec::new(),
            cache_state: CacheState::Cold,
        };
        let record = TargetRecord { name, binding, dimension };
        let found = self.find_target(target_name);
        match found {
            Some(i) => {
                let ghost before = self.targets@;
                self.targets[i] = record;
                proof {
                    assert(self.targets@ =~= before.update(i as int, self.targets@[i as int]));
                    self.lemma_target_index_unique(i as int, target_name@);
                    assert forall|n: Seq<char>| n != target_name@ implies {
                        &&& self.has_target(n) == old(self).has_target(n)
                        &&& (old(self).has_target(n) ==> self.target_at(n) == old(self).target_at(
                            n,
                        ))
                    } by {
                        if old(self).has_target(n) {
                            let j = old(self).target_index(n);
                            assert(old(self).targets()[j].name@ == n);
                            assert(j != i as int);
                            assert(self.targets()[j].name@ == n);
                            old(self).lemma_target_index_unique(j, n);
                            self.lemma_target_index_unique(j, n);
                        } else {
                            if self.has_target(n) {
                                let j = self.target_index(n);
                                assert(old(self).targets()[j].name@ == n);
                            }
                        }
                    }
                }
            },
            None => {
                let ghost before = self.targets@;
                self.targets.push(record);
                proof {
                    let len = before.len();
                    self.lemma_target_index_unique(len as int, target_name@);
                    assert forall|n: Seq<char>| n != target_name@ implies {
                        &&& self.has_target(n) == old(self).has_target(n)
                        &&& (old(self).has_target(n) ==> self.target_at(n) == old(self).target_at(
                            n,
                        ))
                    } by {
                        if old(self).has_target(n) {
                            let j = old(self).target_index(n);
                            assert(old(self).targets()[j].name@ == n);
                            assert(self.targets()[j].name@ == n);
                            old(self).lemma_target_index_unique(j, n);
                            self.lemma_target_index_unique(j, n);
                        } else {
                            if self.has_target(n) {
                                let j = self.target_index(n);
                                assert(self.targets()[j].name@ == n);
                                assert(j < len);
                                assert(old(self).targets()[j].name@ == n);
                            }
                        }
                    }
                }
            },
        }
    }

    /// Add an evictable entry, keyed by its cache id. An entry under the
    /// same id is replaced.
    pub fn register_evicon(&mut self, evicon: CacheEvicon)
        requires
            old(self).wf(),
        ensures
            final(self).wf(),
            final(self).entries() == old(self).entries().insert(
                evicon.cache_id@,
                evicon,
            ),
            final(self).targets() == old(self).targets(),
            final(self).rebuilds() == old(self).rebuilds(),
    {
        let key = evicon.cache_id.clone();
        store_insert(&mut self.evicons, key, evicon);
        proof {
            assert(self.entries() =~= old(self).entries().insert(evicon.cache_id@, evicon));
        }
    }

    /// Enqueue a rebuild request for the target at the severity-derived
    /// priority score.
    fn queue_rebuild(&mut self, target: &str, severity: CacheBustSeverity)
        ensures
            final(self).targets() == old(self).targets(),
            final(self).entries() == old(self).entries(),
            final(self).rebuilds().len() == old(self).rebuilds().len() + 1,
            final(self).rebuilds().drop_last() == old(self).rebuilds(),
            final(self).rebuilds().last().score == severity.spec_priority_score(),
            final(self).rebuilds().last().payload.cache_id@ == target@,
            final(self).rebuilds().last().payload.priority_score
                == severity.spec_priority_score(),
    {
        let score = severity.priority_score();
        let request = RebuildRequest {
            cache_id: String::from_str(target),
            priority_score: score,
            enqueued_at: self.clock,
        };
        self.clock = if self.clock == u64::MAX {
            u64::MAX
        } else {
            self.clock + 1
        };
        self.rebuild_queue.push(score, request);
        proof {
            assert(self.rebuilds().drop_last() =~= old(self).rebuilds());
        }
    }

    /// Bust the target's caches: every entry bound to it is removed, its
    /// vector goes Stale with the hot-path score halved, and a rebuild is
    /// queued at the severity-derived priority. Busting an unbound target
    /// changes nothing, so a racing unbind is tolerated.
    pub fn bust_cache(&mut self, target: &str, severity: CacheBustSeverity)
        requires
            old(self).wf(),
        ensures
            final(self).wf(),
            !old(self).has_target(target@) ==> {
                &&& final(self).targets() == old(self).targets()
                &&& final(self).entries() == old(self).entries()
                &&& final(self).rebuilds() == old(self).rebuilds()
            },
            old(self).has_target(target@) ==> {
                &&& final(self).has_target(target@)
                &&& final(self).target_at(target@).dimension.cache_state == CacheState::Stale
                &&& final(self).target_at(target@).dimension.hot_path_score_milli == old(
                    self,
                ).target_at(target@).dimension.hot_path_score_milli / 2
                &&& final(self).target_at(target@).binding == old(self).target_at(target@).binding
                &&& final(self).target_at(target@).name@ == target@
                &&& forall|n: Seq<char>|
                    n != target@ ==> {
                        &&& final(self).has_target(n) == old(self).has_target(n)
                        &&& (old(self).has_target(n) ==> final(self).target_at(n) == old(
                            self,
                        ).target_at(n))
                    }
                &&& final(self).entries() =~= entries_without_target(old(self).entries(), target@)
                &&& final(self).rebuilds().len() == old(self).rebuilds().len() + 1
                &&& final(self).rebuilds().drop_last() == old(self).rebuilds()
                &&& final(self).rebuilds().last().score == severity.spec_priority_score()
                &&& final(self).rebuilds().last().payload.cache_id@ == target@
                &&& final(self).rebuilds().last().payload.priority_score
                    == severity.spec_priority_score()
            },
    {
        let found = self.find_target(target);
        let i: usize = match found {
            Some(i) => i,
            None => {
                return ;
            },
        };
        let ghost before_targets = self.targets@;
        self.targets[i].dimension.cache_state = CacheState::Stale;
        let halved = self.targets[i].dimension.hot_path_score_milli / 2;
        self.targets[i].dimension.hot_path_score_milli = halved;
        proof {
            assert(forall|j: int|
                0 <= j < self.targets@.len() ==> self.targets@[j].name@
                    == before_targets[j].name@);
            assert(self.wf());
            self.lemma_target_index_unique(i as int, target@);
        }
        let ghost mid_targets = self.targets@;
        let ghost m0 = evicon_entries(self.evicons);
        let ghost q0 = self.rebuild_queue@;
        let pairs = store_pairs(&self.evicons);
        let needle = String::from_str(target);
        let mut idx: usize = 0;
        while idx < pairs.len()
            invariant
                idx <= pairs@.len(),
                needle@ == target@,
                self.targets@ == mid_targets,
                self.rebuild_queue@ == q0,
                forall|p: int|
                    0 <= p < pairs@.len() ==> {
                        &&& m0.dom().contains(#[trigger] pairs@[p].0@)
                        &&& m0[pairs@[p].0@] == pairs@[p].1
                    },
                forall|p: int, q: int| 0 <= p < q < pairs@.len() ==> pairs@[p].0@ != pairs@[q].0@,
                forall|k: Seq<char>|
                    m0.dom().contains(k) ==> exists|p: int|
                        0 <= p < pairs@.len() && #[trigger] pairs@[p].0@ == k,
                evicon_entries(self.evicons) =~= Map::new(
                    |k: Seq<char>|
                        m0.dom().contains(k) && !removed_in_prefix(pairs@, idx as int, k, target@),
                    |k: Seq<char>| m0[k],
                ),
            decreases pairs@.len() - idx,
        {
            let ghost cur = evicon_entries(self.evicons);
            if pairs[idx].1.model_binding == needle {
                store_remove(&mut self.evicons, &pairs[idx].0);
                proof {
                    assert(evicon_entries(self.evicons) =~= Map::new(
                        |k: Seq<char>|
                            m0.dom().contains(k) && !removed_in_prefix(
                                pairs@,
                                idx + 1,
                                k,
                                target@,
                            ),
                        |k: Seq<char>| m0[k],
                    )) by {
                        assert forall|k: Seq<char>|
                            m0.dom().contains(k) && !removed_in_prefix(
                                pairs@,
                                idx as int,
                                k,
                                target@,
                            ) && k != pairs@[idx as int].0@ implies !removed_in_prefix(
                            pairs@,
                            idx + 1,
                            k,
                            target@,
                        ) by {
                            assert(forall|p: int|
                                0 <= p < idx + 1 && #[trigger] pairs@[p].0@ == k
                                    && pairs@[p].1.model_binding@ == target@ ==> p < idx);
                        }
                        assert(removed_in_prefix(pairs@, idx + 1, pairs@[idx as int].0@, target@));
                    }
                }
            } else {
                proof {
                    assert(evicon_entries(self.evicons) =~= Map::new(
                        |k: Seq<char>|
                            m0.dom().contains(k) && !removed_in_prefix(
                                pairs@,
                                idx + 1,
                                k,
                                target@,
                            ),
                        |k: Seq<char>| m0[k],
                    )) by {
                        assert forall|k: Seq<char>|
                            removed_in_prefix(pairs@, idx + 1, k, target@) implies removed_in_prefix(
                            pairs@,
                            idx as int,
                            k,
                            target@,
                        ) by {
                            let p = choose|p: int|
                                0 <= p < idx + 1 && #[trigger] pairs@[p].0@ == k
                                    && pairs@[p].1.model_binding@ == target@;
                            assert(p != idx);
                        }
                    }
                }
            }
            idx += 1;
        }
        proof {
            assert(evicon_entries(self.evicons) =~= entries_without_target(m0, target@)) by {
                assert forall|k: Seq<char>| m0.dom().contains(k) implies (removed_in_prefix(
                    pairs@,
                    pairs@.len() as int,
                    k,
                    target@,
                ) <==> m0[k].model_binding@ == target@) by {
                    if m0[k].model_binding@ == target@ {
                        let p = choose|p: int|
                            0 <= p < pairs@.len() && #[trigger] pairs@[p].0@ == k;
                        assert(pairs@[p].1.model_binding@ == target@);
                    }
                    if removed_in_prefix(pairs@, pairs@.len() as int, k, target@) {
                        let p = choose|p: int|
                            0 <= p < pairs@.len() && #[trigger] pairs@[p].0@ == k
                                && pairs@[p].1.model_binding@ == target@;
                        assert(m0[k] == pairs@[p].1);
                    }
                }
            }
        }
        self.queue_rebuild(target, severity);
        proof {
            assert forall|n: Seq<char>| n != target@ implies {
                &&& self.has_target(n) == old(self).has_target(n)
                &&& (old(self).has_target(n) ==> self.target_at(n) == old(self).target_at(n))
            } by {
                if old(self).has_target(n) {
                    let j = old(self).target_index(n);
                    assert(old(self).targets()[j].name@ == n);
                    assert(j != i as int);
                    assert(self.targets()[j] == old(self).targets()[j]);
                    old(self).lemma_target_index_unique(j, n);
                    self.lemma_target_index_unique(j, n);
                } else {
                    if self.has_target(n) {
                        let j = self.target_index(n);
                        assert(old(self).targets()[j].name@ == n);
                    }
                }
            }
            self.lemma_target_index_unique(i as int, target@);
        }
    }

    /// React to a process-id change of the target: the binding's pid is
    /// updated and the target is busted, at High severity when the process
    /// disappeared and at Medium when it appeared or was replaced. An
    /// unchanged pid, or an unbound target, changes nothing.
    pub fn monitor_pid_changes(&mut self, target: &str, old_pid: Option<u32>, new_pid: Option<u32>)
        requires
            old(self).wf(),
        ensures
            final(self).wf(),
            old_pid == new_pid || !old(self).has_target(target@) ==> {
                &&& final(self).targets() == old(self).targets()
                &&& final(self).entries() == old(self).entries()
                &&& final(self).rebuilds() == old(self).rebuilds()
            },
            old_pid != new_pid && old(self).has_target(target@) ==> {
                &&& final(self).has_target(target@)
                &&& final(self).target_at(target@).binding.pid == new_pid
                &&& final(self).target_at(target@).binding.runtime == old(self).target_at(
                    target@,
                ).binding.runtime
                &&& final(self).target_at(target@).binding.path == old(self).target_at(
                    target@,
                ).binding.path
                &&& final(self).target_at(target@).dimension.cache_state == CacheState::Stale
                &&& final(self).target_at(target@).dimension.hot_path_score_milli == old(
                    self,
                ).target_at(target@).dimension.hot_path_score_milli / 2
                &&& final(self).entries() =~= entries_without_target(old(self).entries(), target@)
                &&& final(self).rebuilds().len() == old(self).rebuilds().len() + 1
                &&& final(self).rebuilds().drop_last() == old(self).rebuilds()
                &&& final(self).rebuilds().last().score == (if new_pid is None {
                    10int
                } else {
                    5int
                })
                &&& final(self).rebuilds().last().payload.cache_id@ == target@
                &&& forall|n: Seq<char>|
                    n != target@ ==> {
                        &&& final(self).has_target(n) == old(self).has_target(n)
                        &&& (old(self).has_target(n) ==> final(self).target_at(n) == old(
                            self,
                        ).target_at(n))
                    }
            },
    {
        let changed = match (old_pid, new_pid) {
            (None, None) => false,
            (Some(a), Some(b)) => a != b,
            _ => true,
        };
        if !changed {
            return ;
        }
        let found = self.find_target(target);
        let i: usize = match found {
            Some(i) => i,
            None => {
                return ;
            },
        };
        let ghost before_targets = self.targets@;
        self.targets[i].binding.pid = new_pid;
        proof {
            assert(forall|j: int|
                0 <= j < self.targets@.len() ==> self.targets@[j].name@
                    == before_targets[j].name@);
            assert(self.wf());
            self.lemma_target_index_unique(i as int, target@);
        }
        let ghost mid = *self;
        let severity = if new_pid.is_none() {
            CacheBustSeverity::High
        } else {
            CacheBustSeverity::Medium
        };
        self.bust_cache(target, severity);
        proof {
            assert forall|n: Seq<char>| n != target@ implies {
                &&& self.has_target(n) == old(self).has_target(n)
                &&& (old(self).has_target(n) ==> self.target_at(n) == old(self).target_at(n))
            } by {
                if old(self).has_target(n) {
                    let j = old(self).target_index(n);
                    assert(old(self).targets()[j].name@ == n);
                    assert(j != i as int);
                    assert(mid.targets()[j] == old(self).targets()[j]);
                    old(self).lemma_target_index_unique(j, n);
                    mid.lemma_target_index_unique(j, n);
                } else {
                    if mid.has_target(n) {
                        let j = mid.target_index(n);
                        assert(old(self).targets()[j].name@ == n);
                    }
                }
            }
            mid.lemma_target_index_unique(i as int, target@);
        }
    }

    /// Whether the named target is bound with a Cold or Stale vector, which
    /// makes its entries eviction candidates.
    fn is_cold_or_stale(&self, name: &String) -> (r: bool)
        requires
            self.wf(),
        ensures
            r == match self.state_of(name@) {
                Some(s) => s == CacheState::Cold || s == CacheState::Stale,
                None => false,
            },
    {
        match self.find_target(name.as_str()) {
            Some(i) => {
                let s = self.targets[i].dimension.cache_state;
                match s {
                    CacheState::Cold => true,
                    CacheState::Stale => true,
                    _ => false,
                }
            },
            None => false,
        }
    }

    /// Evict cache entries under the given strategy and return the removed
    /// cache ids.
    ///
    /// Model-aware eviction considers only entries whose target vector is
    /// Cold or Stale, and removes the three lowest-scoring candidates (fewer
    /// when fewer are eligible): every surviving candidate scores at least
    /// as high as every evicted one. LRU removes the single entry with the
    /// oldest last access, regardless of vector state (legacy behavior,
    /// retained for compatibility). The remaining strategies evict nothing.
    #[verifier::rlimit(60)]
    pub fn cache_evict(&mut self, strategy: &EvictionStrategy) -> (r: Vec<String>)
        requires
            old(self).wf(),
        ensures
            final(self).wf(),
            final(self).targets() == old(self).targets(),
            final(self).rebuilds() == old(self).rebuilds(),
            forall|p: int, q: int| 0 <= p < q < r@.len() ==> r@[p]@ != r@[q]@,
            forall|p: int| 0 <= p < r@.len() ==> old(self).entries().dom().contains(#[trigger] r@[p]@),
            final(self).entries() =~= old(self).entries().remove_keys(evicted_key_set(r@)),
            match *strategy {
                EvictionStrategy::ModelAware(w) => {
                    &&& r@.len() <= 3
                    &&& forall|p: int|
                        0 <= p < r@.len() ==> old(self).is_eviction_candidate(#[trigger] r@[p]@)
                    &&& (r@.len() < 3 ==> forall|k: Seq<char>|
                        old(self).is_eviction_candidate(k) ==> evicted_key_set(r@).contains(k))
                    &&& forall|k: Seq<char>, p: int|
                        #![trigger old(self).is_eviction_candidate(k), r@[p]@]
                        old(self).is_eviction_candidate(k) && !evicted_key_set(r@).contains(k) && 0
                            <= p < r@.len() ==> spec_eviction_score(old(self).entries()[k], w)
                            >= spec_eviction_score(old(self).entries()[r@[p]@], w)
                },
                EvictionStrategy::LRU => {
                    &&& r@.len() <= 1
                    &&& ((exists|k: Seq<char>| old(self).entries().dom().contains(k)) ==> r@.len()
                        == 1)
                    &&& forall|k: Seq<char>, p: int|
                        #![trigger old(self).entries().dom().contains(k), r@[p]@]
                        old(self).entries().dom().contains(k) && 0 <= p < r@.len() ==> old(
                            self,
                        ).entries()[k].last_access >= old(self).entries()[r@[p]@].last_access
                },
                _ => r@.len() == 0,
            },
    {
        let ghost g0 = *old(self);
        match strategy {
            EvictionStrategy::ModelAware(w) => {
                let pairs = store_pairs(&self.evicons);
                let mut rest = pairs;
                let ghost all = rest@;
                let mut cands: Vec<(String, CacheEvicon)> = Vec::new();
                while rest.len() > 0
                    invariant
                        self == old(self),
                        self.wf(),
                        rest@ =~= all.subrange(0, rest@.len() as int),
                        rest@.len() <= all.len(),
                        forall|p: int|
                            0 <= p < all.len() ==> {
                                &&& self.entries().dom().contains(#[trigger] all[p].0@)
                                &&& self.entries()[all[p].0@] == all[p].1
                            },
                        forall|p: int, q: int| 0 <= p < q < all.len() ==> all[p].0@ != all[q].0@,
                        forall|k: Seq<char>|
                            self.entries().dom().contains(k) ==> exists|p: int|
                                0 <= p < all.len() && #[trigger] all[p].0@ == k,
                        forall|c: int|
                            0 <= c < cands@.len() ==> exists|p: int|
                                rest@.len() <= p < all.len() && all[p] == #[trigger] cands@[c],
                        forall|c: int|
                            0 <= c < cands@.len() ==> self.is_eviction_candidate(
                                #[trigger] cands@[c].0@,
                            ),
                        forall|c: int, d: int|
                            0 <= c < d < cands@.len() ==> cands@[c].0@ != cands@[d].0@,
                        forall|p: int|
                            rest@.len() <= p < all.len() && self.is_eviction_candidate(
                                #[trigger] all[p].0@,
                            ) ==> exists|c: int|
                                0 <= c < cands@.len() && #[trigger] cands@[c].0@ == all[p].0@,
                    decreases rest@.len(),
                {
                    let ghost rest0 = rest@;
                    let pair = match rest.pop() {
                        Some(pair) => pair,
                        None => {
                            proof {
                                assert(false);
                            }
                            unreached()
                        },
                    };
                    let ghost b = rest@.len() as int;
                    proof {
                        assert(pair == all[b]);
                        assert(rest@ =~= all.subrange(0, b));
                    }
                    let eligible = self.is_cold_or_stale(&pair.1.model_binding);
                    let ghost cands0 = cands@;
                    if eligible {
                        proof {
                            assert(self.entries()[pair.0@] == pair.1);
                            assert(self.is_eviction_candidate(pair.0@));
                            assert forall|c: int| 0 <= c < cands@.len() implies cands@[c].0@
                                != pair.0@ by {
                                let p = choose|p: int|
                                    rest0.len() <= p < all.len() && all[p] == cands@[c];
                                assert(all[p].0@ != all[b].0@);
                            }
                        }
                        cands.push(pair);
                        proof {
                            assert forall|c: int| 0 <= c < cands@.len() implies exists|p: int|
                                rest@.len() <= p < all.len() && all[p] == #[trigger] cands@[c] by {
                                if c < cands0.len() {
                                    assert(cands@[c] == cands0[c]);
                                    let p = choose|p: int|
                                        rest0.len() <= p < all.len() && all[p] == cands0[c];
                                    assert(rest@.len() <= p < all.len() && all[p] == cands@[c]);
                                } else {
                                    assert(all[b] == cands@[c]);
                                }
                            }
                            assert forall|p: int|
                                rest@.len() <= p < all.len() && self.is_eviction_candidate(
                                    #[trigger] all[p].0@,
                                ) implies exists|c: int|
                                0 <= c < cands@.len() && #[trigger] cands@[c].0@ == all[p].0@ by {
                                if p == b {
                                    assert(cands@[cands@.len() - 1].0@ == all[b].0@);
                                } else {
                                    let c = choose|c: int|
                                        0 <= c < cands0.len() && #[trigger] cands0[c].0@
                                            == all[p].0@;
                                    assert(cands@[c].0@ == all[p].0@);
                                }
                            }
                        }
                    } else {
                        proof {
                            assert(self.entries()[pair.0@] == pair.1);
                            assert(!self.is_eviction_candidate(all[b].0@));
                            assert forall|p: int|
                                rest@.len() <= p < all.len() && self.is_eviction_candidate(
                                    #[trigger] all[p].0@,
                                ) implies exists|c: int|
                                0 <= c < cands@.len() && #[trigger] cands@[c].0@ == all[p].0@ by {
                                assert(p != b);
                            }
                        }
                    }
                }
                proof {
                    assert(rest@.len() == 0);
                }
                let mut evicted: Vec<String> = Vec::new();
                let mut rounds: usize = 0;
                while rounds < 3 && cands.len() > 0
                    invariant
                        self.wf(),
                        self.targets() == g0.targets(),
                        self.rebuilds() == g0.rebuilds(),
                        rounds == evicted@.len(),
                        rounds <= 3,
                        forall|c: int|
                            0 <= c < cands@.len() ==> g0.is_eviction_candidate(
                                #[trigger] cands@[c].0@,
                            ) && g0.entries()[cands@[c].0@] == cands@[c].1,
                        forall|c: int, d: int|
                            0 <= c < d < cands@.len() ==> cands@[c].0@ != cands@[d].0@,
                        forall|p: int, q: int|
                            0 <= p < q < evicted@.len() ==> evicted@[p]@ != evicted@[q]@,
                        forall|p: int|
                            0 <= p < evicted@.len() ==> g0.is_eviction_candidate(
                                #[trigger] evicted@[p]@,
                            ),
                        forall|c: int, p: int|
                            0 <= c < cands@.len() && 0 <= p < evicted@.len() ==> #[trigger] cands@[c].0@
                                != #[trigger] evicted@[p]@,
                        forall|k: Seq<char>|
                            g0.is_eviction_candidate(k) ==> (exists|c: int|
                                0 <= c < cands@.len() && #[trigger] cands@[c].0@ == k) || evicted_key_set(
                                evicted@,
                            ).contains(k),
                        self.entries() =~= g0.entries().remove_keys(evicted_key_set(evicted@)),
                        forall|k: Seq<char>, p: int|
                            #![trigger g0.is_eviction_candidate(k), evicted@[p]@]
                            g0.is_eviction_candidate(k) && !evicted_key_set(evicted@).contains(k)
                                && 0 <= p < evicted@.len() ==> spec_eviction_score(
                                g0.entries()[k],
                                *w,
                            ) >= spec_eviction_score(
                                g0.entries()[evicted@[p]@],
                                *w,
                            ),
                    decreases 3 - rounds,
                {
                    let ghost cands0 = cands@;
                    let ghost evicted0 = evicted@;
                    let best = min_score_index(&cands, w);
                    let pair = cands.remove(best);
                    store_remove(&mut self.evicons, &pair.0);
                    evicted.push(pair.0);
                    rounds += 1;
                    proof {
                        let k_new = evicted@.last()@;
                        assert(k_new == cands0[best as int].0@);
                        assert(evicted_key_set(evicted@) =~= evicted_key_set(evicted0).insert(
                            k_new,
                        )) by {
                            assert forall|k: Seq<char>|
                                evicted_key_set(evicted@).contains(k) implies evicted_key_set(
                                evicted0,
                            ).insert(k_new).contains(k) by {
                                let i = choose|i: int|
                                    0 <= i < evicted@.len() && #[trigger] evicted@[i]@ == k;
                                if i < evicted0.len() {
                                    assert(evicted0[i]@ == k);
                                }
                            }
                            assert forall|k: Seq<char>|
                                evicted_key_set(evicted0).insert(k_new).contains(k) implies
                                evicted_key_set(evicted@).contains(k) by {
                                if k == k_new {
                                    assert(evicted@[evicted@.len() - 1]@ == k);
                                } else {
                                    let i = choose|i: int|
                                        0 <= i < evicted0.len() && #[trigger] evicted0[i]@ == k;
                                    assert(evicted@[i]@ == k);
                                }
                            }
                        }
                        assert(self.entries() =~= g0.entries().remove_keys(
                            evicted_key_set(evicted@),
                        )) by {
                            assert(self.entries() =~= g0.entries().remove_keys(
                                evicted_key_set(evicted0),
                            ).remove(k_new));
                        }
                        assert(forall|c: int|
                            0 <= c < cands@.len() ==> cands@[c] == if c < best {
                                cands0[c]
                            } else {
                                cands0[c + 1]
                            });
                        assert forall|k: Seq<char>|
                            g0.is_eviction_candidate(k) implies (exists|c: int|
                            0 <= c < cands@.len() && #[trigger] cands@[c].0@ == k)
                            || evicted_key_set(evicted@).contains(k) by {
                            if !evicted_key_set(evicted@).contains(k) {
                                assert(!evicted_key_set(evicted0).contains(k));
                                let c = choose|c: int|
                                    0 <= c < cands0.len() && #[trigger] cands0[c].0@ == k;
                                assert(c != best);
                                if c < best {
                                    assert(cands@[c].0@ == k);
                                } else {
                                    assert(cands@[c - 1].0@ == k);
                                }
                            }
                        }
                        assert forall|k: Seq<char>, p: int|
                            #![trigger g0.is_eviction_candidate(k), evicted@[p]@]
                            g0.is_eviction_candidate(k) && !evicted_key_set(evicted@).contains(k)
                                && 0 <= p < evicted@.len() implies spec_eviction_score(
                            g0.entries()[k],
                            *w,
                        ) >= spec_eviction_score(g0.entries()[evicted@[p]@], *w) by {
                            if p < evicted0.len() {
                                assert(evicted@[p]@ == evicted0[p]@);
                            } else {
                                assert(evicted@[p]@ == k_new);
                                let c = choose|c: int|
                                    0 <= c < cands0.len() && #[trigger] cands0[c].0@ == k;
                                assert(g0.entries()[k] == cands0[c].1);
                                assert(spec_eviction_score(cands0[c].1, *w) >= spec_eviction_score(
                                    cands0[best as int].1,
                                    *w,
                                ));
                                assert(g0.entries()[k_new] == cands0[best as int].1);
                            }
                        }
                    }
                }
                proof {
                    if evicted@.len() < 3 {
                        assert(cands@.len() == 0);
                    }
                }
                evicted
            },
            EvictionStrategy::LRU => {
                let mut pairs = store_pairs(&self.evicons);
                let ghost all = pairs@;
                let mut evicted: Vec<String> = Vec::new();
                if pairs.len() > 0 {
                    let best = min_access_index(&pairs);
                    let pair = pairs.remove(best);
                    store_remove(&mut self.evicons, &pair.0);
                    evicted.push(pair.0);
                    proof {
                        let k_new = all[best as int].0@;
                        assert(evicted_key_set(evicted@) =~= Set::empty().insert(k_new)) by {
                            assert(evicted@[0]@ == k_new);
                            assert forall|k: Seq<char>|
                                evicted_key_set(evicted@).contains(k) implies k == k_new by {
                                let i = choose|i: int|
                                    0 <= i < evicted@.len() && #[trigger] evicted@[i]@ == k;
                                assert(i == 0);
                            }
                        }
                        assert(self.entries() =~= g0.entries().remove_keys(
                            evicted_key_set(evicted@),
                        )) by {
                            assert(self.entries() =~= g0.entries().remove(k_new));
                        }
                        assert forall|k: Seq<char>, p: int|
                            #![trigger g0.entries().dom().contains(k), evicted@[p]@]
                            g0.entries().dom().contains(k) && 0 <= p < evicted@.len() implies
                            g0.entries()[k].last_access
                            >= g0.entries()[evicted@[p]@].last_access by {
                            let q = choose|q: int| 0 <= q < all.len() && #[trigger] all[q].0@ == k;
                            assert(g0.entries()[k] == all[q].1);
                            assert(all[q].1.last_access >= all[best as int].1.last_access);
                            assert(g0.entries()[k_new] == all[best as int].1);
                        }
                    }
                    evicted
                } else {
                    proof {
                        assert forall|k: Seq<char>| !g0.entries().dom().contains(k) by {
                            if g0.entries().dom().contains(k) {
                                let p = choose|p: int|
                                    0 <= p < pairs@.len() && #[trigger] pairs@[p].0@ == k;
                            }
                        }
                        assert(self.entries() =~= g0.entries().remove_keys(
                            evicted_key_set(evicted@),
                        ));
                    }
                    evicted
                }
            },
            _ => {
                let evicted: Vec<String> = Vec::new();
                proof {
                    assert(self.entries() =~= old(self).entries().remove_keys(
                        evicted_key_set(evicted@),
                    ));
                }
                evicted
            },
        }
    }

    /// Vector state of the named target, `None` when unbound.
    pub fn vector_state(&self, target: &str) -> (r: Option<CacheState>)
        requires
            self.wf(),
        ensures
            r == self.state_of(target@),
    {
        match self.find_target(target) {
            Some(i) => Some(self.targets[i].dimension.cache_state),
            None => None,
        }
    }

    /// Hot-path score (in thousandths) of the named target.
    pub fn hot_path_score_milli(&self, target: &str) -> (r: Option<u64>)
        requires
            self.wf(),
        ensures
            self.has_target(target@) ==> r == Some(
                self.target_at(target@).dimension.hot_path_score_milli,
            ),
            !self.has_target(target@) ==> r is None,
    {
        match self.find_target(target) {
            Some(i) => Some(self.targets[i].dimension.hot_path_score_milli),
            None => None,
        }
    }

    /// Process id recorded in the named target's binding.
    pub fn binding_pid(&self, target: &str) -> (r: Option<Option<u32>>)
        requires
            self.wf(),
        ensures
            self.has_target(target@) ==> r == Some(self.target_at(target@).binding.pid),
            !self.has_target(target@) ==> r is None,
    {
        match self.find_target(target) {
            Some(i) => Some(self.targets[i].binding.pid),
            None => None,
        }
    }

    /// Number of queued rebuild requests.
    pub fn rebuild_queue_len(&self) -> (r: usize)
        ensures
            r == self.rebuilds().len(),
    {
        self.rebuild_queue.len()
    }

    /// Dequeue the most urgent rebuild request: highest priority score
    /// first, first-queued first within a score.
    pub fn pop_rebuild(&mut self) -> (r: Option<RebuildRequest>)
        ensures
            final(self).targets() == old(self).targets(),
            final(self).entries() == old(self).entries(),
            final(self).wf() == old(self).wf(),
            old(self).rebuilds().len() == 0 ==> r is None && final(self).rebuilds() == old(
                self,
            ).rebuilds(),
            old(self).rebuilds().len() > 0 ==> {
                &&& r is Some
                &&& r->Some_0 == old(self).rebuilds()[pop_index(old(self).rebuilds())].payload
                &&& final(self).rebuilds() == old(self).rebuilds().remove(
                    pop_index(old(self).rebuilds()),
                )
            },
    {
        match self.rebuild_queue.pop() {
            Some(item) => Some(item.payload),
            None => None,
        }
    }
}


impl DimensionalCacheManager {
    /// The entry stored under this cache id.
    pub fn get_evicon(&self, cache_id: &str) -> (r: Option<CacheEvicon>)
        ensures
            r is Some <==> self.entries().dom().contains(cache_id@),
            r is Some ==> r->Some_0 == self.entries()[cache_id@],
    {
        let key = String::from_str(cache_id);
        store_get(&self.evicons, &key)
    }

    /// Cache ids of the entries bound to the target: every listed id is
    /// bound to it, and every bound entry is listed exactly once.
    pub fn entries_bound_to(&self, target: &str) -> (r: Vec<String>)
        ensures
            forall|p: int, q: int| 0 <= p < q < r@.len() ==> r@[p]@ != r@[q]@,
            forall|p: int|
                0 <= p < r@.len() ==> self.entries().dom().contains(#[trigger] r@[p]@)
                    && self.entries()[r@[p]@].model_binding@ == target@,
            forall|k: Seq<char>|
                self.entries().dom().contains(k) && self.entries()[k].model_binding@ == target@
                    ==> exists|p: int| 0 <= p < r@.len() && #[trigger] r@[p]@ == k,
    {
        let pairs = store_pairs(&self.evicons);
        let needle = String::from_str(target);
        let mut out: Vec<String> = Vec::new();
        let mut i: usize = 0;
        while i < pairs.len()
            invariant
                needle@ == target@,
                i <= pairs@.len(),
                forall|p: int|
                    0 <= p < pairs@.len() ==> {
                        &&& self.entries().dom().contains(#[trigger] pairs@[p].0@)
                        &&& self.entries()[pairs@[p].0@] == pairs@[p].1
                    },
                forall|p: int, q: int| 0 <= p < q < pairs@.len() ==> pairs@[p].0@ != pairs@[q].0@,
                forall|k: Seq<char>|
                    self.entries().dom().contains(k) ==> exists|p: int|
                        0 <= p < pairs@.len() && #[trigger] pairs@[p].0@ == k,
                forall|p: int|
                    0 <= p < out@.len() ==> self.entries().dom().contains(#[trigger] out@[p]@)
                        && self.entries()[out@[p]@].model_binding@ == target@,
                forall|p: int, q: int| 0 <= p < q < out@.len() ==> out@[p]@ != out@[q]@,
                forall|t: int|
                    0 <= t < i && (#[trigger] pairs@[t].1).model_binding@ == target@
                        ==> exists|p: int| 0 <= p < out@.len() && #[trigger] out@[p]@
                        == pairs@[t].0@,
                forall|p: int|
                    0 <= p < out@.len() ==> exists|t: int|
                        0 <= t < i && #[trigger] out@[p]@ == pairs@[t].0@,
            decreases pairs@.len() - i,
        {
            if pairs[i].1.model_binding == needle {
                let ghost out0 = out@;
                proof {
                    assert forall|p: int| 0 <= p < out0.len() implies out0[p]@
                        != pairs@[i as int].0@ by {
                        let t = choose|t: int| 0 <= t < i && #[trigger] out0[p]@ == pairs@[t].0@;
                        assert(pairs@[t].0@ != pairs@[i as int].0@);
                    }
                }
                out.push(pairs[i].0.clone());
                proof {
                    assert forall|t: int|
                        0 <= t < i + 1 && (#[trigger] pairs@[t].1).model_binding@
                            == target@ implies exists|p: int|
                        0 <= p < out@.len() && #[trigger] out@[p]@ == pairs@[t].0@ by {
                        if t < i {
                            let p = choose|p: int|
                                0 <= p < out0.len() && #[trigger] out0[p]@ == pairs@[t].0@;
                            assert(out@[p]@ == pairs@[t].0@);
                        } else {
                            assert(out@[out@.len() - 1]@ == pairs@[t].0@);
                        }
                    }
                    assert forall|p: int| 0 <= p < out@.len() implies exists|t: int|
                        0 <= t < i + 1 && #[trigger] out@[p]@ == pairs@[t].0@ by {
                        if p < out0.len() {
                            let t = choose|t: int| 0 <= t < i && #[trigger] out0[p]@ == pairs@[t].0@;
                            assert(out@[p]@ == pairs@[t].0@);
                        } else {
                            assert(out@[p]@ == pairs@[i as int].0@);
                        }
                    }
                }
            }
            i += 1;
        }
        proof {
            assert forall|k: Seq<char>|
                self.entries().dom().contains(k) && self.entries()[k].model_binding@
                    == target@ implies exists|p: int| 0 <= p < out@.len() && #[trigger] out@[p]@
                == k by {
                let t = choose|t: int| 0 <= t < pairs@.len() && #[trigger] pairs@[t].0@ == k;
                assert(pairs@[t].1 == self.entries()[k]);
                assert(pairs@[t].1.model_binding@ == target@);
            }
        }
        out
    }

    /// Record an access of the target at a timestamp: the access pattern
    /// grows and the vector turns Hot.
    pub fn record_access(&mut self, target: &str, timestamp: u64)
        requires
            old(self).wf(),
        ensures
            final(self).wf(),
            final(self).entries() == old(self).entries(),
            final(self).rebuilds() == old(self).rebuilds(),
            !old(self).has_target(target@) ==> final(self).targets() == old(self).targets(),
            old(self).has_target(target@) ==> {
                &&& final(self).has_target(target@)
                &&& final(self).target_at(target@).dimension.cache_state == CacheState::Hot
                &&& final(self).target_at(target@).dimension.access_pattern@ == old(
                    self,
                ).target_at(target@).dimension.access_pattern@.push(timestamp)
                &&& final(self).target_at(target@).binding == old(self).target_at(target@).binding
                &&& forall|n: Seq<char>|
                    n != target@ ==> {
                        &&& final(self).has_target(n) == old(self).has_target(n)
                        &&& (old(self).has_target(n) ==> final(self).target_at(n) == old(
                            self,
                        ).target_at(n))
                    }
            },
    {
        let i: usize = match self.find_target(target) {
            Some(i) => i,
            None => {
                return ;
            },
        };
        let ghost before = self.targets@;
        self.targets[i].dimension.cache_state = CacheState::Hot;
        self.targets[i].dimension.access_pattern.push(timestamp);
        proof {
            assert(forall|j: int|
                0 <= j < self.targets@.len() ==> self.targets@[j].name@ == before[j].name@);
            assert(self.wf());
            self.lemma_target_index_unique(i as int, target@);
            assert forall|n: Seq<char>| n != target@ implies {
                &&& self.has_target(n) == old(self).has_target(n)
                &&& (old(self).has_target(n) ==> self.target_at(n) == old(self).target_at(n))
            } by {
                if old(self).has_target(n) {
                    let j = old(self).target_index(n);
                    assert(old(self).targets()[j].name@ == n);
                    assert(j != i as int);
                    old(self).lemma_target_index_unique(j, n);
                    self.lemma_target_index_unique(j, n);
                } else {
                    if self.has_target(n) {
                        let j = self.target_index(n);
                        assert(old(self).targets()[j].name@ == n);
                    }
                }
            }
        }
    }
}

} // verus!
