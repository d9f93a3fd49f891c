//! Decisions of the change watcher: mapping observed file changes to bust
//! severities and deciding when a watched process needs recovery. The
//! filesystem and PID polling themselves run outside.

use vstd::prelude::*;
use crate::daemon::{BustcallConfig, TargetConfig};
use crate::dimensional_cache::DimensionalCacheManager;
use crate::cache_types::{CacheState, ModelBinding};
use crate::severity::CacheBustSeverity;
use vstd::string::StringExecFns;

verus! {

/// Kind of an observed file change.
#[derive(Debug, Clone, Copy, PartialEq, Eq, Structural)]
pub enum ChangeKind {
    Create,
    Modify,
    Remove,
}

/// The extension names a critical source file.
pub open spec fn spec_is_source_ext(e: Seq<char>) -> bool {
    ||| e == "rs"@
    ||| e == "c"@
    ||| e == "cpp"@
    ||| e == "h"@
    ||| e == "hpp"@
    ||| e == "py"@
    ||| e == "js"@
    ||| e == "ts"@
}

/// The extension names a lockfile.
pub open spec fn spec_is_lock_ext(e: Seq<char>) -> bool {
    e == "lock"@ || e == "sum"@
}

/// The extension names documentation or an asset.
pub open spec fn spec_is_doc_ext(e: Seq<char>) -> bool {
    ||| e == "md"@
    ||| e == "txt"@
    ||| e == "png"@
    ||| e == "jpg"@
    ||| e == "svg"@
}

/// The severity a file change busts at: a critical source extension busts
/// at Medium on modification and at High on removal; a lockfile at
/// Critical; documentation and assets at Low; anything else at Medium.
pub open spec fn spec_change_severity(e: Seq<char>, kind: ChangeKind) -> CacheBustSeverity {
    if spec_is_source_ext(e) {
        if kind is Remove {
            CacheBustSeverity::High
        } else {
            CacheBustSeverity::Medium
        }
    } else if spec_is_lock_ext(e) {
        CacheBustSeverity::Critical
    } else if spec_is_doc_ext(e) {
        CacheBustSeverity::Low
    } else {
        CacheBustSeverity::Medium
    }
}

/// Compare an extension against one name.
fn ext_is(extension: &String, name: &str) -> (r: bool)
    ensures
        r == (extension@ == name@),
{
    let needle = String::from_str(name);
    *extension == needle
}

/// Map a file change to its bust severity, honoring the extension table.
pub fn assess_file_change_severity(extension: &str, kind: ChangeKind) -> (r: CacheBustSeverity)
    ensures
        r == spec_change_severity(extension@, kind),
{
    let e = String::from_str(extension);
    let source = ext_is(&e, "rs") || ext_is(&e, "c") || ext_is(&e, "cpp") || ext_is(&e, "h")
        || ext_is(&e, "hpp") || ext_is(&e, "py") || ext_is(&e, "js") || ext_is(&e, "ts");
    if source {
        if kind == ChangeKind::Remove {
            CacheBustSeverity::High
        } else {
            CacheBustSeverity::Medium
        }
    } else if ext_is(&e, "lock") || ext_is(&e, "sum") {
        CacheBustSeverity::Critical
    } else if ext_is(&e, "md") || ext_is(&e, "txt") || ext_is(&e, "png") || ext_is(&e, "jpg")
        || ext_is(&e, "svg") {
        CacheBustSeverity::Low
    } else {
        CacheBustSeverity::Medium
    }
}

/// Watch state of one target: its configuration and the last observed pid.
#[derive(Debug, Clone)]
pub struct RuntimeWatcher {
    pub target_name: String,
    pub config: TargetConfig,
    pub current_pid: Option<u32>,
    pub last_file_hash: Option<String>,
}

impl RuntimeWatcher {
    /// Record a pid observation; reports whether the pid changed.
    pub fn update_pid(&mut self, observed: Option<u32>) -> (r: bool)
        ensures
            r == (old(self).current_pid != observed),
            final(self).current_pid == observed,
            final(self).target_name == old(self).target_name,
            final(self).config == old(self).config,
            final(self).last_file_hash == old(self).last_file_hash,
    {
        let changed = match (self.current_pid, observed) {
            (None, None) => false,
            (Some(a), Some(b)) => a != b,
            _ => true,
        };
        self.current_pid = observed;
        changed
    }

    /// A watched critical-path target whose process has disappeared needs
    /// recovery.
    pub fn needs_recovery(&self, observed_pid: Option<u32>) -> (r: bool)
        ensures
            r == (self.config.pid_watch && observed_pid is None && self.config.critical_path
                == Some(true)),
    {
        let critical = match self.config.critical_path {
            Some(c) => c,
            None => false,
        };
        self.config.pid_watch && observed_pid.is_none() && critical
    }
}

/// The watch daemon: configuration, per-target watch state, and the cache
/// coordinator the watchers feed.
pub struct BustCallDaemon {
    pub config: BustcallConfig,
    pub watchers: Vec<RuntimeWatcher>,
    pub cache_manager: DimensionalCacheManager,
    pub daemon_running: bool,
}

impl BustCallDaemon {
    /// Build the daemon from a parsed configuration: every enabled target
    /// gets a watcher and is bound in the cache coordinator with a fresh
    /// Cold vector at score zero; disabled targets get neither watcher nor
    /// binding, so each watcher names some enabled target.
    pub fn from_config(config: BustcallConfig) -> (r: BustCallDaemon)
        ensures
            r.cache_manager.wf(),
            !r.daemon_running,
            forall|i: int|
                0 <= i < config.target@.len() && (#[trigger] config.target@[i]).1.enabled ==> {
                    &&& r.cache_manager.has_target(config.target@[i].0@)
                    &&& r.cache_manager.target_at(config.target@[i].0@).dimension.cache_state
                        == CacheState::Cold
                    &&& r.cache_manager.target_at(
                        config.target@[i].0@,
                    ).dimension.hot_path_score_milli == 0
                },
            forall|i: int|
                0 <= i < config.target@.len() && (#[trigger] config.target@[i]).1.enabled
                    ==> exists|w: int|
                    0 <= w < r.watchers@.len() && (#[trigger] r.watchers@[w]).target_name@
                        == config.target@[i].0@,
            forall|w: int|
                0 <= w < r.watchers@.len() ==> exists|i: int|
                    0 <= i < config.target@.len() && (#[trigger] config.target@[i]).1.enabled
                        && (#[trigger] r.watchers@[w]).target_name@ == config.target@[i].0@,
            forall|w: int|
                0 <= w < r.watchers@.len() ==> (#[trigger] r.watchers@[w]).current_pid is None
                    && r.watchers@[w].last_file_hash is None,
            r.cache_manager.rebuilds().len() == 0,
    {
        let mut cache_manager = DimensionalCacheManager::new();
        let mut watchers: Vec<RuntimeWatcher> = Vec::new();
        let mut i: usize = 0;
        while i < config.target.len()
            invariant
                cache_manager.wf(),
                i <= config.target@.len(),
                forall|j: int|
                    0 <= j < i && (#[trigger] config.target@[j]).1.enabled ==> {
                        &&& cache_manager.has_target(config.target@[j].0@)
                        &&& cache_manager.target_at(config.target@[j].0@).dimension.cache_state
                            == CacheState::Cold
                        &&& cache_manager.target_at(
                            config.target@[j].0@,
                        ).dimension.hot_path_score_milli == 0
                    },
                forall|j: int|
                    0 <= j < i && (#[trigger] config.target@[j]).1.enabled ==> exists|w: int|
                        0 <= w < watchers@.len() && (#[trigger] watchers@[w]).target_name@
                            == config.target@[j].0@,
                forall|w: int|
                    0 <= w < watchers@.len() ==> exists|j: int|
                        0 <= j < i && (#[trigger] config.target@[j]).1.enabled
                            && (#[trigger] watchers@[w]).target_name@ == config.target@[j].0@,
                forall|w: int|
                    0 <= w < watchers@.len() ==> (#[trigger] watchers@[w]).current_pid is None
                        && watchers@[w].last_file_hash is None,
                cache_manager.rebuilds().len() == 0,
            decreases config.target@.len() - i,
        {
            let enabled = config.target[i].1.enabled;
            if enabled {
                let name = config.target[i].0.clone();
                let target_config = config.target[i].1.clone();
                let binding = ModelBinding {
                    runtime: target_config.runtime.clone(),
                    pid: None,
                    path: target_config.path.clone(),
                    last_modified: 0,
                    cache_dependencies: Vec::new(),
                };
                let ghost before = cache_manager;
                cache_manager.bind_model(name.as_str(), binding);
                proof {
                    assert(cache_manager.has_target(name@));
                    assert forall|j: int|
                        0 <= j < i + 1 && (#[trigger] config.target@[j]).1.enabled implies {
                        &&& cache_manager.has_target(config.target@[j].0@)
                        &&& cache_manager.target_at(config.target@[j].0@).dimension.cache_state
                            == CacheState::Cold
                        &&& cache_manager.target_at(
                            config.target@[j].0@,
                        ).dimension.hot_path_score_milli == 0
                    } by {
                        if j < i {
                            if config.target@[j].0@ != name@ {
                                assert(before.has_target(config.target@[j].0@));
                                assert(cache_manager.target_at(config.target@[j].0@)
                                    == before.target_at(config.target@[j].0@));
                            }
                        }
                    }
                }
                let ghost watchers0 = watchers@;
                watchers.push(
                    RuntimeWatcher {
                        target_name: name,
                        config: target_config,
                        current_pid: None,
                        last_file_hash: None,
                    },
                );
                proof {
                    assert(watchers@.last().target_name@ == config.target@[i as int].0@);
                    assert forall|j: int|
                        0 <= j < i + 1 && (#[trigger] config.target@[j]).1.enabled implies exists|
                        w: int,
                    |
                        0 <= w < watchers@.len() && (#[trigger] watchers@[w]).target_name@
                            == config.target@[j].0@ by {
                        if j < i {
                            let w = choose|w: int|
                                0 <= w < watchers0.len() && (#[trigger] watchers0[w]).target_name@
                                    == config.target@[j].0@;
                            assert(watchers@[w].target_name@ == config.target@[j].0@);
                        } else {
                            assert(watchers@[watchers@.len() - 1].target_name@
                                == config.target@[j].0@);
                        }
                    }
                    assert forall|w: int| 0 <= w < watchers@.len() implies exists|j: int|
                        0 <= j < i + 1 && (#[trigger] config.target@[j]).1.enabled
                            && (#[trigger] watchers@[w]).target_name@ == config.target@[j].0@ by {
                        if w < watchers0.len() {
                            let j = choose|j: int|
                                0 <= j < i && (#[trigger] config.target@[j]).1.enabled
                                    && (#[trigger] watchers0[w]).target_name@
                                    == config.target@[j].0@;
                            assert(watchers@[w].target_name@ == config.target@[j].0@);
                        } else {
                            assert(watchers@[w].target_name@ == config.target@[i as int].0@);
                        }
                    }
                }
            } else {
                proof {
                    assert forall|w: int| 0 <= w < watchers@.len() implies exists|j: int|
                        0 <= j < i + 1 && (#[trigger] config.target@[j]).1.enabled
                            && (#[trigger] watchers@[w]).target_name@ == config.target@[j].0@ by {
                        let j = choose|j: int|
                            0 <= j < i && (#[trigger] config.target@[j]).1.enabled
                                && (#[trigger] watchers@[w]).target_name@ == config.target@[j].0@;
                        assert(0 <= j < i + 1);
                    }
                }
            }
            i += 1;
        }
        BustCallDaemon { config, watchers, cache_manager, daemon_running: false }
    }

    /// Mark the daemon running; the watch loops themselves run outside.
    pub fn start_daemon(&mut self)
        ensures
            final(self).daemon_running,
            final(self).config == old(self).config,
            final(self).watchers == old(self).watchers,
            final(self).cache_manager == old(self).cache_manager,
    {
        self.daemon_running = true;
    }

    /// Ask the daemon to stop: the loops observe the flag at their next
    /// suspension point.
    pub fn shutdown(&mut self)
        ensures
            !final(self).daemon_running,
            final(self).config == old(self).config,
            final(self).watchers == old(self).watchers,
            final(self).cache_manager == old(self).cache_manager,
    {
        self.daemon_running = false;
    }

    /// Recover a failed critical target by busting it at Critical severity,
    /// forcing a rebuild or restart.
    pub fn trigger_process_recovery(&mut self, target_name: &str)
        requires
            old(self).cache_manager.wf(),
        ensures
            final(self).cache_manager.wf(),
            final(self).config == old(self).config,
            final(self).watchers == old(self).watchers,
            old(self).cache_manager.has_target(target_name@) ==> {
                &&& final(self).cache_manager.target_at(target_name@).dimension.cache_state
                    == CacheState::Stale
                &&& final(self).cache_manager.rebuilds().len() == old(
                    self,
                ).cache_manager.rebuilds().len() + 1
                &&& final(self).cache_manager.rebuilds().last().score == 50
            },
            !old(self).cache_manager.has_target(target_name@) ==> final(self).cache_manager.rebuilds()
                == old(self).cache_manager.rebuilds(),
    {
        self.cache_manager.bust_cache(target_name, crate::severity::CacheBustSeverity::Critical);
    }
}

} // verus!
