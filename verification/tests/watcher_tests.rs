use bustcall::cache_types::CacheState;
use bustcall::daemon::{BustcallConfig, GlobalConfig, TargetConfig};
use bustcall::self_healing::{BustCallError, RecoveryProbe, SelfHealingArchitecture};
use bustcall::server_api::{default_bindings, select_binding, should_log_fault};
use bustcall::severity::SeverityLevel;
use bustcall::watcher::{BustCallDaemon, RuntimeWatcher};

fn target(path: &str, runtime: &str, enabled: bool, critical: bool) -> TargetConfig {
    TargetConfig {
        path: path.to_string(),
        runtime: runtime.to_string(),
        pid_watch: true,
        enabled,
        language_priority_milli: Some(800),
        dependency_impact_milli: Some(900),
        build_cost_milli: Some(700),
        critical_path: Some(critical),
    }
}

fn config() -> BustcallConfig {
    BustcallConfig {
        global: GlobalConfig {
            self_healing: true,
            supervisor_mode: true,
            default_max_retries: 3,
            daemon_interval_seconds: 5,
        },
        target: vec![
            ("node".to_string(), target("./node_modules", "node", true, true)),
            ("python".to_string(), target("./venv/lib", "python3", true, false)),
            ("gosilang".to_string(), target("./gosi/build", "gosi", false, true)),
        ],
    }
}

#[test]
fn from_config_binds_enabled_targets() {
    let daemon = BustCallDaemon::from_config(config());
    assert_eq!(daemon.cache_manager.vector_state("node"), Some(CacheState::Cold));
    assert_eq!(daemon.cache_manager.vector_state("python"), Some(CacheState::Cold));
    assert_eq!(daemon.cache_manager.vector_state("gosilang"), None);
    assert_eq!(daemon.watchers.len(), 2);
    assert!(!daemon.daemon_running);
}

#[test]
fn daemon_flags_toggle() {
    let mut daemon = BustCallDaemon::from_config(config());
    daemon.start_daemon();
    assert!(daemon.daemon_running);
    daemon.shutdown();
    assert!(!daemon.daemon_running);
}

#[test]
fn recovery_busts_critical() {
    let mut daemon = BustCallDaemon::from_config(config());
    daemon.trigger_process_recovery("node");
    assert_eq!(daemon.cache_manager.vector_state("node"), Some(CacheState::Stale));
    let rebuild = daemon.cache_manager.pop_rebuild().expect("critical rebuild");
    assert_eq!(rebuild.priority_score, 50);
}

#[test]
fn watcher_tracks_pid_changes() {
    let mut watcher = RuntimeWatcher {
        target_name: "node".to_string(),
        config: target("./node_modules", "node", true, true),
        current_pid: None,
        last_file_hash: None,
    };
    assert!(watcher.update_pid(Some(42)));
    assert!(!watcher.update_pid(Some(42)));
    assert!(watcher.update_pid(None));
    assert_eq!(watcher.current_pid, None);
}

#[test]
fn critical_watched_target_without_pid_needs_recovery() {
    let critical = RuntimeWatcher {
        target_name: "node".to_string(),
        config: target("./node_modules", "node", true, true),
        current_pid: None,
        last_file_hash: None,
    };
    assert!(critical.needs_recovery(None));
    assert!(!critical.needs_recovery(Some(7)));
    let casual = RuntimeWatcher {
        target_name: "python".to_string(),
        config: target("./venv/lib", "python3", true, false),
        current_pid: None,
        last_file_hash: None,
    };
    assert!(!casual.needs_recovery(None));
}

#[test]
fn binding_table_and_routing() {
    let bindings = default_bindings();
    assert_eq!(bindings.len(), 2);
    assert_eq!(bindings[0].binding, "pybustcall");
    assert_eq!(bindings[1].binding, "napi-bustcall");
    assert_eq!(select_binding(&None), "pybustcall");
    assert_eq!(select_binding(&Some("napi-bustcall".to_string())), "napi-bustcall");
    assert!(should_log_fault(6));
    assert!(!should_log_fault(7));
}

#[test]
fn recovery_history_is_trimmed_past_thousand() {
    let mut healing = SelfHealingArchitecture::new();
    let report = BustCallError {
        severity: SeverityLevel::Warning,
        message: "w".to_string(),
        component: "node".to_string(),
        recovery_action: None,
    };
    let probe = RecoveryProbe {
        refresh_ok: vec![true],
        health_ok: vec![true],
        rebuild_ok: true,
        rebuild_health_ok: true,
        restart_ok: true,
    };
    for _ in 0..1000 {
        healing.attempt_recovery(&report, &probe);
    }
    assert_eq!(healing.recovery_history.len(), 1000);
    healing.attempt_recovery(&report, &probe);
    assert_eq!(healing.recovery_history.len(), 901);
}
