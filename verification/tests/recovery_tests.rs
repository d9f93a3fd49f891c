use bustcall::cli::{extract_arg, format_uptime};
use bustcall::daemon::{
    Daemon, DaemonConfig, NotificationLevel, NotificationManager, ProcessFilter, ProcessInfo,
    check_daemon_running, matches_filter,
};
use bustcall::self_healing::{
    BustCallError, IsolationLevel, RecoveryProbe, RecoveryResult, RecoveryStrategy,
    SelfHealingArchitecture,
};
use bustcall::severity::{CacheBustSeverity, FaultLevel, SeverityLevel};
use bustcall::watcher::{ChangeKind, assess_file_change_severity};

fn error(severity: SeverityLevel, message: &str, component: &str) -> BustCallError {
    BustCallError {
        severity,
        message: message.to_string(),
        component: component.to_string(),
        recovery_action: None,
    }
}

fn probe(rebuild_ok: bool, rebuild_health_ok: bool) -> RecoveryProbe {
    RecoveryProbe {
        refresh_ok: vec![true],
        health_ok: vec![true],
        rebuild_ok,
        rebuild_health_ok,
        restart_ok: true,
    }
}

#[test]
fn test_notification_manager() {
    let manager = NotificationManager::new();
    let result = manager.send(NotificationLevel::Info, "Test message");
    assert!(result.is_ok());
}

#[test]
fn test_notification_system() {
    let notification_manager = NotificationManager::new();
    assert!(notification_manager.send(NotificationLevel::Info, "Test message").is_ok());
}

#[test]
fn test_daemon_creation() {
    let daemon = Daemon::new();
    assert!(daemon.is_ok());
}

#[test]
fn test_daemon_lifecycle() {
    let mut daemon = Daemon::new().expect("Failed to create daemon");
    assert!(daemon.start().is_ok());
    assert!(daemon.stop().is_ok());
}

#[test]
fn test_soft_recovery() {
    let mut healing = SelfHealingArchitecture::new();
    let report = error(SeverityLevel::Warning, "Test cache warning", "test_component");
    let result = healing.attempt_recovery(&report, &probe(true, true));
    assert!(matches!(result, RecoveryResult::Success { .. }));
}

#[test]
fn test_constitutional_compliance() {
    let healing = SelfHealingArchitecture::new();
    let report = error(SeverityLevel::Normal, "Normal operation", "test_component");
    let result = healing.validate_constitutional_compliance(&report);
    assert!(result.is_ok());
}

#[test]
fn danger_maps_to_hard_rebuild() {
    let healing = SelfHealingArchitecture::new();
    let report = error(SeverityLevel::Danger, "spawn failed", "c");
    let strategy = healing.determine_recovery_strategy(&report);
    assert_eq!(
        strategy,
        RecoveryStrategy::HardRecovery { force_rebuild: true, isolate_component: false }
    );
}

#[test]
fn failed_rebuild_escalates_to_emergency() {
    let mut healing = SelfHealingArchitecture::new();
    let report = error(SeverityLevel::Danger, "spawn failed", "c");
    let result = healing.attempt_recovery(&report, &probe(false, false));
    match result {
        RecoveryResult::PartialRecovery { next_strategy, .. } => assert_eq!(
            next_strategy,
            RecoveryStrategy::EmergencyRecovery {
                system_restart: true,
                escalate_to_supervisor: true
            }
        ),
        other => panic!("expected partial recovery, got {:?}", other),
    }
}

#[test]
fn severity_bands_pick_strategies() {
    let healing = SelfHealingArchitecture::new();
    let soft = healing.determine_recovery_strategy(&error(SeverityLevel::Normal, "m", "node"));
    assert_eq!(soft, RecoveryStrategy::SoftRecovery { retry_count: 3, backoff_ms: 1000 });
    let python = healing.determine_recovery_strategy(&error(SeverityLevel::Warning, "m", "python"));
    assert_eq!(python, RecoveryStrategy::SoftRecovery { retry_count: 3, backoff_ms: 1500 });
    let unknown = healing.determine_recovery_strategy(&error(SeverityLevel::Warning, "m", "zig"));
    assert_eq!(unknown, RecoveryStrategy::SoftRecovery { retry_count: 3, backoff_ms: 1000 });
    let critical = healing.determine_recovery_strategy(&error(SeverityLevel::Critical, "m", "node"));
    assert_eq!(
        critical,
        RecoveryStrategy::EmergencyRecovery { system_restart: false, escalate_to_supervisor: true }
    );
    let panic_level = healing.determine_recovery_strategy(&error(SeverityLevel::Panic, "m", "node"));
    assert_eq!(
        panic_level,
        RecoveryStrategy::ConstitutionalEmergency { trigger_lockdown: false, notify_board: true }
    );
    // A registered hard strategy never fires at low severity: selection
    // stays in the soft tier.
    let native = healing.determine_recovery_strategy(&error(SeverityLevel::Warning, "m", "c"));
    assert_eq!(native, RecoveryStrategy::SoftRecovery { retry_count: 3, backoff_ms: 1000 });
}

#[test]
fn compliance_tag_overrides_any_severity() {
    let healing = SelfHealingArchitecture::new();
    // A compliance-tagged message at the lowest severity still locks down.
    let tagged = error(SeverityLevel::Normal, "constitutional drift detected", "node");
    assert_eq!(
        healing.determine_recovery_strategy(&tagged),
        RecoveryStrategy::ConstitutionalEmergency { trigger_lockdown: true, notify_board: true }
    );
}

#[test]
fn compliance_violation_forces_manual_intervention() {
    let mut healing = SelfHealingArchitecture::new();
    let report = error(
        SeverityLevel::Warning,
        "AI_TRAINING_PROTECTION breached by pipeline",
        "cache",
    );
    let result = healing.attempt_recovery(&report, &probe(true, true));
    match &result {
        RecoveryResult::ManualIntervention { reason, emergency_contacts } => {
            // The reason names the violated rule and the contacts are set.
            assert!(reason.contains("AI_TRAINING_PROTECTION"));
            assert!(!emergency_contacts.is_empty());
        },
        other => panic!("expected manual intervention, got {:?}", other),
    }
    assert_eq!(healing.constitution_validator.violation_history.len(), 1);
    assert_eq!(
        healing.constitution_validator.violation_history[0].rule_id,
        "AI_TRAINING_PROTECTION"
    );
}

#[test]
fn constitutional_emergency_locks_down() {
    let mut healing = SelfHealingArchitecture::new();
    let tagged = error(SeverityLevel::Normal, "compliance hole", "node");
    let result = healing.attempt_recovery(&tagged, &probe(true, true));
    assert!(matches!(result, RecoveryResult::ManualIntervention { .. }));
    assert!(healing.emergency_protocols.lockdown_enabled);
    assert!(healing.emergency_protocols.board_notification_active);
    assert_eq!(
        healing.emergency_protocols.system_isolation_level,
        IsolationLevel::ConstitutionalEmergency
    );
}

#[test]
fn soft_retries_exhausted_hand_over_to_hard() {
    let mut healing = SelfHealingArchitecture::new();
    let report = error(SeverityLevel::Warning, "cache drift", "node");
    let failing = RecoveryProbe {
        refresh_ok: vec![false, false, false],
        health_ok: vec![false, false, false],
        rebuild_ok: false,
        rebuild_health_ok: false,
        restart_ok: false,
    };
    let result = healing.attempt_recovery(&report, &failing);
    match result {
        RecoveryResult::PartialRecovery { next_strategy, .. } => assert_eq!(
            next_strategy,
            RecoveryStrategy::HardRecovery { force_rebuild: true, isolate_component: false }
        ),
        other => panic!("expected partial recovery, got {:?}", other),
    }
}

#[test]
fn failed_emergency_restart_requires_escalation() {
    // The restart path runs when a caller re-invokes with the escalation
    // hint a partial hard recovery handed back.
    let mut healing = SelfHealingArchitecture::new();
    let report = error(SeverityLevel::Panic, "meltdown", "node");
    let failing = RecoveryProbe {
        refresh_ok: Vec::new(),
        health_ok: Vec::new(),
        rebuild_ok: false,
        rebuild_health_ok: false,
        restart_ok: false,
    };
    let result = healing.execute_emergency_recovery(&report, true, true, &failing);
    match result {
        RecoveryResult::Failed { escalation_required, .. } => assert!(escalation_required),
        other => panic!("expected a failure, got {:?}", other),
    }
    assert_eq!(healing.emergency_protocols.system_isolation_level, IsolationLevel::SystemLevel);
}

#[test]
fn panic_severity_demands_manual_intervention() {
    let mut healing = SelfHealingArchitecture::new();
    let report = error(SeverityLevel::Panic, "meltdown", "node");
    let idle = RecoveryProbe {
        refresh_ok: Vec::new(),
        health_ok: Vec::new(),
        rebuild_ok: false,
        rebuild_health_ok: false,
        restart_ok: false,
    };
    let result = healing.attempt_recovery(&report, &idle);
    assert!(matches!(result, RecoveryResult::ManualIntervention { .. }));
    // Severity alone notifies the board but does not lock the system down.
    assert!(healing.emergency_protocols.board_notification_active);
    assert!(!healing.emergency_protocols.lockdown_enabled);
}

#[test]
fn every_attempt_is_recorded() {
    let mut healing = SelfHealingArchitecture::new();
    let report = error(SeverityLevel::Warning, "w", "node");
    let first = healing.attempt_recovery(&report, &probe(true, true));
    healing.attempt_recovery(&report, &probe(true, true));
    assert_eq!(healing.recovery_history.len(), 2);
    assert_eq!(healing.recovery_history[1].component, "node");
    assert!(!healing.recovery_history[1].constitutional_impact);
    // The log records the same outcome the caller was handed.
    assert!(matches!(first, RecoveryResult::Success { .. }));
    assert!(matches!(healing.recovery_history[0].result, RecoveryResult::Success { .. }));
}

#[test]
fn fault_levels_classify_bands() {
    assert_eq!(FaultLevel::from_score(0), FaultLevel::Warning);
    assert_eq!(FaultLevel::from_score(2), FaultLevel::Warning);
    assert_eq!(FaultLevel::from_score(3), FaultLevel::Critical);
    assert_eq!(FaultLevel::from_score(5), FaultLevel::Critical);
    assert_eq!(FaultLevel::from_score(6), FaultLevel::Danger);
    assert_eq!(FaultLevel::from_score(8), FaultLevel::Danger);
    assert_eq!(FaultLevel::from_score(9), FaultLevel::Panic);
    assert_eq!(FaultLevel::from_score(12), FaultLevel::Panic);
}

#[test]
fn daemon_rejects_double_start() {
    let mut daemon = Daemon::with_config(DaemonConfig::load_default()).unwrap();
    assert!(!check_daemon_running(&daemon));
    assert!(daemon.start().is_ok());
    assert!(check_daemon_running(&daemon));
    assert!(daemon.start().is_err());
    assert!(daemon.stop().is_ok());
    assert!(!check_daemon_running(&daemon));
}

#[test]
fn change_severity_honors_extension_table() {
    assert_eq!(assess_file_change_severity("rs", ChangeKind::Modify), CacheBustSeverity::Medium);
    assert_eq!(assess_file_change_severity("rs", ChangeKind::Remove), CacheBustSeverity::High);
    assert_eq!(assess_file_change_severity("py", ChangeKind::Create), CacheBustSeverity::Medium);
    assert_eq!(assess_file_change_severity("lock", ChangeKind::Modify), CacheBustSeverity::Critical);
    assert_eq!(assess_file_change_severity("sum", ChangeKind::Remove), CacheBustSeverity::Critical);
    assert_eq!(assess_file_change_severity("md", ChangeKind::Modify), CacheBustSeverity::Low);
    assert_eq!(assess_file_change_severity("svg", ChangeKind::Remove), CacheBustSeverity::Low);
    assert_eq!(assess_file_change_severity("xyz", ChangeKind::Modify), CacheBustSeverity::Medium);
}

#[test]
fn uptime_formats_hours_minutes_seconds() {
    assert_eq!(format_uptime(59), "59s");
    assert_eq!(format_uptime(60), "1m 0s");
    assert_eq!(format_uptime(125), "2m 5s");
    assert_eq!(format_uptime(3661), "1h 1m 1s");
    assert_eq!(format_uptime(0), "0s");
}

#[test]
fn extract_arg_finds_flag_values() {
    let args: Vec<String> = vec![
        "bustcall".to_string(),
        "--node-id".to_string(),
        "7".to_string(),
        "--parent-lpid".to_string(),
    ];
    assert_eq!(extract_arg(&args, "--node-id"), Some("7".to_string()));
    assert_eq!(extract_arg(&args, "--parent-lpid"), None);
    assert_eq!(extract_arg(&args, "--missing"), None);
}

#[test]
fn process_filter_matches_by_name_and_floors() {
    let process = ProcessInfo {
        pid: 10,
        name: "python3-daemon".to_string(),
        cpu_usage_milli: 2500,
        memory_usage: 4096,
        status: "running".to_string(),
    };
    let yes = ProcessFilter {
        name_pattern: Some("python3".to_string()),
        min_cpu_usage_milli: Some(2000),
        min_memory_usage: Some(1024),
    };
    assert!(matches_filter(&process, &yes));
    let wrong_name = ProcessFilter {
        name_pattern: Some("node".to_string()),
        min_cpu_usage_milli: None,
        min_memory_usage: None,
    };
    assert!(!matches_filter(&process, &wrong_name));
    let cpu_floor = ProcessFilter {
        name_pattern: None,
        min_cpu_usage_milli: Some(9000),
        min_memory_usage: None,
    };
    assert!(!matches_filter(&process, &cpu_floor));
}
