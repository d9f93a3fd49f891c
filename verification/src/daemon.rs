//! Daemon lifecycle, notifications, configuration shapes and process
//! filtering: the plain state around the cache and delegation engines.

use vstd::prelude::*;
use vstd::string::StringExecFns;
use vstd::utf8::encode_utf8;
use crate::self_healing::{contains_sub, spec_contains_sub};

verus! {

/// Library-wide error taxonomy.
#[derive(Debug, Clone)]
pub enum BustcallError {
    DaemonError(String),
    ConfigError(String),
    ProcessError(String),
    NotificationError(String),
    Io(String),
    Serialization(String),
}

/// Daemon tuning.
#[derive(Debug, Clone)]
pub struct DaemonConfig {
    pub interval_seconds: u64,
    pub max_retries: u32,
    pub supervisor_mode: bool,
    pub self_healing: bool,
}

impl Default for DaemonConfig {
    /// Five-second interval, three retries, supervision and self-healing on.
    fn default() -> (r: DaemonConfig)
        ensures
            r.interval_seconds == 5,
            r.max_retries == 3,
            r.supervisor_mode,
            r.self_healing,
    {
        DaemonConfig { interval_seconds: 5, max_retries: 3, supervisor_mode: true, self_healing: true }
    }
}

impl DaemonConfig {
    /// The stock configuration.
    pub fn load_default() -> (r: DaemonConfig)
        ensures
            r.interval_seconds == 5,
            r.max_retries == 3,
            r.supervisor_mode,
            r.self_healing,
    {
        DaemonConfig {
            interval_seconds: 5,
            max_retries: 3,
            supervisor_mode: true,
            self_healing: true,
        }
    }
}

/// Lifecycle state of the daemon.
#[derive(Debug, Clone)]
pub enum DaemonStatus {
    Stopped,
    Starting,
    Running,
    Stopping,
    Error(String),
}

/// The daemon's lifecycle state machine: explicit start and stop, no
/// process-wide statics. The periodic work itself runs outside.
#[derive(Debug)]
pub struct Daemon {
    pub config: DaemonConfig,
    pub status: DaemonStatus,
}

impl Daemon {
    /// A stopped daemon under the default configuration.
    pub fn new() -> (r: Result<Daemon, BustcallError>)
        ensures
            r is Ok,
            r->Ok_0.status is Stopped,
    {
        Ok(Daemon { config: DaemonConfig::load_default(), status: DaemonStatus::Stopped })
    }

    /// A stopped daemon under the given configuration.
    pub fn with_config(config: DaemonConfig) -> (r: Result<Daemon, BustcallError>)
        ensures
            r is Ok,
            r->Ok_0.status is Stopped,
            r->Ok_0.config == config,
    {
        Ok(Daemon { config, status: DaemonStatus::Stopped })
    }

    /// Handle to the current daemon state.
    pub fn connect() -> (r: Result<Daemon, BustcallError>)
        ensures
            r is Ok,
            r->Ok_0.status is Stopped,
    {
        Self::new()
    }

    /// Start the daemon: only a stopped daemon may start, and it is Running
    /// afterwards; starting twice is an error and changes nothing.
    pub fn start(&mut self) -> (r: Result<(), BustcallError>)
        ensures
            old(self).status is Stopped ==> r is Ok && final(self).status is Running && final(self).config == old(self).config,
            !(old(self).status is Stopped) ==> r is Err && *final(self) == *old(self),
    {
        match &self.status {
            DaemonStatus::Stopped => {
                self.status = DaemonStatus::Running;
                Ok(())
            },
            _ => Err(BustcallError::DaemonError(String::from_str("daemon already running"))),
        }
    }

    /// Stop the daemon: it is Stopped afterwards, whatever state it was in.
    pub fn stop(&mut self) -> (r: Result<(), BustcallError>)
        ensures
            r is Ok,
            final(self).status is Stopped,
            final(self).config == old(self).config,
    {
        self.status = DaemonStatus::Stopped;
        Ok(())
    }

    /// The current lifecycle state.
    pub fn status(&self) -> (r: DaemonStatus)
        ensures
            r is Stopped <==> self.status is Stopped,
            r is Starting <==> self.status is Starting,
            r is Running <==> self.status is Running,
            r is Stopping <==> self.status is Stopping,
            r is Error <==> self.status is Error,
    {
        match &self.status {
            DaemonStatus::Stopped => DaemonStatus::Stopped,
            DaemonStatus::Starting => DaemonStatus::Starting,
            DaemonStatus::Running => DaemonStatus::Running,
            DaemonStatus::Stopping => DaemonStatus::Stopping,
            DaemonStatus::Error(m) => DaemonStatus::Error(m.clone()),
        }
    }
}

/// Whether the daemon handle reports a running daemon.
pub fn check_daemon_running(daemon: &Daemon) -> (r: bool)
    ensures
        r == daemon.status is Running,
{
    match &daemon.status {
        DaemonStatus::Running => true,
        _ => false,
    }
}

/// Urgency of a notification.
#[derive(Debug, Clone, Copy, PartialEq, Eq, Structural)]
pub enum NotificationLevel {
    Info,
    Warning,
    Error,
    Critical,
}

/// A dispatched notification: what was said, how urgently, and when.
#[derive(Debug, Clone)]
pub struct NotifyResult {
    pub level: NotificationLevel,
    pub message: String,
    pub timestamp: u64,
}

/// Builds notifications for the outside channels to carry. The clock is a
/// caller-advanced tick the records are stamped with.
#[derive(Debug)]
pub struct NotificationManager {
    pub clock: u64,
}

impl NotificationManager {
    /// A fresh manager.
    pub fn new() -> (r: NotificationManager) {
        NotificationManager { clock: 0 }
    }

    /// Build the notification record for a message at a level. Delivery is
    /// best-effort and happens outside; building the record never fails.
    pub fn send(&self, level: NotificationLevel, message: &str) -> (r: Result<
        NotifyResult,
        BustcallError,
    >)
        ensures
            r is Ok,
            r->Ok_0.level == level,
            r->Ok_0.message@ == message@,
            r->Ok_0.timestamp == self.clock,
    {
        Ok(
            NotifyResult {
                level,
                message: String::from_str(message),
                timestamp: self.clock,
            },
        )
    }
}

/// A snapshot of one observed process. CPU use is in thousandths of a
/// percent point.
#[derive(Debug, Clone)]
pub struct ProcessInfo {
    pub pid: u32,
    pub name: String,
    pub cpu_usage_milli: u32,
    pub memory_usage: u64,
    pub status: String,
}

/// Criteria for selecting observed processes.
#[derive(Debug, Clone)]
pub struct ProcessFilter {
    pub name_pattern: Option<String>,
    pub min_cpu_usage_milli: Option<u32>,
    pub min_memory_usage: Option<u64>,
}

/// The process satisfies every given criterion: its name contains the
/// pattern, and its CPU and memory use reach the floors.
pub open spec fn spec_matches_filter(process: &ProcessInfo, filter: &ProcessFilter) -> bool {
    &&& match filter.name_pattern {
        Some(p) => spec_contains_sub(encode_utf8(process.name@), encode_utf8(p@)),
        None => true,
    }
    &&& match filter.min_cpu_usage_milli {
        Some(m) => process.cpu_usage_milli >= m,
        None => true,
    }
    &&& match filter.min_memory_usage {
        Some(m) => process.memory_usage >= m,
        None => true,
    }
}

/// Check a process snapshot against a filter.
pub fn matches_filter(process: &ProcessInfo, filter: &ProcessFilter) -> (r: bool)
    ensures
        r == spec_matches_filter(process, filter),
{
    let name_ok = match &filter.name_pattern {
        Some(pattern) => contains_sub(process.name.as_str().as_bytes(), pattern.as_str().as_bytes()),
        None => true,
    };
    let cpu_ok = match filter.min_cpu_usage_milli {
        Some(m) => process.cpu_usage_milli >= m,
        None => true,
    };
    let memory_ok = match filter.min_memory_usage {
        Some(m) => process.memory_usage >= m,
        None => true,
    };
    name_ok && cpu_ok && memory_ok
}

/// Global daemon settings of the configuration file.
#[derive(Debug, Clone)]
pub struct GlobalConfig {
    pub self_healing: bool,
    pub supervisor_mode: bool,
    pub default_max_retries: u32,
    pub daemon_interval_seconds: u64,
}

/// Per-target settings of the configuration file. The weights are in
/// thousandths.
#[derive(Debug, Clone)]
pub struct TargetConfig {
    pub path: String,
    pub runtime: String,
    pub pid_watch: bool,
    pub enabled: bool,
    pub language_priority_milli: Option<u32>,
    pub dependency_impact_milli: Option<u32>,
    pub build_cost_milli: Option<u32>,
    pub critical_path: Option<bool>,
}

/// The whole configuration: global settings plus a target table.
#[derive(Debug, Clone)]
pub struct BustcallConfig {
    pub global: GlobalConfig,
    pub target: Vec<(String, TargetConfig)>,
}

/// What went wrong while obtaining a configuration.
#[derive(Debug, Clone)]
pub enum ConfigError {
    NotFound(String),
    ParseError(String),
}

/// Which notification channels are active.
#[derive(Debug, Clone)]
pub struct NotificationConfig {
    pub enabled: bool,
    pub channels: Vec<String>,
}

/// What the process monitor looks at, and how often.
#[derive(Debug, Clone)]
pub struct MonitoringConfig {
    pub interval_seconds: u64,
    pub processes: Vec<String>,
}

/// Logging verbosity tiers.
#[derive(Debug, Clone, Copy, PartialEq, Eq, Structural)]
pub enum LogLevel {
    Trace,
    Debug,
    Info,
    Warn,
    Error,
}

} // verus!
