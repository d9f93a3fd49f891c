//! The recovery escalator: chooses an escalating remediation strategy from
//! failure severity, runs it against observed probe outcomes, and keeps a
//! bounded append-only log of every attempt. Compliance-tagged errors bypass
//! severity mapping and always force manual intervention.

use vstd::prelude::*;
use vstd::string::StringExecFns;
use vstd::utf8::encode_utf8;
use crate::severity::SeverityLevel;

verus! {

/// An error report routed to the escalator.
#[derive(Debug, Clone)]
pub struct BustCallError {
    pub severity: SeverityLevel,
    pub message: String,
    pub component: String,
    pub recovery_action: Option<String>,
}

/// Escalating remediation tier.
#[derive(Debug, Clone, Copy, PartialEq, Eq, Structural)]
pub enum RecoveryStrategy {
    SoftRecovery { retry_count: u8, backoff_ms: u64 },
    HardRecovery { force_rebuild: bool, isolate_component: bool },
    EmergencyRecovery { system_restart: bool, escalate_to_supervisor: bool },
    ConstitutionalEmergency { trigger_lockdown: bool, notify_board: bool },
}

/// Outcome of one recovery attempt.
#[derive(Debug, Clone)]
pub enum RecoveryResult {
    Success { strategy_used: RecoveryStrategy, recovery_time_ms: u64, health_restored: bool },
    PartialRecovery { remaining_issues: Vec<String>, next_strategy: RecoveryStrategy },
    Failed { error: String, escalation_required: bool },
    ManualIntervention { reason: String, emergency_contacts: Vec<String> },
}

/// Observed outcomes of the remediation steps a strategy runs: the caller
/// performs the refreshes, rebuilds and restarts and reports what happened.
#[derive(Debug, Clone)]
pub struct RecoveryProbe {
    /// Per soft retry: whether the component cache refresh succeeded.
    pub refresh_ok: Vec<bool>,
    /// Per soft retry: whether the health check after the refresh passed.
    pub health_ok: Vec<bool>,
    /// Hard recovery: whether the forced rebuild succeeded.
    pub rebuild_ok: bool,
    /// Hard recovery: whether the health check after the rebuild passed.
    pub rebuild_health_ok: bool,
    /// Emergency recovery: whether the controlled restart succeeded.
    pub restart_ok: bool,
}

/// Health monitor registration for one component.
#[derive(Debug, Clone)]
pub struct HealthMonitor {
    pub component_name: String,
    pub monitor_interval_ms: u64,
    pub health_threshold: u8,
    pub last_check: u64,
    pub consecutive_failures: u8,
}

/// A compliance rule that error reports are checked against.
#[derive(Debug, Clone)]
pub struct ComplianceRule {
    pub rule_id: String,
    pub description: String,
    pub violation_severity: SeverityLevel,
    pub auto_remediation: bool,
}

/// Where remediation of a recorded violation stands.
#[derive(Debug, Clone, Copy, PartialEq, Eq, Structural)]
pub enum RemediationStatus {
    Pending,
    InProgress,
    Resolved,
    Failed,
    EscalatedToBoard,
}

/// A recorded compliance violation.
#[derive(Debug, Clone)]
pub struct ComplianceViolation {
    pub rule_id: String,
    pub timestamp: u64,
    pub component: String,
    pub details: String,
    pub remediation_status: RemediationStatus,
}

/// The compliance rule set and the violations seen so far.
#[derive(Debug)]
pub struct ConstitutionValidator {
    pub compliance_rules: Vec<ComplianceRule>,
    pub violation_history: Vec<ComplianceViolation>,
    pub emergency_threshold: u8,
}

/// One entry of the append-only recovery log.
#[derive(Debug)]
pub struct RecoveryAttempt {
    pub timestamp: u64,
    pub component: String,
    pub strategy: RecoveryStrategy,
    pub result: RecoveryResult,
    pub constitutional_impact: bool,
}

/// Aggregated system health snapshot.
#[derive(Debug)]
pub struct SystemHealth {
    pub overall_score: u8,
    pub component_health: Vec<(String, u8)>,
    pub critical_alerts: Vec<String>,
    pub performance_degradation: bool,
}

/// How far the system is isolated.
#[derive(Debug, Clone, Copy, PartialEq, Eq, Structural)]
pub enum IsolationLevel {
    NoIsolation,
    ComponentLevel,
    SystemLevel,
    NetworkLevel,
    ConstitutionalEmergency,
}

/// Emergency handling state: lockdown, board notification, isolation.
#[derive(Debug)]
pub struct EmergencyProtocols {
    pub lockdown_enabled: bool,
    pub board_notification_active: bool,
    pub system_isolation_level: IsolationLevel,
    pub recovery_escalation_chain: Vec<String>,
}

/// `n` occurs as a contiguous subsequence of `h`.
pub open spec fn spec_contains_sub(h: Seq<u8>, n: Seq<u8>) -> bool {
    exists|i: int| 0 <= i <= h.len() - n.len() && #[trigger] h.subrange(i, i + n.len()) == n
}

/// Substring search over bytes.
pub fn contains_sub(h: &[u8], n: &[u8]) -> (r: bool)
    ensures
        r == spec_contains_sub(h@, n@),
{
    if n.len() > h.len() {
        return false;
    }
    if n.len() == 0 {
        proof {
            assert(h@.subrange(0, 0 + n@.len() as int) =~= n@);
        }
        return true;
    }
    let mut i: usize = 0;
    while i <= h.len() - n.len()
        invariant
            n@.len() <= h@.len(),
            i <= h@.len() - n@.len() + 1,
            1 <= n@.len(),
            forall|p: int| 0 <= p < i ==> #[trigger] h@.subrange(p, p + n@.len()) != n@,
        decreases h@.len() - n@.len() - i + 1,
    {
        let mut j: usize = 0;
        let mut matched = true;
        while j < n.len()
            invariant
                h@.len() <= usize::MAX,
                n@.len() <= h@.len(),
                1 <= n@.len(),
                i <= h@.len() - n@.len(),
                j <= n@.len(),
                matched ==> forall|q: int| 0 <= q < j ==> h@[i + q] == n@[q],
                !matched ==> h@.subrange(i as int, i + n@.len()) != n@,
            decreases n@.len() - j,
        {
            proof {
                assert(i + j < h@.len());
            }
            if h[i + j] != n[j] {
                proof {
                    assert(h@.subrange(i as int, i + n@.len())[j as int] != n@[j as int]);
                }
                matched = false;
                j = n.len();
            } else {
                j += 1;
            }
        }
        if matched {
            proof {
                assert(h@.subrange(i as int, i + n@.len()) =~= n@);
            }
            return true;
        }
        i += 1;
    }
    proof {
        assert forall|p: int| 0 <= p <= h@.len() - n@.len() implies #[trigger] h@.subrange(
            p,
            p + n@.len(),
        ) != n@ by {
            assert(p < i);
        }
    }
    false
}

/// The error text carries a compliance tag: the message names compliance or
/// constitutional matter, or the component is the constitution machinery.
pub open spec fn spec_is_constitutional_violation(e: &BustCallError) -> bool {
    ||| spec_contains_sub(encode_utf8(e.message@), encode_utf8("constitutional"@))
    ||| spec_contains_sub(encode_utf8(e.message@), encode_utf8("compliance"@))
    ||| spec_contains_sub(encode_utf8(e.component@), encode_utf8("constitution"@))
}

/// The error text names this rule, in its message or its component.
pub open spec fn spec_rule_violated(rule: &ComplianceRule, e: &BustCallError) -> bool {
    ||| spec_contains_sub(encode_utf8(e.message@), encode_utf8(rule.rule_id@))
    ||| spec_contains_sub(encode_utf8(e.component@), encode_utf8(rule.rule_id@))
}

/// Compliance-violation detection always overrides severity-based
/// selection: a compliance-tagged error maps to constitutional emergency
/// and manual lockdown, whatever its severity value.
pub proof fn lemma_compliance_overrides_severity(s: SelfHealingArchitecture, e: &BustCallError)
    requires
        spec_is_constitutional_violation(e),
    ensures
        s.spec_determine_strategy(e) == (RecoveryStrategy::ConstitutionalEmergency {
            trigger_lockdown: true,
            notify_board: true,
        }),
{
}

/// Some soft retry both refreshed the cache and passed the health check.
pub open spec fn spec_soft_succeeds(probe: &RecoveryProbe, retries: u8) -> bool {
    exists|a: int|
        {
            &&& 0 <= a < retries
            &&& a < probe.refresh_ok@.len() && #[trigger] probe.refresh_ok@[a]
            &&& a < probe.health_ok@.len() && probe.health_ok@[a]
        }
}

/// What result a strategy run against these probe outcomes must produce.
pub open spec fn spec_strategy_result_matches(
    s: RecoveryStrategy,
    probe: &RecoveryProbe,
    r: RecoveryResult,
) -> bool {
    match s {
        RecoveryStrategy::SoftRecovery { retry_count, .. } => {
            if spec_soft_succeeds(probe, retry_count) {
                r is Success
            } else {
                match r {
                    RecoveryResult::PartialRecovery { next_strategy, .. } => next_strategy
                        == (RecoveryStrategy::HardRecovery {
                        force_rebuild: true,
                        isolate_component: false,
                    }),
                    _ => false,
                }
            }
        },
        RecoveryStrategy::HardRecovery { force_rebuild, .. } => {
            if force_rebuild && probe.rebuild_ok && probe.rebuild_health_ok {
                r is Success
            } else {
                match r {
                    RecoveryResult::PartialRecovery { next_strategy, .. } => next_strategy
                        == (RecoveryStrategy::EmergencyRecovery {
                        system_restart: true,
                        escalate_to_supervisor: true,
                    }),
                    _ => false,
                }
            }
        },
        RecoveryStrategy::EmergencyRecovery { system_restart, .. } => {
            if system_restart {
                if probe.restart_ok {
                    r is Success
                } else {
                    match r {
                        RecoveryResult::Failed { escalation_required, .. } => escalation_required,
                        _ => false,
                    }
                }
            } else {
                r is ManualIntervention
            }
        },
        RecoveryStrategy::ConstitutionalEmergency { .. } => r is ManualIntervention,
    }
}

/// The two string lists agree element by element.
pub open spec fn spec_same_strings(a: Seq<String>, b: Seq<String>) -> bool {
    a.len() == b.len() && forall|i: int| 0 <= i < a.len() ==> a[i]@ == b[i]@
}

/// The two results are the same outcome: the same variant with the same
/// payload, strings compared by contents.
pub open spec fn spec_same_result(a: &RecoveryResult, b: &RecoveryResult) -> bool {
    match (a, b) {
        (
            RecoveryResult::Success { strategy_used: s1, recovery_time_ms: t1, health_restored: h1 },
            RecoveryResult::Success { strategy_used: s2, recovery_time_ms: t2, health_restored: h2 },
        ) => s1 == s2 && t1 == t2 && h1 == h2,
        (
            RecoveryResult::PartialRecovery { remaining_issues: i1, next_strategy: n1 },
            RecoveryResult::PartialRecovery { remaining_issues: i2, next_strategy: n2 },
        ) => n1 == n2 && spec_same_strings(i1@, i2@),
        (
            RecoveryResult::Failed { error: e1, escalation_required: x1 },
            RecoveryResult::Failed { error: e2, escalation_required: x2 },
        ) => e1@ == e2@ && x1 == x2,
        (
            RecoveryResult::ManualIntervention { reason: r1, emergency_contacts: c1 },
            RecoveryResult::ManualIntervention { reason: r2, emergency_contacts: c2 },
        ) => r1@ == r2@ && spec_same_strings(c1@, c2@),
        _ => false,
    }
}

/// Copy a string list, contents preserved.
fn copy_strings(source: &Vec<String>) -> (r: Vec<String>)
    ensures
        spec_same_strings(r@, source@),
{
    let mut out: Vec<String> = Vec::new();
    let mut i: usize = 0;
    while i < source.len()
        invariant
            i <= source@.len(),
            out@.len() == i,
            forall|j: int| 0 <= j < i ==> (#[trigger] out@[j])@ == source@[j]@,
        decreases source@.len() - i,
    {
        out.push(source[i].clone());
        i += 1;
    }
    out
}

/// Copy a recovery result, outcome preserved.
fn copy_result(source: &RecoveryResult) -> (r: RecoveryResult)
    ensures
        spec_same_result(source, &r),
        spec_same_result(&r, source),
{
    match source {
        RecoveryResult::Success { strategy_used, recovery_time_ms, health_restored } => {
            RecoveryResult::Success {
                strategy_used: *strategy_used,
                recovery_time_ms: *recovery_time_ms,
                health_restored: *health_restored,
            }
        },
        RecoveryResult::PartialRecovery { remaining_issues, next_strategy } => {
            RecoveryResult::PartialRecovery {
                remaining_issues: copy_strings(remaining_issues),
                next_strategy: *next_strategy,
            }
        },
        RecoveryResult::Failed { error, escalation_required } => {
            RecoveryResult::Failed {
                error: error.clone(),
                escalation_required: *escalation_required,
            }
        },
        RecoveryResult::ManualIntervention { reason, emergency_contacts } => {
            RecoveryResult::ManualIntervention {
                reason: reason.clone(),
                emergency_contacts: copy_strings(emergency_contacts),
            }
        },
    }
}

/// Autonomous recovery system: strategy table, compliance validator,
/// bounded attempt log and emergency state.
pub struct SelfHealingArchitecture {
    pub recovery_strategies: Vec<(String, RecoveryStrategy)>,
    pub health_monitors: Vec<HealthMonitor>,
    pub constitution_validator: ConstitutionValidator,
    pub recovery_history: Vec<RecoveryAttempt>,
    pub system_health: SystemHealth,
    pub emergency_protocols: EmergencyProtocols,
    pub clock: u64,
}

impl SelfHealingArchitecture {
    /// The per-runtime strategy table.
    pub open spec fn strategies(self) -> Seq<(String, RecoveryStrategy)> {
        self.recovery_strategies@
    }

    /// Strategy table keys are unique.
    pub open spec fn wf(self) -> bool {
        forall|i: int, j: int|
            0 <= i < j < self.strategies().len() ==> self.strategies()[i].0@
                != self.strategies()[j].0@
    }

    /// A strategy is registered for this component.
    pub open spec fn has_strategy(self, component: Seq<char>) -> bool {
        exists|i: int| 0 <= i < self.strategies().len() && self.strategies()[i].0@ == component
    }

    /// Index of the component's strategy table row.
    pub open spec fn strategy_index(self, component: Seq<char>) -> int {
        choose|i: int| 0 <= i < self.strategies().len() && self.strategies()[i].0@ == component
    }

    /// The component's registered strategy; three soft retries with a one
    /// second backoff when none is registered.
    pub open spec fn spec_strategy_for(self, component: Seq<char>) -> RecoveryStrategy {
        if self.has_strategy(component) {
            self.strategies()[self.strategy_index(component)].1
        } else {
            RecoveryStrategy::SoftRecovery { retry_count: 3, backoff_ms: 1000 }
        }
    }

    /// The soft strategy used for a low-severity error of this component:
    /// its registered retry tuning when that is a soft tier, else the
    /// default soft retries. Low severity never escalates past Soft.
    pub open spec fn spec_soft_strategy_for(self, component: Seq<char>) -> RecoveryStrategy {
        match self.spec_strategy_for(component) {
            RecoveryStrategy::SoftRecovery { retry_count, backoff_ms } => {
                RecoveryStrategy::SoftRecovery { retry_count, backoff_ms }
            },
            _ => RecoveryStrategy::SoftRecovery { retry_count: 3, backoff_ms: 1000 },
        }
    }

    /// Strategy selection is a pure function of severity and compliance
    /// flag: a compliance-tagged error always maps to constitutional
    /// emergency and lockdown, whatever its severity; Normal and Warning
    /// map to the component's soft retries; Danger to a hard rebuild;
    /// Critical to supervised emergency recovery; Panic to manual
    /// intervention with the board notified.
    pub open spec fn spec_determine_strategy(self, error: &BustCallError) -> RecoveryStrategy {
        if spec_is_constitutional_violation(error) {
            RecoveryStrategy::ConstitutionalEmergency { trigger_lockdown: true, notify_board: true }
        } else {
            match error.severity {
                SeverityLevel::Normal => self.spec_soft_strategy_for(error.component@),
                SeverityLevel::Warning => self.spec_soft_strategy_for(error.component@),
                SeverityLevel::Danger => RecoveryStrategy::HardRecovery {
                    force_rebuild: true,
                    isolate_component: false,
                },
                SeverityLevel::Critical => RecoveryStrategy::EmergencyRecovery {
                    system_restart: false,
                    escalate_to_supervisor: true,
                },
                SeverityLevel::Panic => RecoveryStrategy::ConstitutionalEmergency {
                    trigger_lockdown: false,
                    notify_board: true,
                },
            }
        }
    }

    /// Under unique keys, any row holding the component is the lookup row.
    pub proof fn lemma_strategy_index_unique(self, j: int, component: Seq<char>)
        requires
            self.wf(),
            0 <= j < self.strategies().len(),
            self.strategies()[j].0@ == component,
        ensures
            self.has_strategy(component),
            self.strategy_index(component) == j,
    {
        assert(self.has_strategy(component));
        let i = self.strategy_index(component);
        if i < j {
            assert(self.strategies()[i].0@ != self.strategies()[j].0@);
        }
        if j < i {
            assert(self.strategies()[j].0@ != self.strategies()[i].0@);
        }
    }

    /// Default per-runtime strategies: soft retries for the interpreted
    /// runtimes, a forced rebuild for native code, isolation for gosilang.
    pub fn new() -> (r: SelfHealingArchitecture)
        ensures
            r.wf(),
            r.spec_strategy_for("node"@) == (RecoveryStrategy::SoftRecovery {
                retry_count: 3,
                backoff_ms: 1000,
            }),
            r.spec_strategy_for("python"@) == (RecoveryStrategy::SoftRecovery {
                retry_count: 3,
                backoff_ms: 1500,
            }),
            r.spec_strategy_for("c"@) == (RecoveryStrategy::HardRecovery {
                force_rebuild: true,
                isolate_component: false,
            }),
            r.spec_strategy_for("gosilang"@) == (RecoveryStrategy::HardRecovery {
                force_rebuild: false,
                isolate_component: true,
            }),
            r.strategies().len() == 4,
            r.strategies()[0].0@ == "node"@,
            r.strategies()[1].0@ == "python"@,
            r.strategies()[2].0@ == "c"@,
            r.strategies()[3].0@ == "gosilang"@,
            r.recovery_history@.len() == 0,
            r.emergency_protocols.lockdown_enabled == false,
            r.emergency_protocols.board_notification_active == false,
            r.emergency_protocols.system_isolation_level == IsolationLevel::NoIsolation,
            r.constitution_validator.compliance_rules@.len() == 2,
            r.constitution_validator.compliance_rules@[0].rule_id@ == "AI_TRAINING_PROTECTION"@,
            r.constitution_validator.compliance_rules@[1].rule_id@ == "POLYCORE_V2_CERTIFICATION"@,
            r.constitution_validator.emergency_threshold == 3,
            r.constitution_validator.violation_history@.len() == 0,
            r.health_monitors@.len() == 3,
            r.system_health.overall_score == 10,
    {
        let mut recovery_strategies: Vec<(String, RecoveryStrategy)> = Vec::new();
        recovery_strategies.push(
            (
                String::from_str("node"),
                RecoveryStrategy::SoftRecovery { retry_count: 3, backoff_ms: 1000 },
            ),
        );
        recovery_strategies.push(
            (
                String::from_str("python"),
                RecoveryStrategy::SoftRecovery { retry_count: 3, backoff_ms: 1500 },
            ),
        );
        recovery_strategies.push(
            (
                String::from_str("c"),
                RecoveryStrategy::HardRecovery { force_rebuild: true, isolate_component: false },
            ),
        );
        recovery_strategies.push(
            (
                String::from_str("gosilang"),
                RecoveryStrategy::HardRecovery { force_rebuild: false, isolate_component: true },
            ),
        );
        let r = SelfHealingArchitecture {
            recovery_strategies,
            health_monitors: Self::initialize_health_monitors(),
            constitution_validator: Self::initialize_constitution_validator(),
            recovery_history: Vec::new(),
            system_health: Self::initialize_system_health(),
            emergency_protocols: Self::initialize_emergency_protocols(),
            clock: 0,
        };
        proof {
            reveal_strlit("node");
            reveal_strlit("python");
            reveal_strlit("c");
            reveal_strlit("gosilang");
            assert(r.wf()) by {
                assert(r.strategies().len() == 4);
                assert(r.strategies()[0].0@.len() == 4);
                assert(r.strategies()[1].0@.len() == 6);
                assert(r.strategies()[2].0@.len() == 1);
                assert(r.strategies()[3].0@.len() == 8);
            }
            r.lemma_strategy_index_unique(0, "node"@);
            r.lemma_strategy_index_unique(1, "python"@);
            r.lemma_strategy_index_unique(2, "c"@);
            r.lemma_strategy_index_unique(3, "gosilang"@);
        }
        r
    }

    /// Health monitors for the managed runtimes and the validator itself.
    pub fn initialize_health_monitors() -> (r: Vec<HealthMonitor>)
        ensures
            r@.len() == 3,
    {
        let mut monitors: Vec<HealthMonitor> = Vec::new();
        monitors.push(
            HealthMonitor {
                component_name: String::from_str("cache_manager_node"),
                monitor_interval_ms: 5000,
                health_threshold: 8,
                last_check: 0,
                consecutive_failures: 0,
            },
        );
        monitors.push(
            HealthMonitor {
                component_name: String::from_str("cache_manager_python"),
                monitor_interval_ms: 5000,
                health_threshold: 8,
                last_check: 0,
                consecutive_failures: 0,
            },
        );
        monitors.push(
            HealthMonitor {
                component_name: String::from_str("constitutional_validator"),
                monitor_interval_ms: 1000,
                health_threshold: 9,
                last_check: 0,
                consecutive_failures: 0,
            },
        );
        monitors
    }

    /// The stock compliance rules.
    pub fn initialize_constitution_validator() -> (r: ConstitutionValidator)
        ensures
            r.compliance_rules@.len() == 2,
            r.compliance_rules@[0].rule_id@ == "AI_TRAINING_PROTECTION"@,
            r.compliance_rules@[0].violation_severity == SeverityLevel::Critical,
            !r.compliance_rules@[0].auto_remediation,
            r.compliance_rules@[1].rule_id@ == "POLYCORE_V2_CERTIFICATION"@,
            r.compliance_rules@[1].violation_severity == SeverityLevel::Warning,
            r.compliance_rules@[1].auto_remediation,
            r.violation_history@.len() == 0,
            r.emergency_threshold == 3,
    {
        let mut compliance_rules: Vec<ComplianceRule> = Vec::new();
        compliance_rules.push(
            ComplianceRule {
                rule_id: String::from_str("AI_TRAINING_PROTECTION"),
                description: String::from_str(
                    "Prevent unauthorized AI model training on cache data",
                ),
                violation_severity: SeverityLevel::Critical,
                auto_remediation: false,
            },
        );
        compliance_rules.push(
            ComplianceRule {
                rule_id: String::from_str("POLYCORE_V2_CERTIFICATION"),
                description: String::from_str("Maintain PolyCore v2 certification standards"),
                violation_severity: SeverityLevel::Warning,
                auto_remediation: true,
            },
        );
        ConstitutionValidator {
            compliance_rules,
            violation_history: Vec::new(),
            emergency_threshold: 3,
        }
    }

    /// A healthy starting snapshot.
    pub fn initialize_system_health() -> (r: SystemHealth)
        ensures
            r.overall_score == 10,
            r.performance_degradation == false,
    {
        SystemHealth {
            overall_score: 10,
            component_health: Vec::new(),
            critical_alerts: Vec::new(),
            performance_degradation: false,
        }
    }

    /// Emergency handling disengaged, with the escalation chain configured.
    pub fn initialize_emergency_protocols() -> (r: EmergencyProtocols)
        ensures
            r.lockdown_enabled == false,
            r.board_notification_active == false,
            r.system_isolation_level == IsolationLevel::NoIsolation,
            r.recovery_escalation_chain@.len() == 3,
    {
        let mut chain: Vec<String> = Vec::new();
        chain.push(String::from_str("system_administrator"));
        chain.push(String::from_str("technical_lead"));
        chain.push(String::from_str("constitutional_board"));
        EmergencyProtocols {
            lockdown_enabled: false,
            board_notification_active: false,
            system_isolation_level: IsolationLevel::NoIsolation,
            recovery_escalation_chain: chain,
        }
    }

    /// The error text carries a compliance tag.
    pub fn is_constitutional_violation(&self, error: &BustCallError) -> (r: bool)
        ensures
            r == spec_is_constitutional_violation(error),
    {
        contains_sub(error.message.as_str().as_bytes(), "constitutional".as_bytes())
            || contains_sub(error.message.as_str().as_bytes(), "compliance".as_bytes())
            || contains_sub(error.component.as_str().as_bytes(), "constitution".as_bytes())
    }

    /// The error names this compliance rule.
    pub fn check_rule_violation(&self, rule: &ComplianceRule, error: &BustCallError) -> (r: bool)
        ensures
            r == spec_rule_violated(rule, error),
    {
        contains_sub(error.message.as_str().as_bytes(), rule.rule_id.as_str().as_bytes())
            || contains_sub(error.component.as_str().as_bytes(), rule.rule_id.as_str().as_bytes())
    }

    /// Index of some compliance rule the error violates.
    fn find_violated_rule(&self, error: &BustCallError) -> (r: Option<usize>)
        ensures
            match r {
                Some(i) => i < self.constitution_validator.compliance_rules@.len()
                    && spec_rule_violated(
                    &self.constitution_validator.compliance_rules@[i as int],
                    error,
                ),
                None => forall|i: int|
                    0 <= i < self.constitution_validator.compliance_rules@.len()
                        ==> !spec_rule_violated(
                        &self.constitution_validator.compliance_rules@[i],
                        error,
                    ),
            },
    {
        let mut i: usize = 0;
        while i < self.constitution_validator.compliance_rules.len()
            invariant
                i <= self.constitution_validator.compliance_rules@.len(),
                forall|j: int|
                    0 <= j < i ==> !spec_rule_violated(
                        &self.constitution_validator.compliance_rules@[j],
                        error,
                    ),
            decreases self.constitution_validator.compliance_rules@.len() - i,
        {
            if self.check_rule_violation(&self.constitution_validator.compliance_rules[i], error) {
                return Some(i);
            }
            i += 1;
        }
        None
    }

    /// Check the error against every compliance rule; a violated rule comes
    /// back as a pending `ComplianceViolation` naming it.
    pub fn validate_constitutional_compliance(&self, error: &BustCallError) -> (r: Result<
        (),
        ComplianceViolation,
    >)
        ensures
            r is Ok <==> forall|i: int|
                0 <= i < self.constitution_validator.compliance_rules@.len() ==> !spec_rule_violated(
                    &self.constitution_validator.compliance_rules@[i],
                    error,
                ),
            r is Err ==> {
                &&& r->Err_0.component@ == error.component@
                &&& r->Err_0.remediation_status == RemediationStatus::Pending
                &&& exists|i: int|
                    0 <= i < self.constitution_validator.compliance_rules@.len()
                        && #[trigger] spec_rule_violated(
                        &self.constitution_validator.compliance_rules@[i],
                        error,
                    ) && r->Err_0.rule_id@
                        == self.constitution_validator.compliance_rules@[i].rule_id@
            },
    {
        match self.find_violated_rule(error) {
            Some(i) => {
                let rule = &self.constitution_validator.compliance_rules[i];
                Err(
                    ComplianceViolation {
                        rule_id: rule.rule_id.clone(),
                        timestamp: self.clock,
                        component: error.component.clone(),
                        details: rule.description.clone(),
                        remediation_status: RemediationStatus::Pending,
                    },
                )
            },
            None => Ok(()),
        }
    }

    /// Choose the remediation strategy for an error: compliance tags force a
    /// constitutional emergency; otherwise the severity decides.
    pub fn determine_recovery_strategy(&self, error: &BustCallError) -> (r: RecoveryStrategy)
        requires
            self.wf(),
        ensures
            r == self.spec_determine_strategy(error),
    {
        if self.is_constitutional_violation(error) {
            return RecoveryStrategy::ConstitutionalEmergency {
                trigger_lockdown: true,
                notify_board: true,
            };
        }
        match error.severity {
            SeverityLevel::Normal | SeverityLevel::Warning => {
                let registered = self.strategy_for(&error.component);
                match registered {
                    RecoveryStrategy::SoftRecovery { retry_count, backoff_ms } => {
                        RecoveryStrategy::SoftRecovery { retry_count, backoff_ms }
                    },
                    _ => RecoveryStrategy::SoftRecovery { retry_count: 3, backoff_ms: 1000 },
                }
            },
            SeverityLevel::Danger => RecoveryStrategy::HardRecovery {
                force_rebuild: true,
                isolate_component: false,
            },
            SeverityLevel::Critical => RecoveryStrategy::EmergencyRecovery {
                system_restart: false,
                escalate_to_supervisor: true,
            },
            SeverityLevel::Panic => RecoveryStrategy::ConstitutionalEmergency {
                trigger_lockdown: false,
                notify_board: true,
            },
        }
    }

    /// The component's registered strategy, or the default soft retries.
    fn strategy_for(&self, component: &String) -> (r: RecoveryStrategy)
        requires
            self.wf(),
        ensures
            r == self.spec_strategy_for(component@),
    {
        let mut i: usize = 0;
        while i < self.recovery_strategies.len()
            invariant
                self.wf(),
                i <= self.strategies().len(),
                forall|j: int| 0 <= j < i ==> self.strategies()[j].0@ != component@,
            decreases self.strategies().len() - i,
        {
            if self.recovery_strategies[i].0 == *component {
                proof {
                    self.lemma_strategy_index_unique(i as int, component@);
                }
                return self.recovery_strategies[i].1;
            }
            i += 1;
        }
        RecoveryStrategy::SoftRecovery { retry_count: 3, backoff_ms: 1000 }
    }

    /// Mark the component isolated from new delegation.
    pub fn isolate_component(&mut self, component: &str)
        ensures
            final(self).emergency_protocols.system_isolation_level
                == IsolationLevel::ComponentLevel,
            final(self).recovery_strategies == old(self).recovery_strategies,
            final(self).recovery_history == old(self).recovery_history,
            final(self).constitution_validator == old(self).constitution_validator,
            final(self).emergency_protocols.lockdown_enabled == old(self).emergency_protocols.lockdown_enabled,
    {
        self.emergency_protocols.system_isolation_level = IsolationLevel::ComponentLevel;
    }

    /// Soft recovery: walk the retries until one refresh passes its health
    /// check; give up with a hard rebuild as the next strategy.
    pub fn execute_soft_recovery(
        &mut self,
        error: &BustCallError,
        retry_count: u8,
        backoff_ms: u64,
        probe: &RecoveryProbe,
    ) -> (r: RecoveryResult)
        ensures
            *final(self) == *old(self),
            spec_strategy_result_matches(
                (RecoveryStrategy::SoftRecovery { retry_count, backoff_ms }),
                probe,
                r,
            ),
            spec_soft_succeeds(probe, retry_count) <==> r is Success,
    {
        let mut attempt: usize = 0;
        let mut delay: u64 = backoff_ms;
        while attempt < retry_count as usize
            invariant
                *self == *old(self),
                attempt <= retry_count,
                forall|a: int|
                    0 <= a < attempt ==> !(a < probe.refresh_ok@.len()
                        && #[trigger] probe.refresh_ok@[a] && a < probe.health_ok@.len()
                        && probe.health_ok@[a]),
            decreases retry_count - attempt,
        {
            let refreshed = attempt < probe.refresh_ok.len() && probe.refresh_ok[attempt];
            let healthy = attempt < probe.health_ok.len() && probe.health_ok[attempt];
            if refreshed && healthy {
                return RecoveryResult::Success {
                    strategy_used: RecoveryStrategy::SoftRecovery { retry_count, backoff_ms },
                    recovery_time_ms: delay,
                    health_restored: true,
                };
            }
            delay = if delay <= u64::MAX / 2 {
                delay * 2
            } else {
                u64::MAX
            };
            attempt += 1;
        }
        let mut remaining_issues: Vec<String> = Vec::new();
        remaining_issues.push(String::from_str("soft recovery retries exhausted"));
        RecoveryResult::PartialRecovery {
            remaining_issues,
            next_strategy: RecoveryStrategy::HardRecovery {
                force_rebuild: true,
                isolate_component: false,
            },
        }
    }

    /// Hard recovery: optionally isolate the component, force a rebuild and
    /// re-check health; an incomplete rebuild escalates to emergency
    /// recovery as the next strategy.
    pub fn execute_hard_recovery(
        &mut self,
        error: &BustCallError,
        force_rebuild: bool,
        isolate_component: bool,
        probe: &RecoveryProbe,
    ) -> (r: RecoveryResult)
        ensures
            spec_strategy_result_matches(
                (RecoveryStrategy::HardRecovery { force_rebuild, isolate_component }),
                probe,
                r,
            ),
            (force_rebuild && probe.rebuild_ok && probe.rebuild_health_ok) <==> r is Success,
            isolate_component ==> final(self).emergency_protocols.system_isolation_level
                == IsolationLevel::ComponentLevel,
            !isolate_component ==> *final(self) == *old(self),
            final(self).recovery_strategies == old(self).recovery_strategies,
            final(self).recovery_history == old(self).recovery_history,
            final(self).constitution_validator == old(self).constitution_validator,
    {
        if isolate_component {
            self.isolate_component(error.component.as_str());
        }
        if force_rebuild && probe.rebuild_ok && probe.rebuild_health_ok {
            return RecoveryResult::Success {
                strategy_used: RecoveryStrategy::HardRecovery { force_rebuild, isolate_component },
                recovery_time_ms: 5000,
                health_restored: true,
            };
        }
        let mut remaining_issues: Vec<String> = Vec::new();
        remaining_issues.push(String::from_str("hard recovery incomplete"));
        RecoveryResult::PartialRecovery {
            remaining_issues,
            next_strategy: RecoveryStrategy::EmergencyRecovery {
                system_restart: true,
                escalate_to_supervisor: true,
            },
        }
    }

    /// Emergency recovery: isolate the system, optionally restart it; when
    /// no restart is asked for, hand the case to manual intervention.
    pub fn execute_emergency_recovery(
        &mut self,
        error: &BustCallError,
        system_restart: bool,
        escalate_to_supervisor: bool,
        probe: &RecoveryProbe,
    ) -> (r: RecoveryResult)
        ensures
            spec_strategy_result_matches(
                (RecoveryStrategy::EmergencyRecovery { system_restart, escalate_to_supervisor }),
                probe,
                r,
            ),
            (system_restart && probe.restart_ok) <==> r is Success,
            !system_restart ==> (r matches RecoveryResult::ManualIntervention {
                emergency_contacts,
                ..
            } && emergency_contacts@.len() == 2),
            final(self).emergency_protocols.system_isolation_level == IsolationLevel::SystemLevel,
            final(self).recovery_strategies == old(self).recovery_strategies,
            final(self).recovery_history == old(self).recovery_history,
            final(self).constitution_validator == old(self).constitution_validator,
    {
        self.emergency_protocols.system_isolation_level = IsolationLevel::SystemLevel;
        if system_restart {
            if probe.restart_ok {
                return RecoveryResult::Success {
                    strategy_used: RecoveryStrategy::EmergencyRecovery {
                        system_restart,
                        escalate_to_supervisor,
                    },
                    recovery_time_ms: 10000,
                    health_restored: true,
                };
            }
            return RecoveryResult::Failed {
                error: String::from_str("emergency restart failed"),
                escalation_required: true,
            };
        }
        let mut emergency_contacts: Vec<String> = Vec::new();
        emergency_contacts.push(String::from_str("emergency@obinexus.com"));
        emergency_contacts.push(String::from_str("uche.king@obinexus.com"));
        RecoveryResult::ManualIntervention {
            reason: String::from_str("emergency recovery requires manual intervention"),
            emergency_contacts,
        }
    }

    /// Constitutional emergency: lock the system down, notify the board and
    /// require manual clearance before new delegation.
    pub fn execute_constitutional_emergency(
        &mut self,
        error: &BustCallError,
        trigger_lockdown: bool,
        notify_board: bool,
        probe: &RecoveryProbe,
    ) -> (r: RecoveryResult)
        ensures
            r is ManualIntervention,
            (r matches RecoveryResult::ManualIntervention { emergency_contacts, .. }
                && emergency_contacts@.len() == 3),
            trigger_lockdown ==> final(self).emergency_protocols.lockdown_enabled && final(self).emergency_protocols.system_isolation_level == IsolationLevel::ConstitutionalEmergency,
            notify_board ==> final(self).emergency_protocols.board_notification_active,
            final(self).recovery_strategies == old(self).recovery_strategies,
            final(self).recovery_history == old(self).recovery_history,
            final(self).constitution_validator == old(self).constitution_validator,
    {
        if trigger_lockdown {
            self.emergency_protocols.lockdown_enabled = true;
            self.emergency_protocols.system_isolation_level =
            IsolationLevel::ConstitutionalEmergency;
        }
        if notify_board {
            self.emergency_protocols.board_notification_active = true;
        }
        let mut emergency_contacts: Vec<String> = Vec::new();
        emergency_contacts.push(String::from_str("constitutional.board@obinexus.com"));
        emergency_contacts.push(String::from_str("legal@obinexus.com"));
        emergency_contacts.push(String::from_str("uche.king@obinexus.com"));
        RecoveryResult::ManualIntervention {
            reason: String::from_str("constitutional compliance violation"),
            emergency_contacts,
        }
    }

    /// Record a compliance violation and route the case to manual
    /// intervention, naming the violated rule in the reason.
    pub fn handle_constitutional_violation(&mut self, violation: ComplianceViolation) -> (r:
        RecoveryResult)
        ensures
            (r matches RecoveryResult::ManualIntervention { reason, emergency_contacts }
                && reason@ == "constitutional violation: "@ + violation.rule_id@
                && emergency_contacts@.len() == 2),
            final(self).constitution_validator.violation_history@ == old(self).constitution_validator.violation_history@.push(violation),
            final(self).recovery_strategies == old(self).recovery_strategies,
            final(self).recovery_history == old(self).recovery_history,
            final(self).emergency_protocols == old(self).emergency_protocols,
    {
        let reason = String::from_str("constitutional violation: ").concat(
            violation.rule_id.as_str(),
        );
        self.constitution_validator.violation_history.push(violation);
        let mut emergency_contacts: Vec<String> = Vec::new();
        emergency_contacts.push(String::from_str("constitutional.compliance@obinexus.com"));
        emergency_contacts.push(String::from_str("legal@obinexus.com"));
        RecoveryResult::ManualIntervention { reason, emergency_contacts }
    }

    /// Append the attempt to the recovery log; past 1000 entries the oldest
    /// hundred are trimmed.
    pub fn record_recovery_attempt(
        &mut self,
        error: &BustCallError,
        strategy: RecoveryStrategy,
        result: RecoveryResult,
        recovery_time_ms: u64,
    )
        requires
            old(self).recovery_history@.len() <= 1000,
        ensures
            final(self).recovery_history@.len() >= 1,
            final(self).recovery_history@.last().component@ == error.component@,
            final(self).recovery_history@.last().strategy == strategy,
            final(self).recovery_history@.last().constitutional_impact
                == spec_is_constitutional_violation(error),
            final(self).recovery_history@.last().result == result,
            old(self).recovery_history@.len() < 1000 ==> final(self).recovery_history@.len() == old(self).recovery_history@.len() + 1 && final(self).recovery_history@.drop_last() == old(self).recovery_history@,
            old(self).recovery_history@.len() >= 1000 ==> final(self).recovery_history@.len() == old(self).recovery_history@.len() + 1 - 100,
            final(self).recovery_history@.len() <= 1000,
            final(self).recovery_strategies == old(self).recovery_strategies,
            final(self).constitution_validator == old(self).constitution_validator,
            final(self).emergency_protocols == old(self).emergency_protocols,
    {
        let constitutional_impact = self.is_constitutional_violation(error);
        let attempt = RecoveryAttempt {
            timestamp: self.clock,
            component: error.component.clone(),
            strategy,
            result,
            constitutional_impact,
        };
        self.clock = if self.clock == u64::MAX {
            u64::MAX
        } else {
            self.clock + 1
        };
        self.recovery_history.push(attempt);
        if self.recovery_history.len() > 1000 {
            let kept = self.recovery_history.split_off(100);
            self.recovery_history = kept;
        }
    }

    /// Run autonomous recovery for an error report against the observed
    /// probe outcomes: compliance violations route straight to manual
    /// intervention; otherwise the severity-chosen strategy runs, and the
    /// attempt is logged either way.
    pub fn attempt_recovery(&mut self, error: &BustCallError, probe: &RecoveryProbe) -> (r:
        RecoveryResult)
        requires
            old(self).wf(),
            old(self).recovery_history@.len() <= 1000,
        ensures
            final(self).wf(),
            final(self).strategies() == old(self).strategies(),
            final(self).recovery_history@.len() >= 1,
            final(self).recovery_history@.len() <= 1000,
            old(self).recovery_history@.len() < 1000 ==> final(self).recovery_history@.len()
                == old(self).recovery_history@.len() + 1 && final(self).recovery_history@.drop_last() == old(self).recovery_history@,
            old(self).recovery_history@.len() == 1000 ==> final(self).recovery_history@.len()
                == 901,
            final(self).recovery_history@.last().component@ == error.component@,
            spec_same_result(&final(self).recovery_history@.last().result, &r),
            (exists|i: int|
                0 <= i < old(self).constitution_validator.compliance_rules@.len()
                    && #[trigger] spec_rule_violated(
                    &old(self).constitution_validator.compliance_rules@[i],
                    error,
                )) ==> (r matches RecoveryResult::ManualIntervention { reason, emergency_contacts }
                && emergency_contacts@.len() > 0 && (exists|i: int|
                0 <= i < old(self).constitution_validator.compliance_rules@.len()
                    && #[trigger] spec_rule_violated(
                    &old(self).constitution_validator.compliance_rules@[i],
                    error,
                ) && reason@ == "constitutional violation: "@ + old(self).constitution_validator.compliance_rules@[i].rule_id@)) && final(self).constitution_validator.violation_history@.len() == old(self).constitution_validator.violation_history@.len() + 1,
            (forall|i: int|
                0 <= i < old(self).constitution_validator.compliance_rules@.len()
                    ==> !#[trigger] spec_rule_violated(
                    &old(self).constitution_validator.compliance_rules@[i],
                    error,
                )) ==> {
                &&& spec_strategy_result_matches(
                    old(self).spec_determine_strategy(error),
                    probe,
                    r,
                )
                &&& final(self).recovery_history@.last().strategy == old(self).spec_determine_strategy(error)
                &&& final(self).constitution_validator.violation_history == old(self).constitution_validator.violation_history
            },
    {
        let compliance = self.validate_constitutional_compliance(error);
        match compliance {
            Err(violation) => {
                let result = self.handle_constitutional_violation(violation);
                let returned = copy_result(&result);
                self.record_recovery_attempt(
                    error,
                    RecoveryStrategy::ConstitutionalEmergency {
                        trigger_lockdown: true,
                        notify_board: true,
                    },
                    result,
                    0,
                );
                returned
            },
            Ok(()) => {
                let strategy = self.determine_recovery_strategy(error);
                let result = match strategy {
                    RecoveryStrategy::SoftRecovery { retry_count, backoff_ms } => self
                        .execute_soft_recovery(error, retry_count, backoff_ms, probe),
                    RecoveryStrategy::HardRecovery { force_rebuild, isolate_component } => self
                        .execute_hard_recovery(error, force_rebuild, isolate_component, probe),
                    RecoveryStrategy::EmergencyRecovery {
                        system_restart,
                        escalate_to_supervisor,
                    } => self.execute_emergency_recovery(
                        error,
                        system_restart,
                        escalate_to_supervisor,
                        probe,
                    ),
                    RecoveryStrategy::ConstitutionalEmergency { trigger_lockdown, notify_board } => self
                        .execute_constitutional_emergency(
                        error,
                        trigger_lockdown,
                        notify_board,
                        probe,
                    ),
                };
                let returned = copy_result(&result);
                self.record_recovery_attempt(error, strategy, result, 0);
                returned
            },
        }
    }
}

} // verus!
