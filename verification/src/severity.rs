//! Severity scales shared by the cache coordinator, the delegation tree and
//! the recovery escalator.

use vstd::prelude::*;

verus! {

/// How urgently caches tied to a target must be invalidated.
#[derive(Debug, Clone, Copy, PartialEq, Eq, Structural)]
pub enum CacheBustSeverity {
    /// File change, soft rebuild.
    Low,
    /// PID change, moderate rebuild.
    Medium,
    /// Dependency change, full rebuild.
    High,
    /// System failure, emergency rebuild.
    Critical,
}

impl CacheBustSeverity {
    /// Priority score of a rebuild request enqueued for this severity.
    pub open spec fn spec_priority_score(self) -> u64 {
        match self {
            CacheBustSeverity::Low => 1,
            CacheBustSeverity::Medium => 5,
            CacheBustSeverity::High => 10,
            CacheBustSeverity::Critical => 50,
        }
    }

    /// Severity-derived priority score: Low=1, Medium=5, High=10, Critical=50.
    pub fn priority_score(self) -> (r: u64)
        ensures
            r == self.spec_priority_score(),
    {
        match self {
            CacheBustSeverity::Low => 1,
            CacheBustSeverity::Medium => 5,
            CacheBustSeverity::High => 10,
            CacheBustSeverity::Critical => 50,
        }
    }
}

/// Failure severity of an error report, on the 0..=12 fault scale.
#[derive(Debug, Clone, Copy, PartialEq, Eq, Structural)]
pub enum SeverityLevel {
    Normal,
    Warning,
    Danger,
    Critical,
    Panic,
}

impl SeverityLevel {
    /// The numeric value at which this level's band starts.
    pub open spec fn spec_value(self) -> u8 {
        match self {
            SeverityLevel::Normal => 0,
            SeverityLevel::Warning => 3,
            SeverityLevel::Danger => 6,
            SeverityLevel::Critical => 9,
            SeverityLevel::Panic => 12,
        }
    }

    /// Numeric start of this level's band: Normal=0, Warning=3, Danger=6,
    /// Critical=9, Panic=12.
    pub fn value(self) -> (r: u8)
        ensures
            r == self.spec_value(),
    {
        match self {
            SeverityLevel::Normal => 0,
            SeverityLevel::Warning => 3,
            SeverityLevel::Danger => 6,
            SeverityLevel::Critical => 9,
            SeverityLevel::Panic => 12,
        }
    }
}

/// Byzantine fault state bands of a delegation node: 0-2 operational,
/// 3-5 needs assistance, 6-8 immediate intervention, 9+ catastrophic.
#[derive(Debug, Clone, Copy, PartialEq, Eq, Structural)]
pub enum FaultLevel {
    Warning,
    Critical,
    Danger,
    Panic,
}

impl FaultLevel {
    /// The band that a raw 0..=12 fault score falls in.
    pub open spec fn spec_from_score(value: u8) -> FaultLevel {
        if value <= 2 {
            FaultLevel::Warning
        } else if value <= 5 {
            FaultLevel::Critical
        } else if value <= 8 {
            FaultLevel::Danger
        } else {
            FaultLevel::Panic
        }
    }

    /// Classify a raw fault score: 0-2 Warning, 3-5 Critical, 6-8 Danger,
    /// 9 and above Panic.
    pub fn from_score(value: u8) -> (r: FaultLevel)
        ensures
            r == FaultLevel::spec_from_score(value),
    {
        if value <= 2 {
            FaultLevel::Warning
        } else if value <= 5 {
            FaultLevel::Critical
        } else if value <= 8 {
            FaultLevel::Danger
        } else {
            FaultLevel::Panic
        }
    }

    /// Order of the bands, for escalation comparisons.
    pub open spec fn spec_rank(self) -> u8 {
        match self {
            FaultLevel::Warning => 0,
            FaultLevel::Critical => 1,
            FaultLevel::Danger => 2,
            FaultLevel::Panic => 3,
        }
    }

    /// Rank of the band: Warning < Critical < Danger < Panic.
    pub fn rank(self) -> (r: u8)
        ensures
            r == self.spec_rank(),
    {
        match self {
            FaultLevel::Warning => 0,
            FaultLevel::Critical => 1,
            FaultLevel::Danger => 2,
            FaultLevel::Panic => 3,
        }
    }
}

} // verus!
