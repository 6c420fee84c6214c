//! Vocabulary of the intelligent node agent: how it collaborates, what it
//! allocates, what it optimizes for, and the security events it records.
//! Times are milliseconds since the Unix epoch.
use vstd::prelude::*;

verus! {

/// Which nodes the agent collaborates with.
#[derive(Debug, Clone, Copy, PartialEq, Eq, Structural)]
pub enum CollaborationPolicy {
    /// Only trusted nodes.
    TrustedOnly,
    /// Trusted and new nodes alike.
    Balanced,
    /// Any node.
    Opportunistic,
}

/// A resource the agent allocates.
#[derive(Debug, Clone, Copy, PartialEq, Eq, Hash, Structural)]
pub enum ResourceType {
    Compute,
    Memory,
    Bandwidth,
    Storage,
}

/// What a decision optimizes for.
#[derive(Debug, Clone, Copy, PartialEq, Eq, Structural)]
pub enum Objective {
    MaximizePerformance,
    MinimizeResourceUsage,
    MaximizeSecurity,
    MaximizeNetworkStability,
    OptimizeCostEfficiency,
}

/// Kind of a security event.
#[derive(Debug, Clone, Copy, PartialEq, Eq, Structural)]
pub enum SecurityEventType {
    UnauthorizedAccessAttempt,
    DataIntegrityViolation,
    ResourceExhaustion,
    ConnectionSpam,
    IdentityVerificationFailure,
}

/// A security event seen by the agent.
#[derive(Debug, Clone)]
pub struct SecurityEvent {
    pub event_type: SecurityEventType,
    pub severity: u8,
    pub timestamp: u64,
    pub details: String,
}

/// Number of decisions the agent keeps before trimming its history.
pub const DECISION_HISTORY_LIMIT: usize = 1000;

/// Number of oldest decisions dropped when the history is trimmed.
pub const DECISION_HISTORY_TRIM: usize = 500;

} // verus!
