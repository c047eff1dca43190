//! The health check: always answers, never fails the request.

use vstd::prelude::*;

verus! {

/// What a bounded look at the persistence handle found.
#[derive(Clone, Copy, Debug, PartialEq, Eq, Structural)]
pub enum Probe {
    /// The store was not asked.
    Skipped,
    /// The store answered in time.
    Responded,
    /// The store did not answer within the time allowed.
    TimedOut,
    /// The store could not be reached.
    Unreachable,
}

#[derive(Clone, Copy, Debug, PartialEq, Eq, Structural)]
pub enum HealthStatus {
    Healthy,
    Degraded,
}

/// The answer of the health check.
#[derive(Clone, Copy, Debug, PartialEq, Eq, Structural)]
pub struct HealthReport {
    pub status: HealthStatus,
    /// The HTTP status of the answer: the request itself always succeeds.
    pub http_status: u16,
}

/// The service is degraded when the store was asked and did not answer.
pub open spec fn health_of(probe: Probe) -> HealthReport {
    HealthReport {
        status: match probe {
            Probe::Skipped | Probe::Responded => HealthStatus::Healthy,
            Probe::TimedOut | Probe::Unreachable => HealthStatus::Degraded,
        },
        http_status: 200,
    }
}

/// Answers the health check from what the probe of the store found.
pub fn health(probe: Probe) -> (report: HealthReport)
    ensures
        report == health_of(probe),
{
    let status = match probe {
        Probe::Skipped | Probe::Responded => HealthStatus::Healthy,
        Probe::TimedOut | Probe::Unreachable => HealthStatus::Degraded,
    };
    HealthReport { status, http_status: 200 }
}

} // verus!
