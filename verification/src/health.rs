//! The liveness probe's decision: report the service's health, and say
//! whether the external monitor should be notified now — at most once
//! per backoff interval, so a persisting outage or a steady healthy
//! state does not flood the monitor. The caller performs the probe and
//! delivers the notification.

use vstd::prelude::*;
use crate::backoff::BackoffHandler;

verus! {

/// What the health endpoint reports.
#[derive(Debug, Clone, Copy, PartialEq, Eq, Structural)]
pub struct HealthCheck {
    /// Whether the database answered the probe.
    pub database_healthy: bool,
    /// Whether the backend itself is healthy.
    pub backend_healthy: bool,
}

/// The notification owed to the external monitor.
#[derive(Debug, Clone, Copy, PartialEq, Eq, Structural)]
pub enum HealthSignal {
    /// Report a successful health check.
    ServiceUp,
    /// Report a failed health check.
    ServiceDown,
}

/// Turn the probe's outcome into the health report, and decide through
/// the backoff gate whether to notify the monitor: a permitted call
/// reports up or down to match the probe and stamps the backoff state; a
/// suppressed one leaves the backoff state as it was.
pub fn check_backend_health(gate: &mut BackoffHandler, database_healthy: bool, now: u64) -> (r: (
    HealthCheck,
    Option<HealthSignal>,
))
    ensures
        r.0.database_healthy == database_healthy,
        r.0.backend_healthy == database_healthy,
        r.1 is Some <==> old(gate).allows(now),
        r.1 matches Some(signal) ==> (signal == HealthSignal::ServiceUp <==> database_healthy)
            && *final(gate) == old(gate).after_call(now),
        r.1 is None ==> *final(gate) == *old(gate),
{
    let report = HealthCheck { database_healthy, backend_healthy: database_healthy };
    let permitted = gate.call(now);
    let signal: Option<HealthSignal> = if permitted {
        if database_healthy {
            Some(HealthSignal::ServiceUp)
        } else {
            Some(HealthSignal::ServiceDown)
        }
    } else {
        None
    };
    (report, signal)
}

} // verus!
