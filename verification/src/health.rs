//! The health report of the server and of the services it depends on.
use vstd::prelude::*;
use crate::text::owned;

verus! {

/// How well the server is doing.
#[derive(Debug, Clone, Copy, PartialEq, Eq, Structural)]
pub enum HealthState {
    Healthy,
    Degraded,
    Unhealthy,
}

impl HealthState {
    /// The name the state is reported with.
    pub fn to_string(&self) -> (r: String)
        ensures
            r@ == (match *self {
                HealthState::Healthy => "healthy"@,
                HealthState::Degraded => "degraded"@,
                HealthState::Unhealthy => "unhealthy"@,
            }),
    {
        match self {
            HealthState::Healthy => owned("healthy"),
            HealthState::Degraded => owned("degraded"),
            HealthState::Unhealthy => owned("unhealthy"),
        }
    }
}

/// The outcome of one dependency check.
#[derive(Debug, Clone)]
pub struct CheckResult {
    pub status: bool,
    pub latency_ms: Option<u64>,
    pub error: Option<String>,
}

/// The latency reported for a check that timed out.
pub const TIMEOUT_LATENCY_MS: u64 = 5000;

impl CheckResult {
    /// A check that passed after `latency_ms`.
    pub fn success(latency_ms: u64) -> (r: Self)
        ensures
            r.status,
            r.latency_ms == Some(latency_ms),
            r.error is None,
    {
        CheckResult { status: true, latency_ms: Some(latency_ms), error: None }
    }

    /// A check that failed after `latency_ms` with `error`.
    pub fn failure(latency_ms: u64, error: String) -> (r: Self)
        ensures
            !r.status,
            r.latency_ms == Some(latency_ms),
            r.error == Some(error),
    {
        CheckResult { status: false, latency_ms: Some(latency_ms), error: Some(error) }
    }

    /// A check that did not answer in time.
    pub fn timeout() -> (r: Self)
        ensures
            !r.status,
            r.latency_ms == Some(TIMEOUT_LATENCY_MS),
            r.error matches Some(e) && e@ == "Timeout"@,
    {
        CheckResult { status: false, latency_ms: Some(TIMEOUT_LATENCY_MS), error: Some(owned("Timeout")) }
    }
}

/// The checks of the services the server depends on.
#[derive(Debug)]
pub struct HealthChecks {
    pub openai_api: CheckResult,
}

/// The full health report.
#[derive(Debug)]
pub struct HealthStatus {
    pub status: HealthState,
    pub version: &'static str,
    pub uptime_secs: u64,
    pub checks: HealthChecks,
}

} // verus!
