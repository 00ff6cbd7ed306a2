//! The answers of the health probes.

use vstd::prelude::*;

verus! {

/// The status code of an answer that all is well.
pub const STATUS_OK: u16 = 200;

/// The status code of an answer that the hub cannot serve yet.
pub const STATUS_SERVICE_UNAVAILABLE: u16 = 503;

/// What a probe reports.
#[derive(Clone, Copy, Debug, PartialEq, Eq, Structural)]
pub enum HealthStatus {
    Live,
    Ready,
    WarmingUp,
}

/// Whether the store can be used.
#[derive(Clone, Copy, Debug, PartialEq, Eq, Structural)]
pub enum DbAvailability {
    Available,
    Unavailable,
}

/// The answer of a probe: the status code, the status, and the state of
/// the store where the probe reports it.
#[derive(Clone, Copy, Debug, PartialEq, Eq, Structural)]
pub struct HealthResponse {
    pub code: u16,
    pub status: HealthStatus,
    pub db: Option<DbAvailability>,
}

impl HealthStatus {
    /// The status as it is written in the answer.
    pub fn text(&self) -> (s: String)
        ensures
            s@ == match self {
                HealthStatus::Live => "ok"@,
                HealthStatus::Ready => "ready"@,
                HealthStatus::WarmingUp => "warming_up"@,
            },
    {
        match self {
            HealthStatus::Live => "ok".to_owned(),
            HealthStatus::Ready => "ready".to_owned(),
            HealthStatus::WarmingUp => "warming_up".to_owned(),
        }
    }
}

impl DbAvailability {
    /// The state of the store as it is written in the answer.
    pub fn text(&self) -> (s: String)
        ensures
            s@ == match self {
                DbAvailability::Available => "available"@,
                DbAvailability::Unavailable => "unavailable"@,
            },
    {
        match self {
            DbAvailability::Available => "available".to_owned(),
            DbAvailability::Unavailable => "unavailable".to_owned(),
        }
    }
}

/// The answer of the liveness probe.
pub open spec fn spec_live() -> HealthResponse {
    HealthResponse { code: STATUS_OK, status: HealthStatus::Live, db: None }
}

/// The answer of the liveness probe: all is well while the process runs.
pub fn live() -> (r: HealthResponse)
    ensures
        r == spec_live(),
{
    HealthResponse { code: STATUS_OK, status: HealthStatus::Live, db: None }
}

/// The answer of the readiness probe.
pub open spec fn spec_ready(warming_up: bool, db_available: bool) -> HealthResponse {
    if warming_up {
        HealthResponse {
            code: STATUS_SERVICE_UNAVAILABLE,
            status: HealthStatus::WarmingUp,
            db: None,
        }
    } else {
        HealthResponse {
            code: STATUS_OK,
            status: HealthStatus::Ready,
            db: Some(
                if db_available {
                    DbAvailability::Available
                } else {
                    DbAvailability::Unavailable
                },
            ),
        }
    }
}

/// The answer of the readiness probe: not ready while the hub is warming
/// up; ready after that, with or without a store, and saying which.
pub fn ready_impl(warming_up: bool, db_available: bool) -> (r: HealthResponse)
    ensures
        r == spec_ready(warming_up, db_available),
{
    if warming_up {
        HealthResponse {
            code: STATUS_SERVICE_UNAVAILABLE,
            status: HealthStatus::WarmingUp,
            db: None,
        }
    } else {
        HealthResponse {
            code: STATUS_OK,
            status: HealthStatus::Ready,
            db: Some(
                if db_available {
                    DbAvailability::Available
                } else {
                    DbAvailability::Unavailable
                },
            ),
        }
    }
}

} // verus!
