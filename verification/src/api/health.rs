//! The health report: the service is healthy exactly when its database
//! answers.

use vstd::prelude::*;

verus! {

/// HTTP 200.
pub const OK: u16 = 200;

/// HTTP 503.
pub const SERVICE_UNAVAILABLE: u16 = 503;

/// The state of one component the service depends on.
#[derive(Debug, Clone)]
pub struct ComponentStatus {
    pub ok: bool,
    pub detail: Option<String>,
}

/// The whole report: `ok` or `degraded`, and each component's state.
#[derive(Debug, Clone)]
pub struct HealthResponse {
    pub status: String,
    pub database: ComponentStatus,
    pub toolchain: ComponentStatus,
}

impl ComponentStatus {
    /// Working, nothing to add.
    pub fn ok() -> (r: Self)
        ensures
            r.ok,
            r.detail is None,
    {
        ComponentStatus { ok: true, detail: None }
    }

    /// Not working, for the reason given.
    pub fn error(detail: String) -> (r: Self)
        ensures
            !r.ok,
            r.detail == Some(detail),
    {
        ComponentStatus { ok: false, detail: Some(detail) }
    }

    /// Not probed: the toolchain is not checked yet.
    pub fn unknown() -> (r: Self)
        ensures
            !r.ok,
            r.detail matches Some(d) && d@ == "toolchain probing not yet implemented"@,
    {
        ComponentStatus {
            ok: false,
            detail: Some(String::from_str("toolchain probing not yet implemented")),
        }
    }
}

/// The report, given how the database's connectivity probe went: 200 and
/// `ok` if it answered, else 503 and `degraded` with its error; the
/// toolchain is always reported unknown.
pub fn health(database_check: Result<(), String>) -> (r: (u16, HealthResponse))
    ensures
        database_check is Ok ==> {
            &&& r.0 == OK
            &&& r.1.status@ == "ok"@
            &&& r.1.database.ok
            &&& r.1.database.detail is None
        },
        database_check is Err ==> {
            &&& r.0 == SERVICE_UNAVAILABLE
            &&& r.1.status@ == "degraded"@
            &&& !r.1.database.ok
            &&& r.1.database.detail == Some(database_check->Err_0)
        },
        !r.1.toolchain.ok,
        r.1.toolchain.detail matches Some(d) && d@ == "toolchain probing not yet implemented"@,
{
    let database = match database_check {
        Ok(()) => ComponentStatus::ok(),
        Err(e) => ComponentStatus::error(e),
    };
    let code = if database.ok {
        OK
    } else {
        SERVICE_UNAVAILABLE
    };
    let status = if database.ok {
        String::from_str("ok")
    } else {
        String::from_str("degraded")
    };
    (code, HealthResponse { status, database, toolchain: ComponentStatus::unknown() })
}

} // verus!
