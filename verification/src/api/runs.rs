//! The wire shape of a run, and the answer to a request for one.

use vstd::prelude::*;

use crate::api::error::{ApiError, NOT_FOUND};
use crate::ids::{id_text, uuid_text};
use crate::store::{RunRecord, RunStatus};
use crate::text::push_str;

verus! {

#[derive(Debug, Clone)]
pub struct RunDto {
    pub id: String,
    pub campaign_id: String,
    pub target_id: String,
    pub status: RunStatus,
    pub time_budget_secs: i32,
    pub elapsed_secs: i64,
    pub iterations: i64,
    pub findings_count: i64,
    /// Nanoseconds since the Unix epoch.
    pub started_at: Option<i128>,
    /// Written `endedAt` on the wire.
    pub finished_at: Option<i128>,
}

impl RunDto {
    pub open spec fn shows(self, r: RunRecord) -> bool {
        &&& self.id@ == uuid_text(r.id)
        &&& self.campaign_id@ == uuid_text(r.campaign_id)
        &&& self.target_id == r.target_id
        &&& self.status == r.status
        &&& self.time_budget_secs == r.time_budget_secs
        &&& self.elapsed_secs == r.elapsed_secs
        &&& self.iterations == r.iterations
        &&& self.findings_count == r.findings_count
        &&& self.started_at == r.started_at
        &&& self.finished_at == r.finished_at
    }

    pub fn from_record(r: &RunRecord) -> (d: Self)
        ensures
            d.shows(*r),
    {
        RunDto {
            id: id_text(r.id),
            campaign_id: id_text(r.campaign_id),
            target_id: r.target_id.clone(),
            status: r.status,
            time_budget_secs: r.time_budget_secs,
            elapsed_secs: r.elapsed_secs,
            iterations: r.iterations,
            findings_count: r.findings_count,
            started_at: r.started_at,
            finished_at: r.finished_at,
        }
    }
}

/// Whether `e` is the 404 answer with this code and message.
pub open spec fn is_not_found(e: ApiError, code: Seq<char>, message: Seq<char>) -> bool {
    &&& e.status == NOT_FOUND
    &&& e.error@ == code
    &&& e.message@ == message
}

/// The 404 for a run that does not exist: `run_not_found`, "no run with
/// id {id}".
pub fn run_not_found(id: u128) -> (e: ApiError)
    ensures
        is_not_found(e, "run_not_found"@, "no run with id "@ + uuid_text(id)),
{
    let mut m = String::from_str("no run with id ");
    let t = id_text(id);
    push_str(&mut m, t.as_str());
    ApiError::not_found("run_not_found", m)
}

/// The answer to a request for run `id`, given what the store found.
pub fn get_run(id: u128, found: Option<RunRecord>) -> (r: Result<RunDto, ApiError>)
    ensures
        match found {
            Some(rec) => r is Ok && r->Ok_0.shows(rec),
            None => r is Err && is_not_found(r->Err_0, "run_not_found"@, "no run with id "@ + uuid_text(id)),
        },
{
    match found {
        Some(rec) => Ok(RunDto::from_record(&rec)),
        None => Err(run_not_found(id)),
    }
}

} // verus!
