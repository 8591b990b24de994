//! The wire shapes of findings, and the answers to requests for them.

use vstd::prelude::*;

use crate::api::error::ApiError;
use crate::api::runs::{is_not_found, run_not_found};
use crate::ids::{id_text, uuid_text};
use crate::store::{FindingRecord, FindingStep, RunRecord};
use crate::text::push_str;

verus! {

/// A finding as listed under its run.
#[derive(Debug, Clone)]
pub struct FindingSummaryDto {
    pub id: String,
    pub run_id: String,
    pub invariant: String,
    pub message: String,
    pub step_index: i32,
    /// Nanoseconds since the Unix epoch.
    pub created_at: i128,
}

/// What reproducing a finding takes.
#[derive(Debug, Clone)]
pub struct ReproInfoDto {
    pub fuzz_target_name: String,
    pub artifact_path: String,
    pub requires_sanitizer_thread: bool,
}

/// A finding in full.
#[derive(Debug, Clone)]
pub struct FindingDto {
    pub id: String,
    pub run_id: String,
    pub invariant: String,
    pub message: String,
    pub step_index: i32,
    /// Nanoseconds since the Unix epoch.
    pub created_at: i128,
    pub campaign_id: String,
    pub target_id: String,
    pub sequence: Vec<FindingStep>,
    pub repro: ReproInfoDto,
}

impl FindingSummaryDto {
    pub open spec fn shows(self, f: FindingRecord) -> bool {
        &&& self.id@ == uuid_text(f.id)
        &&& self.run_id@ == uuid_text(f.run_id)
        &&& self.invariant == f.invariant
        &&& self.message == f.message
        &&& self.step_index == f.step_index
        &&& self.created_at == f.created_at
    }

    pub fn from_record(f: &FindingRecord) -> (d: Self)
        ensures
            d.shows(*f),
    {
        FindingSummaryDto {
            id: id_text(f.id),
            run_id: id_text(f.run_id),
            invariant: f.invariant.clone(),
            message: f.message.clone(),
            step_index: f.step_index,
            created_at: f.created_at,
        }
    }
}

impl FindingDto {
    pub open spec fn shows(self, f: FindingRecord) -> bool {
        &&& self.id@ == uuid_text(f.id)
        &&& self.run_id@ == uuid_text(f.run_id)
        &&& self.invariant == f.invariant
        &&& self.message == f.message
        &&& self.step_index == f.step_index
        &&& self.created_at == f.created_at
        &&& self.campaign_id@ == uuid_text(f.campaign_id)
        &&& self.target_id == f.target_id
        &&& self.sequence@.len() == f.sequence@.len()
        &&& self.repro.fuzz_target_name == f.fuzz_target_name
        &&& self.repro.artifact_path == f.artifact_path
        &&& self.repro.requires_sanitizer_thread == f.requires_sanitizer_thread
    }

    pub fn from_record(f: &FindingRecord) -> (d: Self)
        ensures
            d.shows(*f),
    {
        FindingDto {
            id: id_text(f.id),
            run_id: id_text(f.run_id),
            invariant: f.invariant.clone(),
            message: f.message.clone(),
            step_index: f.step_index,
            created_at: f.created_at,
            campaign_id: id_text(f.campaign_id),
            target_id: f.target_id.clone(),
            sequence: f.sequence.clone(),
            repro: ReproInfoDto {
                fuzz_target_name: f.fuzz_target_name.clone(),
                artifact_path: f.artifact_path.clone(),
                requires_sanitizer_thread: f.requires_sanitizer_thread,
            },
        }
    }
}

/// The answer to a request for run `run_id`'s findings, given whether the
/// store found the run and the findings it listed: 404 if there is no such
/// run (so "no findings yet" and "no such run" differ), else each finding's
/// summary, in the order listed.
pub fn list_findings_for_run(run_id: u128, run: Option<RunRecord>, findings: &Vec<FindingRecord>) -> (r:
    Result<Vec<FindingSummaryDto>, ApiError>)
    ensures
        run is None ==> r is Err && is_not_found(
            r->Err_0,
            "run_not_found"@,
            "no run with id "@ + uuid_text(run_id),
        ),
        run is Some ==> r is Ok && r->Ok_0@.len() == findings@.len() && forall|i: int|
            0 <= i < findings@.len() ==> #[trigger] r->Ok_0@[i].shows(findings@[i]),
{
    if run.is_none() {
        return Err(run_not_found(run_id));
    }
    let mut out: Vec<FindingSummaryDto> = Vec::new();
    let mut i: usize = 0;
    while i < findings.len()
        invariant
            i <= findings@.len(),
            out@.len() == i,
            forall|k: int| 0 <= k < i ==> #[trigger] out@[k].shows(findings@[k]),
        decreases findings.len() - i,
    {
        out.push(FindingSummaryDto::from_record(&findings[i]));
        i = i + 1;
    }
    Ok(out)
}

/// The answer to a request for finding `id`, given what the store found:
/// the finding in full, or 404 `finding_not_found`, "no finding with id
/// {id}".
pub fn get_finding(id: u128, found: Option<FindingRecord>) -> (r: Result<FindingDto, ApiError>)
    ensures
        match found {
            Some(f) => r is Ok && r->Ok_0.shows(f),
            None => r is Err && is_not_found(
                r->Err_0,
                "finding_not_found"@,
                "no finding with id "@ + uuid_text(id),
            ),
        },
{
    match found {
        Some(f) => Ok(FindingDto::from_record(&f)),
        None => {
            let mut m = String::from_str("no finding with id ");
            let t = id_text(id);
            push_str(&mut m, t.as_str());
            Err(ApiError::not_found("finding_not_found", m))
        },
    }
}

} // verus!
