//! What a worker does with a job it claimed, as a sequence of decisions:
//! load the campaign, find its target, move the run from pending to
//! running, hand the budget to a runner, and record how the run ended.
//!
//! Each store or runner call is the caller's to make; this module decides,
//! from what the last call came back with, what comes next.

use vstd::prelude::*;

use crate::runner::{ProgressEvent, RunFinding, RunJob, RunOutcome, RunResult, RunnerError};
use crate::store::{CampaignRecord, NewFinding, RunFinish, RunFinishStatus, RunStatus};
use crate::targets::TargetRegistry;
use crate::text::same_text;

verus! {

/// One job slot: its name (recorded on the runs it starts) and the
/// sanitizer its runner was configured with.
#[derive(Debug, Clone)]
pub struct Worker {
    pub id: String,
    pub fuzz_sanitizer: Option<String>,
}

/// Whether findings of a runner with this sanitizer setting need the
/// thread sanitizer to reproduce.
pub open spec fn needs_thread_sanitizer(sanitizer: Option<String>) -> bool {
    sanitizer matches Some(s) && s@ == "thread"@
}

/// The budget a run gets from its campaign: the campaign's seconds, with
/// a negative value taken as none.
pub open spec fn budget_of(secs: i32) -> u32 {
    if secs < 0 {
        0
    } else {
        secs as u32
    }
}

/// The finding to store for one the runner reported.
pub open spec fn new_finding_spec(
    f: RunFinding,
    fuzz_target_name: Seq<char>,
    sanitizer: Option<String>,
    n: NewFinding,
) -> bool {
    &&& n.invariant == f.invariant
    &&& n.message == f.message
    &&& n.step_index == f.step_index
    &&& n.sequence == f.sequence
    &&& n.shrunk_input == f.shrunk_input
    &&& n.fuzz_target_name@ == fuzz_target_name
    &&& n.artifact_path == f.artifact_path
    &&& n.requires_sanitizer_thread == needs_thread_sanitizer(sanitizer)
}

/// How a run ends given what the runner came back with: a result keeps its
/// outcome, iterations, log tail and findings (each stamped for storage);
/// a runner error fails the run with no iterations, the error's text as
/// the log and no findings.
pub open spec fn finish_spec(
    result: Result<RunResult, RunnerError>,
    fuzz_target_name: Seq<char>,
    sanitizer: Option<String>,
    r: RunFinish,
) -> bool {
    match result {
        Ok(rr) => {
            &&& r.status == (match rr.outcome {
                RunOutcome::Completed => RunFinishStatus::Completed,
                RunOutcome::Cancelled => RunFinishStatus::Cancelled,
            })
            &&& r.iterations == rr.iterations
            &&& r.log_tail == rr.log_tail
            &&& r.findings@.len() == rr.findings@.len()
            &&& forall|i: int|
                0 <= i < rr.findings@.len() ==> new_finding_spec(
                    rr.findings@[i],
                    fuzz_target_name,
                    sanitizer,
                    #[trigger] r.findings@[i],
                )
        },
        Err(e) => {
            &&& r.status == RunFinishStatus::Failed
            &&& r.iterations == 0
            &&& r.log_tail matches Some(t) && t@ == e.spec_text()
            &&& r.findings@.len() == 0
        },
    }
}

/// Why a worker let a claimed job go without running it.
#[derive(Debug, Clone)]
pub enum SkipReason {
    /// The campaign the job names does not exist.
    MissingCampaign,
    /// The campaign could not be loaded; the text is the store's error.
    CampaignLoadFailed(String),
    /// The campaign's target is not in the registry; the text is its id.
    UnknownTarget(String),
    /// The run is not pending any more, most likely cancelled before it
    /// was claimed.
    NotPending,
    /// The run could not be started; the text is the store's error.
    StartFailed(String),
    /// The event does not answer the step the job is at.
    OutOfOrder,
}

/// Where a claimed job is.
#[derive(Debug)]
pub enum ProcessState {
    /// Waiting for the campaign to be loaded.
    LoadingCampaign { campaign_id: u128, run_id: u128 },
    /// Waiting for the run to move from pending to running.
    Starting { job: RunJob },
    /// Waiting for the runner to finish the job.
    Running { run_id: u128, fuzz_target_name: String },
    /// Waiting for the run's end to be stored.
    Finishing { run_id: u128 },
    /// Nothing more to do.
    Done,
}

/// What the last call came back with.
#[derive(Debug)]
pub enum ProcessEvent {
    CampaignLoaded(Result<Option<CampaignRecord>, String>),
    RunStarted(Result<bool, String>),
    RunnerFinished(Result<RunResult, RunnerError>),
    FinishStored(Result<(), String>),
}

/// What to do next.
#[derive(Debug)]
pub enum ProcessAction {
    /// Load this campaign.
    LoadCampaign(u128),
    /// Move this run from pending to running, on behalf of this worker.
    StartRun { run_id: u128, worker_id: String },
    /// Announce `announce` on the run's progress channel, then run `job`.
    Run { job: RunJob, announce: ProgressEvent },
    /// Announce `announce`, then store how the run ended.
    Finish { run_id: u128, finish: RunFinish, announce: ProgressEvent },
    /// Close the run's progress channel; the job is done. The text is the
    /// store's error if the end could not be stored.
    Close { run_id: u128, store_error: Option<String> },
    /// Let the job go.
    Skip(SkipReason),
}

impl Worker {
    pub fn new(id: String, fuzz_sanitizer: Option<String>) -> (r: Self)
        ensures
            r.id == id,
            r.fuzz_sanitizer == fuzz_sanitizer,
    {
        Worker { id, fuzz_sanitizer }
    }

    /// The finding stored for one the runner reported: the same finding,
    /// stamped with the fuzz target it came from and whether this worker's
    /// sanitizer was the thread sanitizer.
    pub fn to_new_finding(&self, finding: RunFinding, fuzz_target_name: &str) -> (r: NewFinding)
        ensures
            new_finding_spec(finding, fuzz_target_name@, self.fuzz_sanitizer, r),
    {
        let thread = match &self.fuzz_sanitizer {
            Some(s) => same_text(s.as_str(), "thread"),
            None => false,
        };
        NewFinding {
            invariant: finding.invariant,
            message: finding.message,
            step_index: finding.step_index,
            sequence: finding.sequence,
            shrunk_input: finding.shrunk_input,
            fuzz_target_name: fuzz_target_name.to_string(),
            artifact_path: finding.artifact_path,
            requires_sanitizer_thread: thread,
        }
    }

    /// How a run ends given what the runner came back with. A result keeps
    /// its outcome (completed or cancelled), iterations, log tail and
    /// findings; a runner error fails the run with no iterations, the
    /// error's text as the log and no findings.
    pub fn finish_for(&self, result: Result<RunResult, RunnerError>, fuzz_target_name: &str) -> (r:
        RunFinish)
        ensures
            finish_spec(result, fuzz_target_name@, self.fuzz_sanitizer, r),
    {
        match result {
            Ok(rr) => {
                let status = match rr.outcome {
                    RunOutcome::Completed => RunFinishStatus::Completed,
                    RunOutcome::Cancelled => RunFinishStatus::Cancelled,
                };
                let ghost reported = rr.findings@;
                let mut source = rr.findings;
                let mut findings: Vec<NewFinding> = Vec::new();
                let mut taken: Vec<RunFinding> = Vec::new();
                // Take the findings out from the back, then store them front first.
                while source.len() > 0
                    invariant
                        source@.len() + taken@.len() == reported.len(),
                        forall|k: int| 0 <= k < source@.len() ==> source@[k] == reported[k],
                        forall|k: int|
                            0 <= k < taken@.len() ==> taken@[k] == reported[reported.len() - 1 - k],
                    decreases source@.len(),
                {
                    let f = source.pop().unwrap();
                    taken.push(f);
                }
                while taken.len() > 0
                    invariant
                        findings@.len() + taken@.len() == reported.len(),
                        forall|k: int|
                            0 <= k < taken@.len() ==> taken@[k] == reported[reported.len() - 1 - k],
                        forall|k: int|
                            0 <= k < findings@.len() ==> new_finding_spec(
                                reported[k],
                                fuzz_target_name@,
                                self.fuzz_sanitizer,
                                #[trigger] findings@[k],
                            ),
                    decreases taken@.len(),
                {
                    let f = taken.pop().unwrap();
                    let n = self.to_new_finding(f, fuzz_target_name);
                    findings.push(n);
                }
                RunFinish { status, iterations: rr.iterations, log_tail: rr.log_tail, findings }
            },
            Err(e) => RunFinish {
                status: RunFinishStatus::Failed,
                iterations: 0,
                log_tail: Some(e.to_string()),
                findings: Vec::new(),
            },
        }
    }

    /// The first step for a claimed job: load its campaign.
    pub fn begin(&self, campaign_id: u128, run_id: u128) -> (r: (ProcessState, ProcessAction))
        ensures
            r.0 == (ProcessState::LoadingCampaign { campaign_id, run_id }),
            r.1 == ProcessAction::LoadCampaign(campaign_id),
    {
        (ProcessState::LoadingCampaign { campaign_id, run_id }, ProcessAction::LoadCampaign(campaign_id))
    }

    /// The next step of a job, from where it is and what the last call came
    /// back with.
    ///
    /// A loaded campaign whose target is registered leads to starting the
    /// run; a missing campaign, a load error or an unknown target lets the
    /// job go. A run that started is announced `Running` and handed to the
    /// runner with its target's fuzz target, the campaign's invariants and
    /// its budget (negative taken as zero); a run that is no longer pending,
    /// or that could not be started, is never run. Whatever the runner came
    /// back with is announced as the run's final status and stored (see
    /// `finish_for`); once stored, the progress channel is closed. An event
    /// that does not answer the current step ends the job without acting.
    pub fn step(&self, targets: &TargetRegistry, state: ProcessState, event: ProcessEvent) -> (r: (
        ProcessState,
        ProcessAction,
    ))
        ensures
            match (state, event) {
                (
                    ProcessState::LoadingCampaign { campaign_id, run_id },
                    ProcessEvent::CampaignLoaded(loaded),
                ) => match loaded {
                    Ok(Some(c)) => if exists|i: int|
                        0 <= i < targets@.len() && #[trigger] targets@[i].id@ == c.target_id@ {
                        &&& r.0 matches ProcessState::Starting { job }
                        &&& r.1 matches ProcessAction::StartRun { run_id: rid, worker_id }
                        &&& rid == run_id
                        &&& worker_id@ == self.id@
                        &&& job.run_id == run_id
                        &&& job.campaign_id == campaign_id
                        &&& exists|i: int|
                            0 <= i < targets@.len() && #[trigger] targets@[i].id@ == c.target_id@
                                && job.fuzz_target_name@ == targets@[i].fuzz_target_name@
                        &&& job.invariant_ids@ == c.invariant_ids@
                        &&& job.time_budget_secs == budget_of(c.time_budget_secs)
                    } else {
                        &&& r.0 is Done
                        &&& r.1 matches ProcessAction::Skip(SkipReason::UnknownTarget(t))
                        &&& t@ == c.target_id@
                    },
                    Ok(None) => r.0 is Done && r.1 matches ProcessAction::Skip(
                        SkipReason::MissingCampaign,
                    ),
                    Err(e) => r.0 is Done && (r.1 matches ProcessAction::Skip(
                        SkipReason::CampaignLoadFailed(m),
                    ) && m == e),
                },
                (ProcessState::Starting { job }, ProcessEvent::RunStarted(started)) => match started {
                    Ok(true) => {
                        &&& r.0 matches ProcessState::Running { run_id, fuzz_target_name }
                        &&& run_id == job.run_id
                        &&& fuzz_target_name@ == job.fuzz_target_name@
                        &&& r.1 matches ProcessAction::Run { job: j, announce }
                        &&& j.run_id == job.run_id
                        &&& j.campaign_id == job.campaign_id
                        &&& j.fuzz_target_name@ == job.fuzz_target_name@
                        &&& j.invariant_ids@ == job.invariant_ids@
                        &&& j.time_budget_secs == job.time_budget_secs
                        &&& announce == ProgressEvent::Status(RunStatus::Running)
                    },
                    Ok(false) => r.0 is Done && r.1 matches ProcessAction::Skip(
                        SkipReason::NotPending,
                    ),
                    Err(e) => r.0 is Done && (r.1 matches ProcessAction::Skip(
                        SkipReason::StartFailed(m),
                    ) && m == e),
                },
                (
                    ProcessState::Running { run_id, fuzz_target_name },
                    ProcessEvent::RunnerFinished(result),
                ) => {
                    &&& r.0 == (ProcessState::Finishing { run_id })
                    &&& r.1 matches ProcessAction::Finish { run_id: rid, finish, announce }
                    &&& rid == run_id
                    &&& announce == ProgressEvent::Status(finish.status.spec_run_status())
                    &&& finish_spec(result, fuzz_target_name@, self.fuzz_sanitizer, finish)
                },
                (ProcessState::Finishing { run_id }, ProcessEvent::FinishStored(stored)) => {
                    &&& r.0 is Done
                    &&& r.1 matches ProcessAction::Close { run_id: rid, store_error }
                    &&& rid == run_id
                    &&& store_error == (match stored {
                        Ok(()) => None,
                        Err(e) => Some(e),
                    })
                },
                _ => r.0 is Done && r.1 matches ProcessAction::Skip(SkipReason::OutOfOrder),
            },
    {
        match state {
            ProcessState::LoadingCampaign { campaign_id, run_id } => match event {
                ProcessEvent::CampaignLoaded(loaded) => match loaded {
                    Ok(Some(c)) => match targets.get(c.target_id.as_str()) {
                        Some(t) => {
                            let job = RunJob {
                                run_id,
                                campaign_id,
                                fuzz_target_name: t.fuzz_target_name.clone(),
                                invariant_ids: c.invariant_ids,
                                time_budget_secs: if c.time_budget_secs < 0 {
                                    0
                                } else {
                                    c.time_budget_secs as u32
                                },
                            };
                            (
                                ProcessState::Starting { job },
                                ProcessAction::StartRun { run_id, worker_id: self.id.clone() },
                            )
                        },
                        None => (
                            ProcessState::Done,
                            ProcessAction::Skip(SkipReason::UnknownTarget(c.target_id)),
                        ),
                    },
                    Ok(None) => (ProcessState::Done, ProcessAction::Skip(SkipReason::MissingCampaign)),
                    Err(e) => (
                        ProcessState::Done,
                        ProcessAction::Skip(SkipReason::CampaignLoadFailed(e)),
                    ),
                },
                _ => (ProcessState::Done, ProcessAction::Skip(SkipReason::OutOfOrder)),
            },
            ProcessState::Starting { job } => match event {
                ProcessEvent::RunStarted(started) => match started {
                    Ok(true) => {
                        let run_id = job.run_id;
                        let fuzz_target_name = job.fuzz_target_name.clone();
                        (
                            ProcessState::Running { run_id, fuzz_target_name },
                            ProcessAction::Run {
                                job,
                                announce: ProgressEvent::Status(RunStatus::Running),
                            },
                        )
                    },
                    Ok(false) => (ProcessState::Done, ProcessAction::Skip(SkipReason::NotPending)),
                    Err(e) => (ProcessState::Done, ProcessAction::Skip(SkipReason::StartFailed(e))),
                },
                _ => (ProcessState::Done, ProcessAction::Skip(SkipReason::OutOfOrder)),
            },
            ProcessState::Running { run_id, fuzz_target_name } => match event {
                ProcessEvent::RunnerFinished(result) => {
                    let finish = self.finish_for(result, fuzz_target_name.as_str());
                    let announce = ProgressEvent::Status(finish.status.run_status());
                    (ProcessState::Finishing { run_id }, ProcessAction::Finish { run_id, finish, announce })
                },
                _ => (ProcessState::Done, ProcessAction::Skip(SkipReason::OutOfOrder)),
            },
            ProcessState::Finishing { run_id } => match event {
                ProcessEvent::FinishStored(stored) => {
                    let store_error = match stored {
                        Ok(()) => None,
                        Err(e) => Some(e),
                    };
                    (ProcessState::Done, ProcessAction::Close { run_id, store_error })
                },
                _ => (ProcessState::Done, ProcessAction::Skip(SkipReason::OutOfOrder)),
            },
            ProcessState::Done => (ProcessState::Done, ProcessAction::Skip(SkipReason::OutOfOrder)),
        }
    }
}

} // verus!
