//! What the backend persists: campaigns, their one run each, the job queue
//! entry that hands the run to a worker, and the findings a run produced.
//!
//! Ids are the 128 bits of a UUID; instants are nanoseconds since the Unix
//! epoch (UTC).

use vstd::prelude::*;

verus! {

/// A campaign's status. It starts `Queued` (where its run starts
/// `Pending`: deliberately different words for the same moment).
#[derive(Debug, Clone, Copy, PartialEq, Eq, Structural)]
pub enum CampaignStatus {
    Queued,
    Running,
    Completed,
    Cancelled,
    Failed,
}

impl CampaignStatus {
    pub open spec fn spec_is_terminal(self) -> bool {
        self is Completed || self is Cancelled || self is Failed
    }

    /// Whether nothing further happens to a campaign in this status:
    /// completed, cancelled or failed.
    #[verifier::when_used_as_spec(spec_is_terminal)]
    pub fn is_terminal(self) -> (r: bool)
        ensures
            r == self.spec_is_terminal(),
    {
        match self {
            CampaignStatus::Completed | CampaignStatus::Cancelled | CampaignStatus::Failed => true,
            _ => false,
        }
    }
}

/// A run's status; it starts `Pending`.
#[derive(Debug, Clone, Copy, PartialEq, Eq, Structural)]
pub enum RunStatus {
    Pending,
    Running,
    Completed,
    Cancelled,
    Failed,
}

/// What creating a campaign takes.
#[derive(Debug, Clone)]
pub struct NewCampaign {
    pub target_id: String,
    pub name: String,
    pub invariant_ids: Vec<String>,
    pub time_budget_secs: i32,
}

#[derive(Debug)]
pub struct CampaignRecord {
    pub id: u128,
    pub target_id: String,
    pub name: String,
    pub invariant_ids: Vec<String>,
    pub time_budget_secs: i32,
    pub status: CampaignStatus,
    /// The one run this campaign started when it was created.
    pub run_id: u128,
    pub created_at: i128,
}

/// Which campaigns a listing returns, and which page of them.
#[derive(Debug, Clone, Default)]
pub struct CampaignFilter {
    pub status: Option<CampaignStatus>,
    pub target_id: Option<String>,
    pub since: Option<i128>,
    pub until: Option<i128>,
    pub limit: i64,
    pub offset: i64,
}

/// A job queue entry a worker claimed.
#[derive(Debug, Clone, Copy)]
pub struct ClaimedJob {
    pub job_id: u128,
    pub campaign_id: u128,
    pub run_id: u128,
    pub attempts: i32,
}

/// The detail of a run, with the elapsed time and the number of findings
/// computed when it is read.
#[derive(Debug, Clone)]
pub struct RunRecord {
    pub id: u128,
    pub campaign_id: u128,
    pub target_id: String,
    pub status: RunStatus,
    pub time_budget_secs: i32,
    pub elapsed_secs: i64,
    pub iterations: i64,
    pub findings_count: i64,
    pub started_at: Option<i128>,
    pub finished_at: Option<i128>,
}

/// One step of a finding's reproduction sequence.
#[derive(Debug)]
pub struct FindingStep {
    pub index: u32,
    pub method: String,
    pub args: Vec<FindingStepArg>,
    pub authorized_by: Vec<String>,
    pub advance_time_secs: Option<u32>,
    pub outcome: FindingStepOutcome,
}

#[derive(Debug)]
pub struct FindingStepArg {
    pub name: String,
    pub value: String,
}

/// How one step of a reproduction sequence ended.
#[derive(Debug)]
pub enum FindingStepOutcome {
    Success,
    DeclaredError { code: u32 },
    Rejected { detail: String },
    UndeclaredPanic { detail: String },
}

/// A finding as a run reports it, before it is stored.
#[derive(Debug, Clone)]
pub struct NewFinding {
    pub invariant: String,
    pub message: String,
    pub step_index: i32,
    pub sequence: Vec<FindingStep>,
    pub shrunk_input: Option<Vec<u8>>,
    pub fuzz_target_name: String,
    pub artifact_path: String,
    pub requires_sanitizer_thread: bool,
}

/// A stored finding, with the campaign and target it belongs to.
#[derive(Debug)]
pub struct FindingRecord {
    pub id: u128,
    pub run_id: u128,
    pub campaign_id: u128,
    pub target_id: String,
    pub invariant: String,
    pub message: String,
    pub step_index: i32,
    pub sequence: Vec<FindingStep>,
    pub fuzz_target_name: String,
    pub artifact_path: String,
    pub requires_sanitizer_thread: bool,
    pub created_at: i128,
}

impl CampaignRecord {
    /// The two records hold the same campaign.
    pub open spec fn same(self, o: CampaignRecord) -> bool {
        &&& self.id == o.id
        &&& self.target_id == o.target_id
        &&& self.name == o.name
        &&& self.invariant_ids@ == o.invariant_ids@
        &&& self.time_budget_secs == o.time_budget_secs
        &&& self.status == o.status
        &&& self.run_id == o.run_id
        &&& self.created_at == o.created_at
    }
}

impl Clone for CampaignRecord {
    fn clone(&self) -> (r: Self)
        ensures
            r.same(*self),
    {
        CampaignRecord {
            id: self.id,
            target_id: self.target_id.clone(),
            name: self.name.clone(),
            invariant_ids: self.invariant_ids.clone(),
            time_budget_secs: self.time_budget_secs,
            status: self.status,
            run_id: self.run_id,
            created_at: self.created_at,
        }
    }
}

impl Clone for FindingStepArg {
    fn clone(&self) -> (r: Self)
        ensures
            r == *self,
    {
        FindingStepArg { name: self.name.clone(), value: self.value.clone() }
    }
}

impl Clone for FindingStepOutcome {
    fn clone(&self) -> (r: Self)
        ensures
            r == *self,
    {
        match self {
            FindingStepOutcome::Success => FindingStepOutcome::Success,
            FindingStepOutcome::DeclaredError { code } => FindingStepOutcome::DeclaredError {
                code: *code,
            },
            FindingStepOutcome::Rejected { detail } => FindingStepOutcome::Rejected {
                detail: detail.clone(),
            },
            FindingStepOutcome::UndeclaredPanic { detail } => FindingStepOutcome::UndeclaredPanic {
                detail: detail.clone(),
            },
        }
    }
}

impl FindingStep {
    /// The two hold the same step.
    pub open spec fn same(self, o: FindingStep) -> bool {
        &&& self.index == o.index
        &&& self.method == o.method
        &&& self.args@ == o.args@
        &&& self.authorized_by@ == o.authorized_by@
        &&& self.advance_time_secs == o.advance_time_secs
        &&& self.outcome == o.outcome
    }
}

impl Clone for FindingStep {
    fn clone(&self) -> (r: Self)
        ensures
            r.same(*self),
    {
        let args = self.args.clone();
        assert(args@ =~= self.args@);
        let authorized_by = self.authorized_by.clone();
        assert(authorized_by@ =~= self.authorized_by@);
        FindingStep {
            index: self.index,
            method: self.method.clone(),
            args,
            authorized_by,
            advance_time_secs: self.advance_time_secs,
            outcome: self.outcome.clone(),
        }
    }
}

/// Two reproduction sequences hold the same steps.
pub open spec fn same_steps(a: Seq<FindingStep>, b: Seq<FindingStep>) -> bool {
    a.len() == b.len() && forall|i: int| 0 <= i < a.len() ==> #[trigger] a[i].same(b[i])
}

impl FindingRecord {
    /// The two records hold the same finding.
    pub open spec fn same(self, o: FindingRecord) -> bool {
        &&& self.id == o.id
        &&& self.run_id == o.run_id
        &&& self.campaign_id == o.campaign_id
        &&& self.target_id == o.target_id
        &&& self.invariant == o.invariant
        &&& self.message == o.message
        &&& self.step_index == o.step_index
        &&& same_steps(self.sequence@, o.sequence@)
        &&& self.fuzz_target_name == o.fuzz_target_name
        &&& self.artifact_path == o.artifact_path
        &&& self.requires_sanitizer_thread == o.requires_sanitizer_thread
        &&& self.created_at == o.created_at
    }
}

impl Clone for FindingRecord {
    fn clone(&self) -> (r: Self)
        ensures
            r.same(*self),
    {
        FindingRecord {
            id: self.id,
            run_id: self.run_id,
            campaign_id: self.campaign_id,
            target_id: self.target_id.clone(),
            invariant: self.invariant.clone(),
            message: self.message.clone(),
            step_index: self.step_index,
            sequence: self.sequence.clone(),
            fuzz_target_name: self.fuzz_target_name.clone(),
            artifact_path: self.artifact_path.clone(),
            requires_sanitizer_thread: self.requires_sanitizer_thread,
            created_at: self.created_at,
        }
    }
}

/// How a run ended, from the worker's point of view; `Failed` covers a
/// runner that could not complete.
#[derive(Debug, Clone, Copy, PartialEq, Eq, Structural)]
pub enum RunFinishStatus {
    Completed,
    Cancelled,
    Failed,
}

impl RunFinishStatus {
    pub open spec fn spec_run_status(self) -> RunStatus {
        match self {
            RunFinishStatus::Completed => RunStatus::Completed,
            RunFinishStatus::Cancelled => RunStatus::Cancelled,
            RunFinishStatus::Failed => RunStatus::Failed,
        }
    }

    pub open spec fn spec_campaign_status(self) -> CampaignStatus {
        match self {
            RunFinishStatus::Completed => CampaignStatus::Completed,
            RunFinishStatus::Cancelled => CampaignStatus::Cancelled,
            RunFinishStatus::Failed => CampaignStatus::Failed,
        }
    }

    /// The run status a run that ends this way takes.
    #[verifier::when_used_as_spec(spec_run_status)]
    pub fn run_status(self) -> (r: RunStatus)
        ensures
            r == self.spec_run_status(),
    {
        match self {
            RunFinishStatus::Completed => RunStatus::Completed,
            RunFinishStatus::Cancelled => RunStatus::Cancelled,
            RunFinishStatus::Failed => RunStatus::Failed,
        }
    }

    /// The campaign status a campaign whose run ends this way takes.
    #[verifier::when_used_as_spec(spec_campaign_status)]
    pub fn campaign_status(self) -> (r: CampaignStatus)
        ensures
            r == self.spec_campaign_status(),
    {
        match self {
            RunFinishStatus::Completed => CampaignStatus::Completed,
            RunFinishStatus::Cancelled => CampaignStatus::Cancelled,
            RunFinishStatus::Failed => CampaignStatus::Failed,
        }
    }
}

/// Every way a run can end leaves its campaign in a terminal status.
pub proof fn lemma_finished_campaigns_are_terminal(status: RunFinishStatus)
    ensures
        status.spec_campaign_status().spec_is_terminal(),
{
}

/// Everything closing out a run takes, whether the runner succeeded, was
/// cancelled or failed.
#[derive(Debug, Clone)]
pub struct RunFinish {
    pub status: RunFinishStatus,
    pub iterations: i64,
    pub log_tail: Option<String>,
    pub findings: Vec<NewFinding>,
}

} // verus!
