//! An in-memory store: what the backend persists, held in plain lists,
//! with the same lifecycle rules as the database-backed one.
//!
//! - Creating a campaign queues it, with its one run pending and one
//!   unclaimed job for that run.
//! - Cancelling a campaign that is not over cancels it and its run;
//!   cancelling one that is over changes nothing, so cancelling twice is
//!   no error.
//! - A worker claims the oldest unclaimed job whose run is still pending;
//!   a claimed job is never claimed again.
//! - Starting a run moves it from pending to running (and a queued
//!   campaign to running) and drops findings left by an earlier attempt;
//!   a run that is not pending is not started.
//! - Finishing a run always keeps its findings, but moves the run and its
//!   campaign to their final status only if the run is still running, so a
//!   cancellation that raced the worker stands.
//!
//! Ids are fresh random UUIDs and instants come from the system clock, as
//! the database's are.

use vstd::prelude::*;

use crate::ids::new_id;
use crate::instant::{clock_now, instant_of, nanos_since_epoch};
use crate::store::{
    CampaignFilter, CampaignRecord, CampaignStatus, ClaimedJob, FindingRecord, NewCampaign,
    NewFinding, RunFinish, RunFinishStatus, RunRecord, RunStatus,
};

verus! {

/// A stored run.
#[derive(Debug)]
pub struct RunRow {
    pub id: u128,
    pub campaign_id: u128,
    pub status: RunStatus,
    pub iterations: i64,
    pub started_at: Option<i128>,
    pub finished_at: Option<i128>,
    pub log_tail: Option<String>,
}

/// A stored job queue entry.
#[derive(Debug)]
pub struct JobRow {
    pub id: u128,
    pub campaign_id: u128,
    pub run_id: u128,
    pub claimed_by: Option<String>,
    pub attempts: i32,
}

/// What the store holds, in the order things were added.
pub struct StoreState {
    pub campaigns: Seq<CampaignRecord>,
    pub runs: Seq<RunRow>,
    pub jobs: Seq<JobRow>,
    pub findings: Seq<FindingRecord>,
}

/// The first position, from `k` on, whose item satisfies `p`.
pub open spec fn first_index<T>(s: Seq<T>, p: spec_fn(T) -> bool, k: int) -> Option<int>
    decreases s.len() - k,
{
    if k < 0 || k >= s.len() {
        None
    } else if p(s[k]) {
        Some(k)
    } else {
        first_index(s, p, k + 1)
    }
}

/// Where the first match lies, and that nothing before it matches.
pub proof fn lemma_first_index<T>(s: Seq<T>, p: spec_fn(T) -> bool, k: int)
    requires
        0 <= k,
    ensures
        match first_index(s, p, k) {
            Some(i) => k <= i < s.len() && p(s[i]) && forall|j: int| k <= j < i ==> !p(#[trigger] s[j]),
            None => forall|j: int| k <= j < s.len() ==> !p(#[trigger] s[j]),
        },
    decreases s.len() - k,
{
    if k < s.len() && !p(s[k]) {
        lemma_first_index(s, p, k + 1);
    }
}

/// Replacing an item by one that matches exactly when it did leaves the
/// first match where it was.
pub proof fn lemma_first_index_update<T>(s: Seq<T>, p: spec_fn(T) -> bool, k: int, at: int, v: T)
    requires
        0 <= k,
        0 <= at < s.len(),
        p(v) == p(s[at]),
    ensures
        first_index(s.update(at, v), p, k) == first_index(s, p, k),
    decreases s.len() - k,
{
    if k < s.len() {
        assert(p(s.update(at, v)[k]) == p(s[k]));
        lemma_first_index_update(s, p, k + 1, at, v);
    }
}

pub open spec fn campaign_id_is(id: u128) -> spec_fn(CampaignRecord) -> bool {
    |c: CampaignRecord| c.id == id
}

/// The campaign a read of `id` finds: the first stored one with that id.
pub open spec fn campaign_with_id(s: StoreState, id: u128) -> Option<CampaignRecord> {
    match first_index(s.campaigns, campaign_id_is(id), 0) {
        Some(i) => Some(s.campaigns[i]),
        None => None,
    }
}

pub open spec fn campaign_run_is(run_id: u128) -> spec_fn(CampaignRecord) -> bool {
    |c: CampaignRecord| c.run_id == run_id
}

pub open spec fn run_id_is(id: u128) -> spec_fn(RunRow) -> bool {
    |r: RunRow| r.id == id
}

pub open spec fn run_campaign_is(campaign_id: u128) -> spec_fn(RunRow) -> bool {
    |r: RunRow| r.campaign_id == campaign_id
}

pub open spec fn finding_id_is(id: u128) -> spec_fn(FindingRecord) -> bool {
    |f: FindingRecord| f.id == id
}

/// Whether some stored run with this id is pending.
pub open spec fn pending_run(runs: Seq<RunRow>, run_id: u128) -> bool {
    exists|i: int| 0 <= i < runs.len() && #[trigger] runs[i].id == run_id && runs[i].status
        == RunStatus::Pending
}

/// A job a worker may claim: unclaimed, for a run still pending.
pub open spec fn claimable(runs: Seq<RunRow>) -> spec_fn(JobRow) -> bool {
    |j: JobRow| j.claimed_by is None && pending_run(runs, j.run_id)
}

/// The instants the system clock can report, in nanoseconds.
pub open spec fn clock_instant(t: int) -> bool {
    -0x2000_0000_0000_0000 * 1_000_000_000 <= t <= 0x2000_0000_0000_0000 * 1_000_000_000
        + 2_000_000_000
}

pub open spec fn opt_clock_instant(t: Option<i128>) -> bool {
    match t {
        Some(x) => clock_instant(x as int),
        None => true,
    }
}

/// Whether some stored campaign started run `run_id`.
pub open spec fn has_campaign(cs: Seq<CampaignRecord>, run_id: u128) -> bool {
    exists|i: int| 0 <= i < cs.len() && (#[trigger] cs[i]).run_id == run_id
}

/// What always holds of the store: every run belongs to a stored campaign,
/// an unclaimed job was never attempted and a claimed one once, and every
/// instant came from the clock.
pub open spec fn store_wf(s: StoreState) -> bool {
    &&& forall|j: int| 0 <= j < s.runs.len() ==> has_campaign(s.campaigns, #[trigger] s.runs[j].id)
    &&& forall|k: int|
        0 <= k < s.jobs.len() ==> (#[trigger] s.jobs[k].claimed_by is None ==> s.jobs[k].attempts
            == 0) && 0 <= s.jobs[k].attempts <= 1
    &&& forall|i: int| 0 <= i < s.campaigns.len() ==> clock_instant(#[trigger] s.campaigns[i].created_at as int)
    &&& forall|i: int|
        0 <= i < s.runs.len() ==> opt_clock_instant(#[trigger] s.runs[i].started_at)
            && opt_clock_instant(s.runs[i].finished_at)
    &&& forall|i: int| 0 <= i < s.findings.len() ==> clock_instant(#[trigger] s.findings[i].created_at as int)
}

/// Runs keep their campaigns when no campaign loses its run and no run
/// changes its id, and every added run comes with its campaign.
proof fn lemma_runs_keep_campaigns(s: StoreState, t: StoreState)
    requires
        forall|j: int| 0 <= j < s.runs.len() ==> has_campaign(s.campaigns, #[trigger] s.runs[j].id),
        s.campaigns.len() <= t.campaigns.len(),
        forall|i: int| 0 <= i < s.campaigns.len() ==> #[trigger] t.campaigns[i].run_id == s.campaigns[i].run_id,
        s.runs.len() <= t.runs.len(),
        forall|j: int| 0 <= j < s.runs.len() ==> #[trigger] t.runs[j].id == s.runs[j].id,
        forall|j: int| s.runs.len() <= j < t.runs.len() ==> has_campaign(t.campaigns, #[trigger] t.runs[j].id),
    ensures
        forall|j: int| 0 <= j < t.runs.len() ==> has_campaign(t.campaigns, #[trigger] t.runs[j].id),
{
    assert forall|j: int| 0 <= j < t.runs.len() implies has_campaign(t.campaigns, #[trigger] t.runs[j].id) by {
        if j < s.runs.len() {
            assert(has_campaign(s.campaigns, s.runs[j].id));
            let i = choose|i: int| 0 <= i < s.campaigns.len() && (#[trigger] s.campaigns[i]).run_id == s.runs[j].id;
            assert(t.campaigns[i].run_id == t.runs[j].id);
        }
    }
}

/// A stored run belongs to a stored campaign: some campaign names it.
proof fn lemma_run_has_campaign(s: StoreState, run_id: u128)
    requires
        store_wf(s),
        first_index(s.runs, run_id_is(run_id), 0) is Some,
    ensures
        first_index(s.campaigns, campaign_run_is(run_id), 0) is Some,
{
    lemma_first_index(s.runs, run_id_is(run_id), 0);
    lemma_first_index(s.campaigns, campaign_run_is(run_id), 0);
    let j = first_index(s.runs, run_id_is(run_id), 0)->0;
    assert(has_campaign(s.campaigns, s.runs[j].id));
    let i = choose|i: int| 0 <= i < s.campaigns.len() && (#[trigger] s.campaigns[i]).run_id == s.runs[j].id;
    assert(campaign_run_is(run_id)(s.campaigns[i]));
}

/// The campaign, run and job a new campaign adds, with these ids, created
/// at `now`.
pub open spec fn create_spec(
    s: StoreState,
    input: NewCampaign,
    campaign_id: u128,
    run_id: u128,
    job_id: u128,
    now: i128,
) -> (StoreState, CampaignRecord) {
    let record = CampaignRecord {
        id: campaign_id,
        target_id: input.target_id,
        name: input.name,
        invariant_ids: input.invariant_ids,
        time_budget_secs: input.time_budget_secs,
        status: CampaignStatus::Queued,
        run_id,
        created_at: now,
    };
    let run = RunRow {
        id: run_id,
        campaign_id,
        status: RunStatus::Pending,
        iterations: 0,
        started_at: None,
        finished_at: None,
        log_tail: None,
    };
    let job = JobRow { id: job_id, campaign_id, run_id, claimed_by: None, attempts: 0 };
    (
        StoreState {
            campaigns: s.campaigns.push(record),
            runs: s.runs.push(run),
            jobs: s.jobs.push(job),
            findings: s.findings,
        },
        record,
    )
}

/// The campaign with its status replaced.
pub open spec fn with_status(c: CampaignRecord, status: CampaignStatus) -> CampaignRecord {
    CampaignRecord {
        id: c.id,
        target_id: c.target_id,
        name: c.name,
        invariant_ids: c.invariant_ids,
        time_budget_secs: c.time_budget_secs,
        status,
        run_id: c.run_id,
        created_at: c.created_at,
    }
}

/// Cancelling campaign `id` at `now`: the store after it, and the campaign
/// as it then is (`None` if there is none). A campaign that is over is
/// left as it is; otherwise it and its run are cancelled, the run finishing
/// `now`.
pub open spec fn cancel_spec(s: StoreState, id: u128, now: i128) -> (StoreState, Option<CampaignRecord>) {
    match first_index(s.campaigns, campaign_id_is(id), 0) {
        None => (s, None),
        Some(i) => if s.campaigns[i].status.spec_is_terminal() {
            (s, Some(s.campaigns[i]))
        } else {
            let c = with_status(s.campaigns[i], CampaignStatus::Cancelled);
            let runs = match first_index(s.runs, run_campaign_is(id), 0) {
                None => s.runs,
                Some(j) => s.runs.update(
                    j,
                    RunRow {
                        id: s.runs[j].id,
                        campaign_id: s.runs[j].campaign_id,
                        status: RunStatus::Cancelled,
                        iterations: s.runs[j].iterations,
                        started_at: s.runs[j].started_at,
                        finished_at: Some(now),
                        log_tail: s.runs[j].log_tail,
                    },
                ),
            };
            (
                StoreState {
                    campaigns: s.campaigns.update(i, c),
                    runs,
                    jobs: s.jobs,
                    findings: s.findings,
                },
                Some(c),
            )
        },
    }
}

/// Claiming a job for `worker`: the oldest claimable job (see `claimable`)
/// becomes claimed by `worker`, one more attempt; `None` if there is none.
pub open spec fn claim_spec(s: StoreState, worker: String) -> (StoreState, Option<ClaimedJob>) {
    match first_index(s.jobs, claimable(s.runs), 0) {
        None => (s, None),
        Some(k) => {
            let j = s.jobs[k];
            let attempts = (j.attempts + 1) as i32;
            (
                StoreState {
                    campaigns: s.campaigns,
                    runs: s.runs,
                    jobs: s.jobs.update(
                        k,
                        JobRow {
                            id: j.id,
                            campaign_id: j.campaign_id,
                            run_id: j.run_id,
                            claimed_by: Some(worker),
                            attempts,
                        },
                    ),
                    findings: s.findings,
                },
                Some(ClaimedJob { job_id: j.id, campaign_id: j.campaign_id, run_id: j.run_id, attempts }),
            )
        },
    }
}

/// Whether a finding belongs to another run than `run_id`.
pub open spec fn not_of_run(run_id: u128) -> spec_fn(FindingRecord) -> bool {
    |f: FindingRecord| f.run_id != run_id
}

/// Starting run `run_id` at `now`: whether it started, and the store after.
/// Only a pending run starts: it becomes running, started `now`; the
/// findings of earlier attempts at it are dropped; its campaign, if
/// queued, becomes running.
pub open spec fn start_spec(s: StoreState, run_id: u128, now: i128) -> (StoreState, bool) {
    match first_index(s.runs, run_id_is(run_id), 0) {
        None => (s, false),
        Some(j) => if s.runs[j].status != RunStatus::Pending {
            (s, false)
        } else {
            let r = s.runs[j];
            let runs = s.runs.update(
                j,
                RunRow {
                    id: r.id,
                    campaign_id: r.campaign_id,
                    status: RunStatus::Running,
                    iterations: r.iterations,
                    started_at: Some(now),
                    finished_at: r.finished_at,
                    log_tail: r.log_tail,
                },
            );
            let campaigns = match first_index(s.campaigns, campaign_run_is(run_id), 0) {
                Some(i) => if s.campaigns[i].status == CampaignStatus::Queued {
                    s.campaigns.update(i, with_status(s.campaigns[i], CampaignStatus::Running))
                } else {
                    s.campaigns
                },
                None => s.campaigns,
            };
            (
                StoreState {
                    campaigns,
                    runs,
                    jobs: s.jobs,
                    findings: s.findings.filter(not_of_run(run_id)),
                },
                true,
            )
        },
    }
}

/// The record a new finding of run `run_id`, of campaign `c`, is stored as.
pub open spec fn finding_record(run_id: u128, c: CampaignRecord, n: NewFinding, id: u128, now: i128) -> FindingRecord {
    FindingRecord {
        id,
        run_id,
        campaign_id: c.id,
        target_id: c.target_id,
        invariant: n.invariant,
        message: n.message,
        step_index: n.step_index,
        sequence: n.sequence,
        fuzz_target_name: n.fuzz_target_name,
        artifact_path: n.artifact_path,
        requires_sanitizer_thread: n.requires_sanitizer_thread,
        created_at: now,
    }
}

/// Finishing run `run_id` at `now`, the new findings stored under `ids`,
/// created at `times`. The findings are always added, in order, each
/// under the campaign the run belongs to. The run (iterations, log tail,
/// final status, finished `now`) and its campaign (final status) change
/// only if the run is still running.
pub open spec fn finish_spec(
    s: StoreState,
    run_id: u128,
    finish: RunFinish,
    now: i128,
    ids: Seq<u128>,
    times: Seq<i128>,
) -> StoreState {
    let transitioned = match first_index(s.runs, run_id_is(run_id), 0) {
        Some(j) => s.runs[j].status == RunStatus::Running,
        None => false,
    };
    let runs = if transitioned {
        let j = first_index(s.runs, run_id_is(run_id), 0)->0;
        let r = s.runs[j];
        s.runs.update(
            j,
            RunRow {
                id: r.id,
                campaign_id: r.campaign_id,
                status: finish.status.spec_run_status(),
                iterations: finish.iterations,
                started_at: r.started_at,
                finished_at: Some(now),
                log_tail: finish.log_tail,
            },
        )
    } else {
        s.runs
    };
    let campaigns = if transitioned {
        match first_index(s.campaigns, campaign_run_is(run_id), 0) {
            Some(i) => s.campaigns.update(
                i,
                with_status(s.campaigns[i], finish.status.spec_campaign_status()),
            ),
            None => s.campaigns,
        }
    } else {
        s.campaigns
    };
    let c = campaigns[first_index(campaigns, campaign_run_is(run_id), 0)->0];
    let added = Seq::new(
        finish.findings@.len(),
        |k: int| finding_record(run_id, c, finish.findings@[k], ids[k], times[k]),
    );
    StoreState { campaigns, runs, jobs: s.jobs, findings: s.findings + added }
}

/// The positions below `n` whose items satisfy `p`, in order.
pub open spec fn matching_upto<T>(s: Seq<T>, p: spec_fn(T) -> bool, n: int) -> Seq<usize>
    decreases n,
{
    if n <= 0 {
        Seq::empty()
    } else if p(s[n - 1]) {
        matching_upto(s, p, n - 1).push((n - 1) as usize)
    } else {
        matching_upto(s, p, n - 1)
    }
}

/// Whether key `a` goes after key `b`: later keys first when `newest`,
/// earlier keys first otherwise.
pub open spec fn goes_after(a: i128, b: i128, newest: bool) -> bool {
    if newest {
        a < b
    } else {
        a > b
    }
}

/// Where position `x` goes into `sorted`: before the first entry, from
/// `k` on, that goes after it (so after every entry with the same key).
pub open spec fn slot(keys: Seq<i128>, sorted: Seq<usize>, x: usize, newest: bool, k: int) -> int
    decreases sorted.len() - k,
{
    if k < 0 || k >= sorted.len() {
        sorted.len() as int
    } else if goes_after(keys[sorted[k] as int], keys[x as int], newest) {
        k
    } else {
        slot(keys, sorted, x, newest, k + 1)
    }
}

/// The positions `idx` ordered by their keys (latest first when `newest`),
/// positions with equal keys keeping their order.
pub open spec fn sort_by_key(keys: Seq<i128>, idx: Seq<usize>, newest: bool) -> Seq<usize>
    decreases idx.len(),
{
    if idx.len() == 0 {
        Seq::empty()
    } else {
        let sorted = sort_by_key(keys, idx.drop_last(), newest);
        sorted.insert(slot(keys, sorted, idx.last(), newest, 0), idx.last())
    }
}

/// The creation instants of the campaigns.
pub open spec fn campaign_keys(cs: Seq<CampaignRecord>) -> Seq<i128> {
    Seq::new(cs.len(), |i: int| cs[i].created_at)
}

/// The creation instants of the findings.
pub open spec fn finding_keys(fs: Seq<FindingRecord>) -> Seq<i128> {
    Seq::new(fs.len(), |i: int| fs[i].created_at)
}

/// Whether a campaign passes a listing filter: its status, target and
/// creation instant (inclusive bounds) match those the filter names.
pub open spec fn campaign_matches(f: CampaignFilter) -> spec_fn(CampaignRecord) -> bool {
    |c: CampaignRecord|
        {
            &&& (f.status matches Some(st) ==> c.status == st)
            &&& (f.target_id matches Some(t) ==> c.target_id@ == t@)
            &&& (f.since matches Some(t) ==> c.created_at >= t)
            &&& (f.until matches Some(t) ==> c.created_at <= t)
        }
}

/// The positions of the campaigns a listing returns, newest first, before
/// paging.
pub open spec fn listed(cs: Seq<CampaignRecord>, f: CampaignFilter) -> Seq<usize> {
    sort_by_key(campaign_keys(cs), matching_upto(cs, campaign_matches(f), cs.len() as int), true)
}

/// Where a page starts: the offset (none if negative), at most the end.
pub open spec fn page_start(len: int, offset: i64) -> int {
    let o = if offset < 0 {
        0
    } else {
        offset as int
    };
    if o > len {
        len
    } else {
        o
    }
}

/// Where a page ends: `limit` past its start (none if negative), at most
/// the end.
pub open spec fn page_end(len: int, offset: i64, limit: i64) -> int {
    let l = if limit < 0 {
        0
    } else {
        limit as int
    };
    let e = page_start(len, offset) + l;
    if e > len {
        len
    } else {
        e
    }
}

/// Whether a finding belongs to run `run_id`.
pub open spec fn of_run(run_id: u128) -> spec_fn(FindingRecord) -> bool {
    |f: FindingRecord| f.run_id == run_id
}

/// How many whole seconds lie between two instants: none if the second is
/// not after the first.
pub open spec fn elapsed_secs(from: i128, to: i128) -> int {
    if to - from <= 0 {
        0
    } else {
        (to - from) / 1_000_000_000
    }
}

/// The store.
#[derive(Debug)]
pub struct MockStore {
    campaigns: Vec<CampaignRecord>,
    runs: Vec<RunRow>,
    jobs: Vec<JobRow>,
    findings: Vec<FindingRecord>,
}

impl View for MockStore {
    type V = StoreState;

    closed spec fn view(&self) -> StoreState {
        StoreState {
            campaigns: self.campaigns@,
            runs: self.runs@,
            jobs: self.jobs@,
            findings: self.findings@,
        }
    }
}

/// The current time, in nanoseconds since the epoch.
fn now_nanos() -> (r: i128)
    ensures
        clock_instant(r as int),
{
    let (secs, nanos) = clock_now();
    let r = nanos_since_epoch(secs, nanos);
    assert(clock_instant(instant_of(secs, nanos))) by (nonlinear_arith)
        requires
            -0x2000_0000_0000_0000 <= secs <= 0x2000_0000_0000_0000,
            0 <= nanos < 2_000_000_000,
    ;
    r
}

/// The position of the first campaign with this id.
fn find_campaign(cs: &Vec<CampaignRecord>, id: u128) -> (r: Option<usize>)
    ensures
        r matches Some(k) ==> k < cs@.len() && first_index(cs@, campaign_id_is(id), 0) == Some(k as int),
        r is None ==> first_index(cs@, campaign_id_is(id), 0) is None,
{
    proof {
        lemma_first_index(cs@, campaign_id_is(id), 0);
    }
    let mut k: usize = 0;
    while k < cs.len()
        invariant
            k <= cs@.len(),
            first_index(cs@, campaign_id_is(id), 0) == first_index(cs@, campaign_id_is(id), k as int),
        decreases cs.len() - k,
    {
        if cs[k].id == id {
            return Some(k);
        }
        k = k + 1;
    }
    None
}

/// The position of the first campaign whose run has this id.
fn find_campaign_of_run(cs: &Vec<CampaignRecord>, run_id: u128) -> (r: Option<usize>)
    ensures
        r matches Some(k) ==> k < cs@.len() && first_index(cs@, campaign_run_is(run_id), 0) == Some(k as int),
        r is None ==> first_index(cs@, campaign_run_is(run_id), 0) is None,
{
    proof {
        lemma_first_index(cs@, campaign_run_is(run_id), 0);
    }
    let mut k: usize = 0;
    while k < cs.len()
        invariant
            k <= cs@.len(),
            first_index(cs@, campaign_run_is(run_id), 0) == first_index(
                cs@,
                campaign_run_is(run_id),
                k as int,
            ),
        decreases cs.len() - k,
    {
        if cs[k].run_id == run_id {
            return Some(k);
        }
        k = k + 1;
    }
    None
}

/// The position of the first run with this id.
fn find_run(rs: &Vec<RunRow>, id: u128) -> (r: Option<usize>)
    ensures
        r matches Some(k) ==> k < rs@.len() && first_index(rs@, run_id_is(id), 0) == Some(k as int),
        r is None ==> first_index(rs@, run_id_is(id), 0) is None,
{
    proof {
        lemma_first_index(rs@, run_id_is(id), 0);
    }
    let mut k: usize = 0;
    while k < rs.len()
        invariant
            k <= rs@.len(),
            first_index(rs@, run_id_is(id), 0) == first_index(rs@, run_id_is(id), k as int),
        decreases rs.len() - k,
    {
        if rs[k].id == id {
            return Some(k);
        }
        k = k + 1;
    }
    None
}

/// The position of the first run of this campaign.
fn find_run_of_campaign(rs: &Vec<RunRow>, campaign_id: u128) -> (r: Option<usize>)
    ensures
        r matches Some(k) ==> k < rs@.len() && first_index(rs@, run_campaign_is(campaign_id), 0) == Some(k as int),
        r is None ==> first_index(rs@, run_campaign_is(campaign_id), 0) is None,
{
    proof {
        lemma_first_index(rs@, run_campaign_is(campaign_id), 0);
    }
    let mut k: usize = 0;
    while k < rs.len()
        invariant
            k <= rs@.len(),
            first_index(rs@, run_campaign_is(campaign_id), 0) == first_index(
                rs@,
                run_campaign_is(campaign_id),
                k as int,
            ),
        decreases rs.len() - k,
    {
        if rs[k].campaign_id == campaign_id {
            return Some(k);
        }
        k = k + 1;
    }
    None
}

/// The findings of other runs than `run_id`, in order.
fn without_run(findings: Vec<FindingRecord>, run_id: u128) -> (r: Vec<FindingRecord>)
    ensures
        r@ == findings@.filter(not_of_run(run_id)),
{
    let ghost all = findings@;
    let total = findings.len();
    let mut rest = findings;
    let mut reversed: Vec<FindingRecord> = Vec::new();
    while rest.len() > 0
        invariant
            rest@.len() + reversed@.len() == all.len(),
            all.len() == total,
            forall|k: int| 0 <= k < rest@.len() ==> rest@[k] == all[k],
            forall|k: int| 0 <= k < reversed@.len() ==> reversed@[k] == all[all.len() - 1 - k],
        decreases rest@.len(),
    {
        let f = rest.pop().unwrap();
        reversed.push(f);
    }
    let mut kept: Vec<FindingRecord> = Vec::new();
    let mut done: usize = 0;
    proof {
        reveal(Seq::filter);
        assert(all.take(0) =~= Seq::<FindingRecord>::empty());
    }
    while reversed.len() > 0
        invariant
            done + reversed@.len() == all.len(),
            forall|k: int| 0 <= k < reversed@.len() ==> reversed@[k] == all[all.len() - 1 - k],
            kept@ == all.take(done as int).filter(not_of_run(run_id)),
            all.len() == total,
        decreases reversed@.len(),
    {
        let f = reversed.pop().unwrap();
        proof {
            reveal(Seq::filter);
            assert(all.take(done + 1).drop_last() =~= all.take(done as int));
            assert(all.take(done + 1).last() == f);
        }
        if f.run_id != run_id {
            kept.push(f);
        }
        done = done + 1;
    }
    proof {
        assert(all.take(all.len() as int) =~= all);
    }
    kept
}

/// Whether key `a` goes after key `b` (see `goes_after`).
fn key_goes_after(a: i128, b: i128, newest: bool) -> (r: bool)
    ensures
        r == goes_after(a, b, newest),
{
    if newest {
        a < b
    } else {
        a > b
    }
}

/// Inserts position `x` where it goes into `sorted` (see `slot`).
fn insert_sorted(keys: &Vec<i128>, sorted: &mut Vec<usize>, x: usize, newest: bool)
    requires
        x < keys@.len(),
        forall|q: int| 0 <= q < old(sorted)@.len() ==> old(sorted)@[q] < keys@.len(),
    ensures
        final(sorted)@ == old(sorted)@.insert(slot(keys@, old(sorted)@, x, newest, 0), x),
{
    let mut k: usize = 0;
    while k < sorted.len() && !key_goes_after(keys[sorted[k]], keys[x], newest)
        invariant
            k <= sorted@.len(),
            x < keys@.len(),
            forall|q: int| 0 <= q < sorted@.len() ==> sorted@[q] < keys@.len(),
            slot(keys@, sorted@, x, newest, 0) == slot(keys@, sorted@, x, newest, k as int),
        decreases sorted.len() - k,
    {
        k = k + 1;
    }
    proof {
        assert(slot(keys@, sorted@, x, newest, k as int) == k);
    }
    sorted.insert(k, x);
}

/// The creation instants of the campaigns.
fn campaign_key_list(cs: &Vec<CampaignRecord>) -> (r: Vec<i128>)
    ensures
        r@ == campaign_keys(cs@),
{
    let mut r: Vec<i128> = Vec::new();
    let mut i: usize = 0;
    while i < cs.len()
        invariant
            i <= cs@.len(),
            r@ == campaign_keys(cs@).take(i as int),
        decreases cs.len() - i,
    {
        r.push(cs[i].created_at);
        i = i + 1;
        assert(r@ =~= campaign_keys(cs@).take(i as int));
    }
    assert(r@ =~= campaign_keys(cs@));
    r
}

/// The creation instants of the findings.
fn finding_key_list(fs: &Vec<FindingRecord>) -> (r: Vec<i128>)
    ensures
        r@ == finding_keys(fs@),
{
    let mut r: Vec<i128> = Vec::new();
    let mut i: usize = 0;
    while i < fs.len()
        invariant
            i <= fs@.len(),
            r@ == finding_keys(fs@).take(i as int),
        decreases fs.len() - i,
    {
        r.push(fs[i].created_at);
        i = i + 1;
        assert(r@ =~= finding_keys(fs@).take(i as int));
    }
    assert(r@ =~= finding_keys(fs@));
    r
}

/// Whether a campaign passes a listing filter.
fn passes(c: &CampaignRecord, f: &CampaignFilter) -> (r: bool)
    ensures
        r == campaign_matches(*f)(*c),
{
    let status_ok = match f.status {
        Some(st) => c.status == st,
        None => true,
    };
    let target_ok = match &f.target_id {
        Some(t) => crate::text::same_text(c.target_id.as_str(), t.as_str()),
        None => true,
    };
    let since_ok = match f.since {
        Some(t) => c.created_at >= t,
        None => true,
    };
    let until_ok = match f.until {
        Some(t) => c.created_at <= t,
        None => true,
    };
    status_ok && target_ok && since_ok && until_ok
}

/// A matching position is below the bound it was gathered under.
proof fn lemma_matching_below<T>(s: Seq<T>, p: spec_fn(T) -> bool, n: int)
    requires
        0 <= n <= s.len(),
    ensures
        forall|q: int| 0 <= q < matching_upto(s, p, n).len() ==> #[trigger] matching_upto(s, p, n)[q] < n,
    decreases n,
{
    if n > 0 {
        lemma_matching_below(s, p, n - 1);
        let prev = matching_upto(s, p, n - 1);
        if p(s[n - 1]) {
            assert forall|q: int|
                0 <= q < matching_upto(s, p, n).len() implies #[trigger] matching_upto(s, p, n)[q]
                < n by {
                if q < prev.len() {
                    assert(matching_upto(s, p, n)[q] == prev[q]);
                }
            }
        }
    }
}

/// Sorting keeps exactly the positions it was given (so they stay in range).
proof fn lemma_sorted_in_range(keys: Seq<i128>, idx: Seq<usize>, newest: bool, bound: int)
    requires
        forall|q: int| 0 <= q < idx.len() ==> #[trigger] idx[q] < bound,
    ensures
        sort_by_key(keys, idx, newest).len() == idx.len(),
        forall|q: int|
            0 <= q < sort_by_key(keys, idx, newest).len() ==> #[trigger] sort_by_key(keys, idx, newest)[q]
                < bound,
    decreases idx.len(),
{
    if idx.len() > 0 {
        let rest = idx.drop_last();
        assert forall|q: int| 0 <= q < rest.len() implies #[trigger] rest[q] < bound by {
            assert(rest[q] == idx[q]);
        }
        lemma_sorted_in_range(keys, rest, newest, bound);
        let sorted = sort_by_key(keys, rest, newest);
        lemma_slot_range(keys, sorted, idx.last(), newest, 0);
    }
}

/// A slot lies within the list (its end included).
proof fn lemma_slot_range(keys: Seq<i128>, sorted: Seq<usize>, x: usize, newest: bool, k: int)
    requires
        0 <= k,
    ensures
        0 <= slot(keys, sorted, x, newest, k) <= sorted.len(),
    decreases sorted.len() - k,
{
    if k < sorted.len() && !goes_after(keys[sorted[k] as int], keys[x as int], newest) {
        lemma_slot_range(keys, sorted, x, newest, k + 1);
    }
}

impl MockStore {
    #[verifier::type_invariant]
    spec fn holds(self) -> bool {
        store_wf(self@)
    }

    /// Empties the store and hands over what it held.
    fn take_parts(&mut self) -> (r: (Vec<CampaignRecord>, Vec<RunRow>, Vec<JobRow>, Vec<FindingRecord>))
        ensures
            r.0@ == old(self)@.campaigns,
            r.1@ == old(self)@.runs,
            r.2@ == old(self)@.jobs,
            r.3@ == old(self)@.findings,
            store_wf(old(self)@),
    {
        proof {
            use_type_invariant(&*self);
        }
        let mut parts = MockStore::new();
        std::mem::swap(&mut parts, self);
        let MockStore { campaigns, runs, jobs, findings } = parts;
        (campaigns, runs, jobs, findings)
    }

    /// An empty store.
    pub fn new() -> (r: Self)
        ensures
            r@.campaigns.len() == 0,
            r@.runs.len() == 0,
            r@.jobs.len() == 0,
            r@.findings.len() == 0,
    {
        MockStore { campaigns: Vec::new(), runs: Vec::new(), jobs: Vec::new(), findings: Vec::new() }
    }

    /// Creates a campaign, queued, with its run pending and an unclaimed job
    /// for it, under fresh ids, created now; returns the campaign.
    pub fn create_campaign(&mut self, input: NewCampaign) -> (r: CampaignRecord)
        ensures
            exists|campaign_id: u128, run_id: u128, job_id: u128, now: i128|
                {
                    let (s, c) = #[trigger] create_spec(
                        old(self)@,
                        input,
                        campaign_id,
                        run_id,
                        job_id,
                        now,
                    );
                    final(self)@ == s && r.same(c)
                },
    {
        proof {
            use_type_invariant(&*self);
        }
        let campaign_id = new_id();
        let run_id = new_id();
        let job_id = new_id();
        let now = now_nanos();
        let ghost expected = create_spec(self@, input, campaign_id, run_id, job_id, now);
        let record = CampaignRecord {
            id: campaign_id,
            target_id: input.target_id,
            name: input.name,
            invariant_ids: input.invariant_ids,
            time_budget_secs: input.time_budget_secs,
            status: CampaignStatus::Queued,
            run_id,
            created_at: now,
        };
        let copy = record.clone();
        let (mut campaigns, mut runs, mut jobs, mut findings) = self.take_parts();
        campaigns.push(record);
        runs.push(
            RunRow {
                id: run_id,
                campaign_id,
                status: RunStatus::Pending,
                iterations: 0,
                started_at: None,
                finished_at: None,
                log_tail: None,
            },
        );
        jobs.push(JobRow { id: job_id, campaign_id, run_id, claimed_by: None, attempts: 0 });
        proof {
            let t = StoreState { campaigns: campaigns@, runs: runs@, jobs: jobs@, findings: findings@ };
            assert(t.campaigns[t.campaigns.len() - 1].run_id == run_id);
            lemma_runs_keep_campaigns(old(self)@, t);
        }
        *self = MockStore { campaigns, runs, jobs, findings };
        assert(self@ == expected.0);
        copy
    }

    /// The first stored campaign with this id.
    pub fn get_campaign(&self, id: u128) -> (r: Option<CampaignRecord>)
        ensures
            match campaign_with_id(self@, id) {
                Some(c) => r is Some && r->0.same(c),
                None => r is None,
            },
    {
        match find_campaign(&self.campaigns, id) {
            Some(i) => Some(self.campaigns[i].clone()),
            None => None,
        }
    }

    /// Claims the oldest claimable job for `worker_id` (see `claim_spec`).
    pub fn claim_job(&mut self, worker_id: String) -> (r: Option<ClaimedJob>)
        ensures
            (final(self)@, r) == claim_spec(old(self)@, worker_id),
    {
        proof {
            use_type_invariant(&*self);
        }
        let ghost expected = claim_spec(self@, worker_id);
        let mut k: usize = 0;
        let mut found: Option<usize> = None;
        while k < self.jobs.len() && found.is_none()
            invariant
                k <= self.jobs@.len(),
                found is None ==> first_index(self.jobs@, claimable(self.runs@), 0) == first_index(
                    self.jobs@,
                    claimable(self.runs@),
                    k as int,
                ),
                found matches Some(x) ==> x < self.jobs@.len() && first_index(
                    self.jobs@,
                    claimable(self.runs@),
                    0,
                ) == Some(x as int),
            decreases self.jobs.len() - k,
        {
            if self.jobs[k].claimed_by.is_none() {
                let run_id = self.jobs[k].run_id;
                let mut m: usize = 0;
                let mut pending = false;
                while m < self.runs.len()
                    invariant
                        m <= self.runs@.len(),
                        k < self.jobs@.len(),
                        run_id == self.jobs@[k as int].run_id,
                        pending == exists|q: int|
                            0 <= q < m && #[trigger] self.runs@[q].id == run_id && self.runs@[q].status
                                == RunStatus::Pending,
                    decreases self.runs.len() - m,
                {
                    if self.runs[m].id == run_id && self.runs[m].status == RunStatus::Pending {
                        pending = true;
                    }
                    m = m + 1;
                }
                if pending {
                    assert(claimable(self.runs@)(self.jobs@[k as int]));
                    found = Some(k);
                } else {
                    assert(!claimable(self.runs@)(self.jobs@[k as int]));
                }
            } else {
                assert(!claimable(self.runs@)(self.jobs@[k as int]));
            }
            k = k + 1;
        }
        let k = match found {
            Some(k) => k,
            None => {
                assert(first_index(self.jobs@, claimable(self.runs@), k as int) is None);
                return None;
            },
        };
        assert(first_index(self.jobs@, claimable(self.runs@), 0) == Some(k as int));
        proof {
            lemma_first_index(self.jobs@, claimable(self.runs@), 0);
            assert(self.jobs@[k as int].claimed_by is None);
        }
        let ghost before = self.jobs@;
        let (mut campaigns, mut runs, mut jobs, mut findings) = self.take_parts();
        let mut job = jobs.remove(k);
        job.claimed_by = Some(worker_id);
        job.attempts = job.attempts + 1;
        let claimed = ClaimedJob {
            job_id: job.id,
            campaign_id: job.campaign_id,
            run_id: job.run_id,
            attempts: job.attempts,
        };
        jobs.insert(k, job);
        assert(jobs@ =~= before.update(k as int, jobs@[k as int]));
        *self = MockStore { campaigns, runs, jobs, findings };
        assert(self@.jobs =~= expected.0.jobs);
        Some(claimed)
    }

    /// Starts run `run_id` now, if it is pending (see `start_spec`).
    pub fn start_run(&mut self, run_id: u128, worker_id: &str) -> (r: bool)
        ensures
            exists|now: i128| (final(self)@, r) == #[trigger] start_spec(old(self)@, run_id, now),
    {
        proof {
            use_type_invariant(&*self);
        }
        let now = now_nanos();
        let ghost expected = start_spec(self@, run_id, now);
        let j = match find_run(&self.runs, run_id) {
            Some(j) => j,
            None => return false,
        };
        if self.runs[j].status != RunStatus::Pending {
            return false;
        }
        let (mut campaigns, mut runs, mut jobs, mut findings) = self.take_parts();
        let mut run = runs.remove(j);
        run.status = RunStatus::Running;
        run.started_at = Some(now);
        runs.insert(j, run);
        let kept = without_run(findings, run_id);
        match find_campaign_of_run(&campaigns, run_id) {
            Some(i) => {
                if campaigns[i].status == CampaignStatus::Queued {
                    let mut c = campaigns.remove(i);
                    c.status = CampaignStatus::Running;
                    campaigns.insert(i, c);
                }
            },
            None => {},
        }
        proof {
            assert forall|q: int| 0 <= q < kept@.len() implies clock_instant(
                #[trigger] kept@[q].created_at as int,
            ) by {
                findings@.lemma_filter_contains_rev(not_of_run(run_id), kept@[q]);
            }
        }
        proof {
            assert(runs@ =~= expected.0.runs);
            assert(campaigns@ =~= expected.0.campaigns);
            lemma_runs_keep_campaigns(
                old(self)@,
                StoreState { campaigns: campaigns@, runs: runs@, jobs: jobs@, findings: kept@ },
            );
        }
        *self = MockStore { campaigns, runs, jobs, findings: kept };
        assert(self@.runs =~= expected.0.runs);
        assert(self@.campaigns =~= expected.0.campaigns);
        true
    }

    /// Finishes run `run_id` now (see `finish_spec`). A run with findings
    /// must belong to a stored campaign.
    pub fn finish_run(&mut self, run_id: u128, finish: RunFinish)
        requires
            finish.findings@.len() > 0 ==> first_index(
                old(self)@.campaigns,
                campaign_run_is(run_id),
                0,
            ) is Some,
        ensures
            exists|now: i128, ids: Seq<u128>, times: Seq<i128>|
                ids.len() == finish.findings@.len() && times.len() == finish.findings@.len()
                    && final(self)@ == #[trigger] finish_spec(old(self)@, run_id, finish, now, ids, times),
    {
        proof {
            use_type_invariant(&*self);
        }
        let now = now_nanos();
        let ghost start = self@;
        let ghost all_new = finish.findings@;
        let RunFinish { status, iterations, log_tail, findings: new_findings } = finish;
        let (mut campaigns, mut runs, mut jobs, mut findings) = self.take_parts();
        let transitioned = match find_run(&runs, run_id) {
            Some(j) => {
                if runs[j].status == RunStatus::Running {
                    let mut run = runs.remove(j);
                    run.status = status.run_status();
                    run.iterations = iterations;
                    run.log_tail = log_tail;
                    run.finished_at = Some(now);
                    runs.insert(j, run);
                    true
                } else {
                    false
                }
            },
            None => false,
        };
        let ghost old_campaigns = campaigns@;
        if transitioned {
            match find_campaign_of_run(&campaigns, run_id) {
                Some(i) => {
                    let mut c = campaigns.remove(i);
                    c.status = status.campaign_status();
                    campaigns.insert(i, c);
                    assert(campaigns@ =~= old_campaigns.update(
                        i as int,
                        with_status(old_campaigns[i as int], status.spec_campaign_status()),
                    ));
                },
                None => {},
            }
        }
        proof {
            if transitioned {
                if let Some(i) = first_index(start.campaigns, campaign_run_is(run_id), 0) {
                    lemma_first_index(start.campaigns, campaign_run_is(run_id), 0);
                    lemma_first_index_update(
                        start.campaigns,
                        campaign_run_is(run_id),
                        0,
                        i,
                        with_status(start.campaigns[i], status.spec_campaign_status()),
                    );
                }
            }
        }
        let ghost before = findings@;
        let ghost mut ids: Seq<u128> = Seq::empty();
        let ghost mut times: Seq<i128> = Seq::empty();
        let total = new_findings.len();
        if total > 0 {
            let i = match find_campaign_of_run(&campaigns, run_id) {
                Some(i) => i,
                None => {
                    assert(false);
                    0
                },
            };
            let campaign_id = campaigns[i].id;
            let target_id = campaigns[i].target_id.clone();
            let ghost c = campaigns@[i as int];
            let mut rest = new_findings;
            let mut reversed: Vec<NewFinding> = Vec::new();
            while rest.len() > 0
                invariant
                    rest@.len() + reversed@.len() == all_new.len(),
                    forall|k: int| 0 <= k < rest@.len() ==> rest@[k] == all_new[k],
                    forall|k: int|
                        0 <= k < reversed@.len() ==> reversed@[k] == all_new[all_new.len() - 1 - k],
                decreases rest@.len(),
            {
                let f = rest.pop().unwrap();
                reversed.push(f);
            }
            let mut done: usize = 0;
            while reversed.len() > 0
                invariant
                    done + reversed@.len() == all_new.len(),
                    all_new.len() == total,
                    forall|k: int|
                        0 <= k < reversed@.len() ==> reversed@[k] == all_new[all_new.len() - 1 - k],
                    ids.len() == done,
                    times.len() == done,
                    campaign_id == c.id,
                    target_id == c.target_id,
                    findings@ == before + Seq::new(
                        done as nat,
                        |k: int| finding_record(run_id, c, all_new[k], ids[k], times[k]),
                    ),
                    forall|q: int| 0 <= q < findings@.len() ==> clock_instant(#[trigger] findings@[q].created_at as int),
                decreases reversed@.len(),
            {
                let n = reversed.pop().unwrap();
                let id = new_id();
                let at = now_nanos();
                proof {
                    ids = ids.push(id);
                    times = times.push(at);
                }
                let ghost expected = finding_record(run_id, c, n, id, at);
                findings.push(
                    FindingRecord {
                        id,
                        run_id,
                        campaign_id,
                        target_id: target_id.clone(),
                        invariant: n.invariant,
                        message: n.message,
                        step_index: n.step_index,
                        sequence: n.sequence,
                        fuzz_target_name: n.fuzz_target_name,
                        artifact_path: n.artifact_path,
                        requires_sanitizer_thread: n.requires_sanitizer_thread,
                        created_at: at,
                    },
                );
                done = done + 1;
                proof {
                    assert(findings@ =~= before + Seq::new(
                        done as nat,
                        |k: int| finding_record(run_id, c, all_new[k], ids[k], times[k]),
                    ));
                }
            }
        }
        proof {
            let expected = finish_spec(start, run_id, finish, now, ids, times);
            assert(runs@ =~= expected.runs);
            assert(campaigns@ =~= expected.campaigns);
            assert(findings@ =~= expected.findings);
            lemma_runs_keep_campaigns(start, expected);
        }
        *self = MockStore { campaigns, runs, jobs, findings };
    }

    /// The campaigns a listing filter passes, newest first (campaigns
    /// created at the same instant in the order they were added), then the
    /// page `offset` and `limit` pick (see `page_start`, `page_end`).
    pub fn list_campaigns(&self, filter: CampaignFilter) -> (r: Vec<CampaignRecord>)
        ensures
            ({
                let order = listed(self@.campaigns, filter);
                let start = page_start(order.len() as int, filter.offset);
                let end = page_end(order.len() as int, filter.offset, filter.limit);
                &&& r@.len() == end - start
                &&& forall|q: int|
                    0 <= q < r@.len() ==> #[trigger] r@[q].same(self@.campaigns[order[start + q] as int])
            }),
    {
        let keys = campaign_key_list(&self.campaigns);
        let mut sorted: Vec<usize> = Vec::new();
        let mut i: usize = 0;
        while i < self.campaigns.len()
            invariant
                i <= self.campaigns@.len(),
                keys@ == campaign_keys(self.campaigns@),
                sorted@ == sort_by_key(
                    keys@,
                    matching_upto(self.campaigns@, campaign_matches(filter), i as int),
                    true,
                ),
                forall|q: int| 0 <= q < sorted@.len() ==> #[trigger] sorted@[q] < i,
            decreases self.campaigns.len() - i,
        {
            let ghost m_next = matching_upto(self.campaigns@, campaign_matches(filter), i + 1);
            let ghost m_now = matching_upto(self.campaigns@, campaign_matches(filter), i as int);
            if passes(&self.campaigns[i], &filter) {
                proof {
                    lemma_slot_range(keys@, sorted@, i, true, 0);
                    assert(m_next.drop_last() =~= m_now);
                }
                insert_sorted(&keys, &mut sorted, i, true);
            }
            proof {
                let m = matching_upto(self.campaigns@, campaign_matches(filter), i + 1);
                lemma_matching_below(self.campaigns@, campaign_matches(filter), i + 1);
                lemma_sorted_in_range(keys@, m, true, i + 1);
            }
            i = i + 1;
        }
        let ghost order = sorted@;
        let len = sorted.len();
        let start: usize = if filter.offset < 0 {
            0
        } else if filter.offset as i128 > len as i128 {
            len
        } else {
            filter.offset as usize
        };
        let take: i128 = if filter.limit < 0 {
            0
        } else {
            filter.limit as i128
        };
        let end: usize = if start as i128 + take > len as i128 {
            len
        } else {
            (start as i128 + take) as usize
        };
        let mut r: Vec<CampaignRecord> = Vec::new();
        let mut q: usize = start;
        while q < end
            invariant
                start <= q <= end <= sorted@.len(),
                sorted@ == order,
                forall|w: int| 0 <= w < sorted@.len() ==> #[trigger] sorted@[w] < self.campaigns@.len(),
                r@.len() == q - start,
                forall|w: int|
                    0 <= w < r@.len() ==> #[trigger] r@[w].same(self.campaigns@[order[start + w] as int]),
            decreases end - q,
        {
            r.push(self.campaigns[sorted[q]].clone());
            q = q + 1;
        }
        r
    }

    /// The first stored run with this id, as the API reports it: with its
    /// campaign's target and budget, the number of its findings, and the
    /// whole seconds it ran (until it finished, or until now). Every stored
    /// run belongs to a stored campaign.
    pub fn get_run(&self, id: u128) -> (r: Option<RunRecord>)
        ensures
            match first_index(self@.runs, run_id_is(id), 0) {
                None => r is None,
                Some(j) => r is Some && first_index(self@.campaigns, campaign_run_is(id), 0) is Some && ({
                    let run = self@.runs[j];
                    let c = self@.campaigns[first_index(self@.campaigns, campaign_run_is(id), 0)->0];
                    let rec = r->0;
                    &&& rec.id == run.id
                    &&& rec.campaign_id == run.campaign_id
                    &&& rec.target_id == c.target_id
                    &&& rec.status == run.status
                    &&& rec.time_budget_secs == c.time_budget_secs
                    &&& rec.iterations == run.iterations
                    &&& rec.findings_count == self@.findings.filter(of_run(id)).len() as i64
                    &&& rec.started_at == run.started_at
                    &&& rec.finished_at == run.finished_at
                    &&& match (run.started_at, run.finished_at) {
                        (Some(s), Some(f)) => rec.elapsed_secs == elapsed_secs(s, f),
                        (Some(s), None) => exists|now: i128| rec.elapsed_secs == elapsed_secs(s, now),
                        (None, _) => rec.elapsed_secs == 0,
                    }
                }),
            },
    {
        proof {
            use_type_invariant(self);
        }
        let j = match find_run(&self.runs, id) {
            Some(j) => j,
            None => return None,
        };
        proof {
            lemma_run_has_campaign(self@, id);
        }
        let i = match find_campaign_of_run(&self.campaigns, id) {
            Some(i) => i,
            None => {
                assert(false);
                return None;
            },
        };
        let ghost fs = self.findings@;
        let mut count: usize = 0;
        let mut k: usize = 0;
        while k < self.findings.len()
            invariant
                k <= self.findings@.len(),
                fs == self.findings@,
                count == fs.take(k as int).filter(of_run(id)).len(),
                count <= k,
            decreases self.findings.len() - k,
        {
            proof {
                reveal(Seq::filter);
                assert(fs.take(k + 1).drop_last() =~= fs.take(k as int));
            }
            if self.findings[k].run_id == id {
                count = count + 1;
            }
            k = k + 1;
        }
        proof {
            assert(fs.take(fs.len() as int) =~= fs);
        }
        let run = &self.runs[j];
        let elapsed: i64 = match run.started_at {
            Some(started) => {
                let end = match run.finished_at {
                    Some(f) => f,
                    None => now_nanos(),
                };
                let d = end - started;
                let e: i64 = if d <= 0 {
                    0
                } else {
                    assert(d / 1_000_000_000 <= 0x4000_0000_0000_0004) by (nonlinear_arith)
                        requires
                            d <= 2 * (0x2000_0000_0000_0000 * 1_000_000_000 + 2_000_000_000),
                    ;
                    (d / 1_000_000_000) as i64
                };
                assert(e == elapsed_secs(started, end));
                e
            },
            None => 0,
        };
        Some(
            RunRecord {
                id: run.id,
                campaign_id: run.campaign_id,
                target_id: self.campaigns[i].target_id.clone(),
                status: run.status,
                time_budget_secs: self.campaigns[i].time_budget_secs,
                elapsed_secs: elapsed,
                iterations: run.iterations,
                findings_count: count as i64,
                started_at: run.started_at,
                finished_at: run.finished_at,
            },
        )
    }

    /// The findings of run `run_id`, oldest first (findings created at the
    /// same instant in the order they were added).
    pub fn list_findings_for_run(&self, run_id: u128) -> (r: Vec<FindingRecord>)
        ensures
            ({
                let order = sort_by_key(
                    finding_keys(self@.findings),
                    matching_upto(self@.findings, of_run(run_id), self@.findings.len() as int),
                    false,
                );
                &&& r@.len() == order.len()
                &&& forall|q: int|
                    0 <= q < r@.len() ==> #[trigger] r@[q].same(self@.findings[order[q] as int])
            }),
    {
        let keys = finding_key_list(&self.findings);
        let mut sorted: Vec<usize> = Vec::new();
        let mut i: usize = 0;
        while i < self.findings.len()
            invariant
                i <= self.findings@.len(),
                keys@ == finding_keys(self.findings@),
                sorted@ == sort_by_key(keys@, matching_upto(self.findings@, of_run(run_id), i as int), false),
                forall|q: int| 0 <= q < sorted@.len() ==> #[trigger] sorted@[q] < i,
            decreases self.findings.len() - i,
        {
            let ghost m_next = matching_upto(self.findings@, of_run(run_id), i + 1);
            let ghost m_now = matching_upto(self.findings@, of_run(run_id), i as int);
            if self.findings[i].run_id == run_id {
                proof {
                    assert(m_next.drop_last() =~= m_now);
                }
                insert_sorted(&keys, &mut sorted, i, false);
            }
            proof {
                let m = matching_upto(self.findings@, of_run(run_id), i + 1);
                lemma_matching_below(self.findings@, of_run(run_id), i + 1);
                lemma_sorted_in_range(keys@, m, false, i + 1);
            }
            i = i + 1;
        }
        let mut r: Vec<FindingRecord> = Vec::new();
        let mut q: usize = 0;
        while q < sorted.len()
            invariant
                q <= sorted@.len(),
                forall|w: int| 0 <= w < sorted@.len() ==> #[trigger] sorted@[w] < self.findings@.len(),
                r@.len() == q,
                forall|w: int| 0 <= w < q ==> #[trigger] r@[w].same(self.findings@[sorted@[w] as int]),
            decreases sorted.len() - q,
        {
            r.push(self.findings[sorted[q]].clone());
            q = q + 1;
        }
        r
    }

    /// The first stored finding with this id.
    pub fn get_finding(&self, id: u128) -> (r: Option<FindingRecord>)
        ensures
            match first_index(self@.findings, finding_id_is(id), 0) {
                Some(i) => r is Some && r->0.same(self@.findings[i]),
                None => r is None,
            },
    {
        let mut k: usize = 0;
        while k < self.findings.len()
            invariant
                k <= self.findings@.len(),
                first_index(self.findings@, finding_id_is(id), 0) == first_index(
                    self.findings@,
                    finding_id_is(id),
                    k as int,
                ),
            decreases self.findings.len() - k,
        {
            if self.findings[k].id == id {
                return Some(self.findings[k].clone());
            }
            k = k + 1;
        }
        None
    }

    /// Cancels campaign `id` now (see `cancel_spec`) and returns it as it
    /// then is.
    pub fn cancel_campaign(&mut self, id: u128) -> (r: Option<CampaignRecord>)
        ensures
            exists|now: i128|
                {
                    let (s, c) = #[trigger] cancel_spec(old(self)@, id, now);
                    &&& final(self)@ == s
                    &&& match c {
                        Some(c) => r is Some && r->0.same(c),
                        None => r is None,
                    }
                },
    {
        proof {
            use_type_invariant(&*self);
        }
        let now = now_nanos();
        let ghost expected = cancel_spec(self@, id, now);
        let i = match find_campaign(&self.campaigns, id) {
            Some(i) => i,
            None => return None,
        };
        if self.campaigns[i].status.is_terminal() {
            return Some(self.campaigns[i].clone());
        }
        let (mut campaigns, mut runs, mut jobs, mut findings) = self.take_parts();
        let mut c = campaigns.remove(i);
        c.status = CampaignStatus::Cancelled;
        let copy = c.clone();
        campaigns.insert(i, c);
        match find_run_of_campaign(&runs, id) {
            Some(j) => {
                let mut run = runs.remove(j);
                run.status = RunStatus::Cancelled;
                run.finished_at = Some(now);
                runs.insert(j, run);
            },
            None => {},
        }
        proof {
            assert(campaigns@ =~= expected.0.campaigns);
            assert(runs@ =~= expected.0.runs);
            lemma_runs_keep_campaigns(
                old(self)@,
                StoreState { campaigns: campaigns@, runs: runs@, jobs: jobs@, findings: findings@ },
            );
        }
        *self = MockStore { campaigns, runs, jobs, findings };
        assert(self@.campaigns =~= expected.0.campaigns);
        assert(self@.runs =~= expected.0.runs);
        Some(copy)
    }
}

/// Cancelling is idempotent: cancelling a campaign a second time changes
/// nothing and answers with the campaign as the first cancellation left
/// it (a campaign that is over is left alone). Either answer is a campaign
/// that is over, and there is one exactly when a campaign has this id.
pub proof fn lemma_cancel_is_idempotent(s: StoreState, id: u128, first: i128, second: i128)
    ensures
        cancel_spec(s, id, first).1 is Some <==> campaign_with_id(s, id) is Some,
        cancel_spec(s, id, first).1 matches Some(c) ==> c.id == id && c.status.spec_is_terminal(),
        campaign_with_id(s, id) matches Some(c) ==> cancel_spec(s, id, first).1 == Some(
            if c.status.spec_is_terminal() {
                c
            } else {
                with_status(c, CampaignStatus::Cancelled)
            },
        ),
        campaign_with_id(cancel_spec(s, id, first).0, id) == cancel_spec(s, id, first).1,
        cancel_spec(cancel_spec(s, id, first).0, id, second) == (
            cancel_spec(s, id, first).0,
            cancel_spec(s, id, first).1,
        ),
{
    lemma_first_index(s.campaigns, campaign_id_is(id), 0);
    match first_index(s.campaigns, campaign_id_is(id), 0) {
        None => {},
        Some(i) => {
            if !s.campaigns[i].status.spec_is_terminal() {
                let c = with_status(s.campaigns[i], CampaignStatus::Cancelled);
                lemma_first_index_update(s.campaigns, campaign_id_is(id), 0, i, c);
            }
        },
    }
}

/// Creating a campaign and then reading it: the read finds the campaign as
/// it was created, queued, with its run pending, as long as its ids were
/// not in use already; a read of an id that no campaign has, before or
/// after, finds nothing.
pub proof fn lemma_created_campaign_reads_back(
    s: StoreState,
    input: NewCampaign,
    campaign_id: u128,
    run_id: u128,
    job_id: u128,
    now: i128,
)
    requires
        forall|i: int| 0 <= i < s.campaigns.len() ==> (#[trigger] s.campaigns[i]).id != campaign_id,
        forall|i: int| 0 <= i < s.runs.len() ==> (#[trigger] s.runs[i]).id != run_id,
    ensures
        campaign_with_id(create_spec(s, input, campaign_id, run_id, job_id, now).0, campaign_id)
            == Some(create_spec(s, input, campaign_id, run_id, job_id, now).1),
        forall|other: u128|
            other != campaign_id && campaign_with_id(s, other) is None ==> campaign_with_id(
                #[trigger] create_spec(s, input, campaign_id, run_id, job_id, now).0,
                other,
            ) is None,
        ({
            let (t, c) = create_spec(s, input, campaign_id, run_id, job_id, now);
            &&& first_index(t.campaigns, campaign_id_is(campaign_id), 0) == Some(
                s.campaigns.len() as int,
            )
            &&& t.campaigns[s.campaigns.len() as int] == c
            &&& c.status == CampaignStatus::Queued
            &&& c.target_id == input.target_id
            &&& c.name == input.name
            &&& c.invariant_ids == input.invariant_ids
            &&& c.time_budget_secs == input.time_budget_secs
            &&& first_index(t.runs, run_id_is(run_id), 0) == Some(s.runs.len() as int)
            &&& t.runs[s.runs.len() as int].status == RunStatus::Pending
            &&& t.runs[s.runs.len() as int].campaign_id == campaign_id
        }),
{
    let (t, c) = create_spec(s, input, campaign_id, run_id, job_id, now);
    lemma_first_index(t.campaigns, campaign_id_is(campaign_id), 0);
    lemma_first_index(t.runs, run_id_is(run_id), 0);
    assert(t.campaigns[s.campaigns.len() as int] == c);
    assert forall|j: int| 0 <= j < s.campaigns.len() implies !campaign_id_is(campaign_id)(
        #[trigger] t.campaigns[j],
    ) by {
        assert(t.campaigns[j] == s.campaigns[j]);
    }
    assert forall|j: int| 0 <= j < s.runs.len() implies !run_id_is(run_id)(#[trigger] t.runs[j]) by {
        assert(t.runs[j] == s.runs[j]);
    }
    assert forall|other: u128|
        other != campaign_id && campaign_with_id(s, other) is None implies campaign_with_id(
            #[trigger] create_spec(s, input, campaign_id, run_id, job_id, now).0,
            other,
        ) is None by {
        lemma_first_index(s.campaigns, campaign_id_is(other), 0);
        lemma_first_index(t.campaigns, campaign_id_is(other), 0);
        if first_index(t.campaigns, campaign_id_is(other), 0) is Some {
            let k = first_index(t.campaigns, campaign_id_is(other), 0)->0;
            if k < s.campaigns.len() {
                assert(t.campaigns[k] == s.campaigns[k]);
            }
        }
    }
}

/// A claimed job stays claimed, by the same worker, whatever else happens
/// to the store: creating, cancelling, claiming, starting or finishing.
/// Since only an unclaimed job can be claimed, no job is claimed twice.
pub proof fn lemma_claimed_jobs_stay_claimed(
    s: StoreState,
    k: int,
    input: NewCampaign,
    ids: (u128, u128, u128),
    campaign_id: u128,
    worker: String,
    run_id: u128,
    finish: RunFinish,
    now: i128,
    finding_ids: Seq<u128>,
    times: Seq<i128>,
)
    requires
        0 <= k < s.jobs.len(),
        s.jobs[k].claimed_by is Some,
    ensures
        create_spec(s, input, ids.0, ids.1, ids.2, now).0.jobs[k] == s.jobs[k],
        cancel_spec(s, campaign_id, now).0.jobs[k] == s.jobs[k],
        claim_spec(s, worker).0.jobs[k] == s.jobs[k],
        claim_spec(s, worker).1 matches Some(c) ==> c.job_id == s.jobs[first_index(
            s.jobs,
            claimable(s.runs),
            0,
        )->0].id && first_index(s.jobs, claimable(s.runs), 0) != Some(k),
        start_spec(s, run_id, now).0.jobs[k] == s.jobs[k],
        finish_spec(s, run_id, finish, now, finding_ids, times).jobs[k] == s.jobs[k],
{
    lemma_first_index(s.jobs, claimable(s.runs), 0);
}

/// Only a pending run starts; a run that is not pending (say, cancelled
/// before a worker got to it) is left, with the rest of the store, as it
/// was.
pub proof fn lemma_only_pending_runs_start(s: StoreState, run_id: u128, now: i128)
    ensures
        start_spec(s, run_id, now).1 <==> (first_index(s.runs, run_id_is(run_id), 0) matches Some(
            j,
        ) && s.runs[j].status == RunStatus::Pending),
        !start_spec(s, run_id, now).1 ==> start_spec(s, run_id, now).0 == s,
{
}

/// Finishing a run never overrides a status it no longer holds: unless the
/// run is still running (a cancellation raced the worker, say), the runs,
/// campaigns and jobs stay as they were and only the findings are added.
pub proof fn lemma_finish_keeps_a_cancellation(
    s: StoreState,
    run_id: u128,
    finish: RunFinish,
    now: i128,
    ids: Seq<u128>,
    times: Seq<i128>,
)
    requires
        !(first_index(s.runs, run_id_is(run_id), 0) matches Some(j) && s.runs[j].status
            == RunStatus::Running),
    ensures
        finish_spec(s, run_id, finish, now, ids, times).runs == s.runs,
        finish_spec(s, run_id, finish, now, ids, times).campaigns == s.campaigns,
        finish_spec(s, run_id, finish, now, ids, times).jobs == s.jobs,
        finish_spec(s, run_id, finish, now, ids, times).findings.len() == s.findings.len()
            + finish.findings@.len(),
        finish_spec(s, run_id, finish, now, ids, times).findings.take(s.findings.len() as int)
            == s.findings,
{
    let after = finish_spec(s, run_id, finish, now, ids, times);
    assert(after.findings.take(s.findings.len() as int) =~= s.findings);
}

/// A running run that finishes leaves itself and its campaign in a final
/// status: its campaign's status is the terminal one the finish names.
pub proof fn lemma_finished_run_is_final(
    s: StoreState,
    run_id: u128,
    finish: RunFinish,
    now: i128,
    ids: Seq<u128>,
    times: Seq<i128>,
)
    requires
        first_index(s.runs, run_id_is(run_id), 0) matches Some(j) && s.runs[j].status
            == RunStatus::Running,
        first_index(s.campaigns, campaign_run_is(run_id), 0) is Some,
    ensures
        ({
            let after = finish_spec(s, run_id, finish, now, ids, times);
            let j = first_index(s.runs, run_id_is(run_id), 0)->0;
            let i = first_index(s.campaigns, campaign_run_is(run_id), 0)->0;
            &&& after.runs[j].status == finish.status.spec_run_status()
            &&& after.runs[j].finished_at == Some(now)
            &&& after.campaigns[i].status == finish.status.spec_campaign_status()
            &&& after.campaigns[i].status.spec_is_terminal()
        }),
{
    lemma_first_index(s.runs, run_id_is(run_id), 0);
    lemma_first_index(s.campaigns, campaign_run_is(run_id), 0);
}

/// A run that starts and then finishes, with nothing in between, is closed
/// out: it takes the finish's status and its campaign the matching
/// terminal one.
pub proof fn lemma_started_run_finishes(
    s: StoreState,
    run_id: u128,
    started_at: i128,
    finish: RunFinish,
    now: i128,
    ids: Seq<u128>,
    times: Seq<i128>,
)
    requires
        start_spec(s, run_id, started_at).1,
        first_index(s.campaigns, campaign_run_is(run_id), 0) is Some,
    ensures
        ({
            let started = start_spec(s, run_id, started_at).0;
            let after = finish_spec(started, run_id, finish, now, ids, times);
            let j = first_index(s.runs, run_id_is(run_id), 0)->0;
            let i = first_index(s.campaigns, campaign_run_is(run_id), 0)->0;
            &&& after.runs[j].status == finish.status.spec_run_status()
            &&& after.campaigns[i].status == finish.status.spec_campaign_status()
            &&& after.campaigns[i].status.spec_is_terminal()
        }),
{
    let started = start_spec(s, run_id, started_at).0;
    lemma_first_index(s.runs, run_id_is(run_id), 0);
    lemma_first_index(s.campaigns, campaign_run_is(run_id), 0);
    let j = first_index(s.runs, run_id_is(run_id), 0)->0;
    let i = first_index(s.campaigns, campaign_run_is(run_id), 0)->0;
    let r = s.runs[j];
    lemma_first_index_update(
        s.runs,
        run_id_is(run_id),
        0,
        j,
        RunRow {
            id: r.id,
            campaign_id: r.campaign_id,
            status: RunStatus::Running,
            iterations: r.iterations,
            started_at: Some(started_at),
            finished_at: r.finished_at,
            log_tail: r.log_tail,
        },
    );
    if s.campaigns[i].status == CampaignStatus::Queued {
        lemma_first_index_update(
            s.campaigns,
            campaign_run_is(run_id),
            0,
            i,
            with_status(s.campaigns[i], CampaignStatus::Running),
        );
    }
    lemma_finished_run_is_final(started, run_id, finish, now, ids, times);
}

/// Whether the positions are in order of their keys (latest first when
/// `newest`).
pub open spec fn keys_in_order(keys: Seq<i128>, order: Seq<usize>, newest: bool) -> bool {
    forall|a: int, b: int|
        0 <= a < b < order.len() ==> !goes_after(
            #[trigger] keys[order[a] as int],
            #[trigger] keys[order[b] as int],
            newest,
        )
}

/// Everything before a slot stays ahead of the new entry; the entry at
/// the slot, if any, goes after it.
proof fn lemma_slot_bounds(keys: Seq<i128>, sorted: Seq<usize>, x: usize, newest: bool, k: int)
    requires
        0 <= k,
    ensures
        forall|q: int|
            k <= q < slot(keys, sorted, x, newest, k) ==> !goes_after(
                #[trigger] keys[sorted[q] as int],
                keys[x as int],
                newest,
            ),
        slot(keys, sorted, x, newest, k) < sorted.len() ==> goes_after(
            keys[sorted[slot(keys, sorted, x, newest, k)] as int],
            keys[x as int],
            newest,
        ),
        k <= sorted.len() ==> k <= slot(keys, sorted, x, newest, k) <= sorted.len(),
    decreases sorted.len() - k,
{
    if k < sorted.len() && !goes_after(keys[sorted[k] as int], keys[x as int], newest) {
        lemma_slot_bounds(keys, sorted, x, newest, k + 1);
    }
}

/// Sorting puts positions in order of their keys.
pub proof fn lemma_sorted_by_key(keys: Seq<i128>, idx: Seq<usize>, newest: bool)
    ensures
        keys_in_order(keys, sort_by_key(keys, idx, newest), newest),
    decreases idx.len(),
{
    if idx.len() > 0 {
        let sorted = sort_by_key(keys, idx.drop_last(), newest);
        lemma_sorted_by_key(keys, idx.drop_last(), newest);
        let x = idx.last();
        let p = slot(keys, sorted, x, newest, 0);
        lemma_slot_bounds(keys, sorted, x, newest, 0);
        let out = sorted.insert(p, x);
        assert forall|a: int, b: int| 0 <= a < b < out.len() implies !goes_after(
            #[trigger] keys[out[a] as int],
            #[trigger] keys[out[b] as int],
            newest,
        ) by {
            if a < p && b < p {
                assert(out[a] == sorted[a] && out[b] == sorted[b]);
            } else if a < p && b == p {
                assert(out[a] == sorted[a] && out[b] == x);
            } else if a < p {
                assert(out[a] == sorted[a] && out[b] == sorted[b - 1]);
            } else if a == p {
                assert(out[a] == x && out[b] == sorted[b - 1]);
                assert(goes_after(keys[sorted[p] as int], keys[x as int], newest));
                if p < b - 1 {
                    assert(!goes_after(keys[sorted[p] as int], keys[sorted[b - 1] as int], newest));
                }
            } else {
                assert(out[a] == sorted[a - 1] && out[b] == sorted[b - 1]);
            }
        }
    }
}

/// A listing returns campaigns newest first.
pub proof fn lemma_listing_is_newest_first(cs: Seq<CampaignRecord>, f: CampaignFilter)
    ensures
        keys_in_order(campaign_keys(cs), listed(cs, f), true),
{
    lemma_sorted_by_key(
        campaign_keys(cs),
        matching_upto(cs, campaign_matches(f), cs.len() as int),
        true,
    );
}

/// The positions `matching_upto` gathers are, in increasing order, exactly
/// those below `n` whose items satisfy `p`.
proof fn lemma_matching_upto<T>(s: Seq<T>, p: spec_fn(T) -> bool, n: int)
    requires
        0 <= n <= s.len(),
        s.len() <= usize::MAX,
    ensures
        forall|q: int|
            0 <= q < matching_upto(s, p, n).len() ==> 0 <= #[trigger] matching_upto(s, p, n)[q] < n
                && p(s[matching_upto(s, p, n)[q] as int]),
        forall|a: int, b: int|
            0 <= a < b < matching_upto(s, p, n).len() ==> #[trigger] matching_upto(s, p, n)[a]
                < #[trigger] matching_upto(s, p, n)[b],
        forall|i: int|
            0 <= i < n && p(#[trigger] s[i]) ==> exists|q: int|
                0 <= q < matching_upto(s, p, n).len() && matching_upto(s, p, n)[q] == i,
        s.take(n).filter(p).len() == matching_upto(s, p, n).len(),
    decreases n,
{
    reveal(Seq::filter);
    if n == 0 {
        assert(s.take(0).len() == 0);
        assert(s.take(0).filter(p).len() == 0);
    } else {
        lemma_matching_upto(s, p, n - 1);
        let prev = matching_upto(s, p, n - 1);
        let cur = matching_upto(s, p, n);
        assert(s.take(n).drop_last() =~= s.take(n - 1));
        assert(s.take(n).last() == s[n - 1]);
        assert(s.take(n).filter(p) == (if p(s[n - 1]) {
            s.take(n - 1).filter(p).push(s[n - 1])
        } else {
            s.take(n - 1).filter(p)
        }));
        if p(s[n - 1]) {
            assert(cur == prev.push((n - 1) as usize));
            assert forall|q: int| 0 <= q < prev.len() implies #[trigger] cur[q] == prev[q] by {}
            assert forall|i: int|
                0 <= i < n && p(#[trigger] s[i]) implies exists|q: int|
                0 <= q < cur.len() && cur[q] == i by {
                if i == n - 1 {
                    assert(cur[prev.len() as int] == i);
                } else {
                    let q = choose|q: int| 0 <= q < prev.len() && prev[q] == i;
                    assert(cur[q] == prev[q]);
                }
            }
        }
    }
}

/// Ordering positions by key keeps the same positions.
proof fn lemma_sort_keeps_positions(keys: Seq<i128>, idx: Seq<usize>, newest: bool)
    ensures
        sort_by_key(keys, idx, newest).len() == idx.len(),
        forall|q: int|
            0 <= q < idx.len() ==> exists|m: int|
                0 <= m < idx.len() && #[trigger] sort_by_key(keys, idx, newest)[q] == idx[m],
        forall|m: int|
            0 <= m < idx.len() ==> exists|q: int|
                0 <= q < idx.len() && sort_by_key(keys, idx, newest)[q] == #[trigger] idx[m],
    decreases idx.len(),
{
    if idx.len() > 0 {
        let rest = idx.drop_last();
        lemma_sort_keeps_positions(keys, rest, newest);
        let sorted = sort_by_key(keys, rest, newest);
        let x = idx.last();
        let p = slot(keys, sorted, x, newest, 0);
        lemma_slot_range(keys, sorted, x, newest, 0);
        let out = sorted.insert(p, x);
        assert(out == sort_by_key(keys, idx, newest));
        assert forall|q: int| 0 <= q < idx.len() implies exists|m: int|
            0 <= m < idx.len() && #[trigger] out[q] == idx[m] by {
            if q < p {
                let m = choose|m: int| 0 <= m < rest.len() && sorted[q] == rest[m];
                assert(idx[m] == rest[m]);
            } else if q == p {
                assert(out[q] == idx[idx.len() - 1]);
            } else {
                assert(out[q] == sorted[q - 1]);
                let m = choose|m: int| 0 <= m < rest.len() && sorted[q - 1] == rest[m];
                assert(idx[m] == rest[m]);
            }
        }
        assert forall|m: int| 0 <= m < idx.len() implies exists|q: int|
            0 <= q < idx.len() && out[q] == #[trigger] idx[m] by {
            if m == idx.len() - 1 {
                assert(out[p] == x);
            } else {
                assert(idx[m] == rest[m]);
                let q = choose|q: int| 0 <= q < rest.len() && sorted[q] == rest[m];
                if q < p {
                    assert(out[q] == sorted[q]);
                } else {
                    assert(out[q + 1] == sorted[q]);
                }
            }
        }
    }
}

/// Ordering distinct positions by key keeps them distinct.
#[verifier::rlimit(40)]
proof fn lemma_sort_keeps_distinct(keys: Seq<i128>, idx: Seq<usize>, newest: bool)
    requires
        forall|a: int, b: int| 0 <= a < b < idx.len() ==> #[trigger] idx[a] != #[trigger] idx[b],
    ensures
        forall|a: int, b: int|
            0 <= a < b < sort_by_key(keys, idx, newest).len() ==> #[trigger] sort_by_key(keys, idx, newest)[a]
                != #[trigger] sort_by_key(keys, idx, newest)[b],
    decreases idx.len(),
{
    if idx.len() > 0 {
        let rest = idx.drop_last();
        assert forall|a: int, b: int| 0 <= a < b < rest.len() implies #[trigger] rest[a] != #[trigger] rest[b] by {
            assert(rest[a] == idx[a] && rest[b] == idx[b]);
        }
        lemma_sort_keeps_distinct(keys, rest, newest);
        lemma_sort_keeps_positions(keys, rest, newest);
        let sorted = sort_by_key(keys, rest, newest);
        let x = idx.last();
        let p = slot(keys, sorted, x, newest, 0);
        lemma_slot_range(keys, sorted, x, newest, 0);
        let out = sorted.insert(p, x);
        assert(out == sort_by_key(keys, idx, newest));
        assert forall|q: int| 0 <= q < sorted.len() implies #[trigger] sorted[q] != x by {
            let m = choose|m: int| 0 <= m < rest.len() && sorted[q] == rest[m];
            assert(rest[m] == idx[m]);
            assert(idx[m] != idx[idx.len() - 1]);
        }
        assert forall|a: int, b: int| 0 <= a < b < out.len() implies #[trigger] out[a] != #[trigger] out[b] by {
            if a < p && b < p {
                assert(out[a] == sorted[a] && out[b] == sorted[b]);
            } else if a < p && b == p {
                assert(out[a] == sorted[a]);
            } else if a < p {
                assert(out[a] == sorted[a] && out[b] == sorted[b - 1]);
            } else if a == p {
                assert(out[b] == sorted[b - 1]);
            } else {
                assert(out[a] == sorted[a - 1] && out[b] == sorted[b - 1]);
            }
        }
    }
}

/// A listing holds exactly the stored campaigns its filter passes, each
/// once: every campaign listed has the status, target and creation window
/// the filter names, and every stored campaign that has them is listed.
pub proof fn lemma_listing_is_the_filtered_campaigns(cs: Seq<CampaignRecord>, f: CampaignFilter)
    requires
        cs.len() <= usize::MAX,
    ensures
        listed(cs, f).len() <= cs.len(),
        forall|q: int|
            0 <= q < listed(cs, f).len() ==> ({
                let c = cs[#[trigger] listed(cs, f)[q] as int];
                &&& 0 <= listed(cs, f)[q] < cs.len()
                &&& (f.status matches Some(st) ==> c.status == st)
                &&& (f.target_id matches Some(t) ==> c.target_id@ == t@)
                &&& (f.since matches Some(t) ==> c.created_at >= t)
                &&& (f.until matches Some(t) ==> c.created_at <= t)
            }),
        forall|i: int|
            0 <= i < cs.len() && (f.status matches Some(st) ==> (#[trigger] cs[i]).status == st) && (
            f.target_id matches Some(t) ==> cs[i].target_id@ == t@) && (f.since matches Some(t)
                ==> cs[i].created_at >= t) && (f.until matches Some(t) ==> cs[i].created_at <= t)
                ==> exists|q: int| 0 <= q < listed(cs, f).len() && listed(cs, f)[q] == i,
        forall|a: int, b: int|
            0 <= a < b < listed(cs, f).len() ==> #[trigger] listed(cs, f)[a] != #[trigger] listed(
                cs,
                f,
            )[b],
{
    let p = campaign_matches(f);
    let m = matching_upto(cs, p, cs.len() as int);
    lemma_matching_upto(cs, p, cs.len() as int);
    lemma_sort_keeps_positions(campaign_keys(cs), m, true);
    assert forall|a: int, b: int| 0 <= a < b < m.len() implies #[trigger] m[a] != #[trigger] m[b] by {
        assert(m[a] < m[b]);
    }
    lemma_sort_keeps_distinct(campaign_keys(cs), m, true);
    let l = listed(cs, f);
    assert forall|q: int| 0 <= q < l.len() implies ({
        let c = cs[#[trigger] l[q] as int];
        &&& 0 <= l[q] < cs.len()
        &&& (f.status matches Some(st) ==> c.status == st)
        &&& (f.target_id matches Some(t) ==> c.target_id@ == t@)
        &&& (f.since matches Some(t) ==> c.created_at >= t)
        &&& (f.until matches Some(t) ==> c.created_at <= t)
    }) by {
        let k = choose|k: int| 0 <= k < m.len() && l[q] == m[k];
        assert(p(cs[m[k] as int]));
    }
    assert forall|i: int|
        0 <= i < cs.len() && (f.status matches Some(st) ==> (#[trigger] cs[i]).status == st) && (
        f.target_id matches Some(t) ==> cs[i].target_id@ == t@) && (f.since matches Some(t)
            ==> cs[i].created_at >= t) && (f.until matches Some(t) ==> cs[i].created_at <= t)
            implies exists|q: int| 0 <= q < l.len() && l[q] == i by {
        assert(p(cs[i]));
        let k = choose|k: int| 0 <= k < m.len() && m[k] == i;
        let q = choose|q: int| 0 <= q < m.len() && l[q] == #[trigger] m[k];
    }
}

/// A run that starts is the run with that id, now running and stamped
/// with the start instant; every other run is left as it was. A run that
/// does not start leaves the store as it was.
pub proof fn lemma_start_records_when(s: StoreState, run_id: u128, now: i128)
    ensures
        start_spec(s, run_id, now).1 ==> exists|j: int|
            0 <= j < s.runs.len() && #[trigger] s.runs[j].id == run_id && s.runs[j].status
                == RunStatus::Pending && start_spec(s, run_id, now).0.runs.len() == s.runs.len()
                && start_spec(s, run_id, now).0.runs[j].id == run_id && start_spec(
                s,
                run_id,
                now,
            ).0.runs[j].status == RunStatus::Running && start_spec(s, run_id, now).0.runs[j].started_at
                == Some(now) && start_spec(s, run_id, now).0.runs[j].iterations == s.runs[j].iterations
                && start_spec(s, run_id, now).0.runs[j].finished_at == s.runs[j].finished_at && (
            forall|k: int|
                0 <= k < s.runs.len() && k != j ==> #[trigger] start_spec(s, run_id, now).0.runs[k]
                    == s.runs[k]),
        !start_spec(s, run_id, now).1 ==> start_spec(s, run_id, now).0 == s,
{
    lemma_first_index(s.runs, run_id_is(run_id), 0);
}

/// The findings listed for a run are exactly its own, each once: every one
/// listed belongs to the run and every finding of the run is listed; and
/// the count the run reports is the number of findings that belong to it.
pub proof fn lemma_run_findings_are_its_own(fs: Seq<FindingRecord>, run_id: u128)
    requires
        fs.len() <= usize::MAX,
    ensures
        ({
            let order = sort_by_key(
                finding_keys(fs),
                matching_upto(fs, of_run(run_id), fs.len() as int),
                false,
            );
            &&& forall|q: int|
                0 <= q < order.len() ==> 0 <= #[trigger] order[q] < fs.len() && fs[order[q] as int].run_id
                    == run_id
            &&& forall|i: int|
                0 <= i < fs.len() && (#[trigger] fs[i]).run_id == run_id ==> exists|q: int|
                    0 <= q < order.len() && order[q] == i
            &&& forall|a: int, b: int|
                0 <= a < b < order.len() ==> #[trigger] order[a] != #[trigger] order[b]
            &&& fs.filter(of_run(run_id)).len() == order.len()
        }),
        forall|a: int, b: int|
            0 <= a < b < matching_upto(fs, of_run(run_id), fs.len() as int).len() ==> #[trigger] matching_upto(
                fs,
                of_run(run_id),
                fs.len() as int,
            )[a] < #[trigger] matching_upto(fs, of_run(run_id), fs.len() as int)[b],
        forall|q: int|
            0 <= q < matching_upto(fs, of_run(run_id), fs.len() as int).len() ==> fs[#[trigger] matching_upto(
                fs,
                of_run(run_id),
                fs.len() as int,
            )[q] as int].run_id == run_id,
{
    let p = of_run(run_id);
    let m = matching_upto(fs, p, fs.len() as int);
    lemma_matching_upto(fs, p, fs.len() as int);
    lemma_sort_keeps_positions(finding_keys(fs), m, false);
    assert forall|a: int, b: int| 0 <= a < b < m.len() implies #[trigger] m[a] != #[trigger] m[b] by {
        assert(m[a] < m[b]);
    }
    lemma_sort_keeps_distinct(finding_keys(fs), m, false);
    assert(fs.take(fs.len() as int) =~= fs);
    let order = sort_by_key(finding_keys(fs), m, false);
    assert forall|q: int| 0 <= q < order.len() implies 0 <= #[trigger] order[q] < fs.len()
        && fs[order[q] as int].run_id == run_id by {
        let k = choose|k: int| 0 <= k < m.len() && order[q] == m[k];
        assert(p(fs[m[k] as int]));
    }
    assert forall|i: int| 0 <= i < fs.len() && (#[trigger] fs[i]).run_id == run_id implies exists|q: int|
        0 <= q < order.len() && order[q] == i by {
        assert(p(fs[i]));
        let k = choose|k: int| 0 <= k < m.len() && m[k] == i;
        let q = choose|q: int| 0 <= q < m.len() && order[q] == #[trigger] m[k];
    }
    assert forall|q: int| 0 <= q < m.len() implies fs[#[trigger] m[q] as int].run_id == run_id by {
        assert(p(fs[m[q] as int]));
    }
}

} // verus!
