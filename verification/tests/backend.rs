use soro_fuzz::api::campaigns::{
    campaign_created, campaign_filter, cancel_campaign, get_campaign, list_campaigns,
    parse_campaign_status, parse_datetime, validate_new_campaign, CreateCampaignRequest,
    ListCampaignsQuery,
};
use soro_fuzz::api::error::ApiError;
use soro_fuzz::api::findings::{get_finding, list_findings_for_run};
use soro_fuzz::api::health::health;
use soro_fuzz::api::runs::get_run;
use soro_fuzz::api::stream::{open_stream, Received, SseEvent, StreamState};
use soro_fuzz::api::targets::{get_target, list_targets};
use soro_fuzz::api::util::parse_uuid;
use soro_fuzz::mock_store::MockStore;
use soro_fuzz::runner::{LogLevel, MockRunner, ProgressEvent, RunFinding};
use soro_fuzz::store::{CampaignFilter, CampaignStatus, NewCampaign, RunStatus};
use soro_fuzz::targets::{InvariantInfo, Target, TargetRegistry};
use soro_fuzz::worker::{ProcessAction, ProcessEvent, SkipReason, Worker};

fn target(id: &str, invariants: &[&str]) -> Target {
    Target {
        id: id.to_string(),
        name: id.to_string(),
        contract_name: id.to_string(),
        methods: Vec::new(),
        available_invariants: invariants
            .iter()
            .map(|i| InvariantInfo {
                id: i.to_string(),
                name: i.to_string(),
                description: String::new(),
            })
            .collect(),
        fuzz_target_name: format!("{id}_fuzz"),
        known_buggy: false,
    }
}

fn registry() -> TargetRegistry {
    TargetRegistry::from_targets(vec![
        target("counter", &["counter-value-matches-model"]),
        target("token", &["no-negative-balance", "supply-conservation"]),
    ])
    .unwrap()
}

fn new_campaign(store: &mut MockStore, target_id: &str) -> (u128, u128) {
    let record = store.create_campaign(NewCampaign {
        target_id: target_id.to_string(),
        name: "test".to_string(),
        invariant_ids: Vec::new(),
        time_budget_secs: 30,
    });
    (record.id, record.run_id)
}

fn test_worker() -> Worker {
    Worker::new("test-worker".to_string(), Some("thread".to_string()))
}

/// Runs a claimed job through the worker's steps against the store and
/// runner; returns the last action.
fn process(
    worker: &Worker,
    store: &mut MockStore,
    targets: &TargetRegistry,
    runner: &MockRunner,
    campaign_id: u128,
    run_id: u128,
) -> ProcessAction {
    let (mut state, mut action) = worker.begin(campaign_id, run_id);
    loop {
        let event = match action {
            ProcessAction::LoadCampaign(id) => ProcessEvent::CampaignLoaded(Ok(store.get_campaign(id))),
            ProcessAction::StartRun { run_id, worker_id } => {
                ProcessEvent::RunStarted(Ok(store.start_run(run_id, &worker_id)))
            }
            ProcessAction::Run { job, .. } => ProcessEvent::RunnerFinished(runner.run(&job).1),
            ProcessAction::Finish { run_id, finish, .. } => {
                store.finish_run(run_id, finish);
                ProcessEvent::FinishStored(Ok(()))
            }
            done => return done,
        };
        let (next_state, next_action) = worker.step(targets, state, event);
        state = next_state;
        action = next_action;
    }
}

#[test]
fn happy_path_persists_completed_run_and_findings() {
    let mut store = MockStore::new();
    let (campaign_id, run_id) = new_campaign(&mut store, "counter");
    let finding = RunFinding {
        invariant: "counter-value-matches-model".to_string(),
        message: "mismatch".to_string(),
        step_index: 2,
        sequence: Vec::new(),
        shrunk_input: None,
        artifact_path: "fuzz/artifacts/counter_fuzz/crash-abc".to_string(),
    };
    let runner = MockRunner::succeeds_with(1234, vec![finding]);
    let last = process(&test_worker(), &mut store, &registry(), &runner, campaign_id, run_id);
    assert!(matches!(last, ProcessAction::Close { store_error: None, .. }));

    let run = store.get_run(run_id).unwrap();
    assert_eq!(run.status, RunStatus::Completed);
    assert_eq!(run.iterations, 1234);
    assert_eq!(run.findings_count, 1);

    let findings = store.list_findings_for_run(run_id);
    assert_eq!(findings.len(), 1);
    assert_eq!(findings[0].fuzz_target_name, "counter_fuzz");
    assert!(findings[0].requires_sanitizer_thread);

    let campaign = store.get_campaign(campaign_id).unwrap();
    assert_eq!(campaign.status, CampaignStatus::Completed);
}

#[test]
fn runner_failure_marks_run_and_campaign_failed() {
    let mut store = MockStore::new();
    let (campaign_id, run_id) = new_campaign(&mut store, "counter");
    let runner = MockRunner::always_fails("boom".to_string());
    process(&test_worker(), &mut store, &registry(), &runner, campaign_id, run_id);
    let run = store.get_run(run_id).unwrap();
    assert_eq!(run.status, RunStatus::Failed);
    assert_eq!(run.iterations, 0);
    let campaign = store.get_campaign(campaign_id).unwrap();
    assert_eq!(campaign.status, CampaignStatus::Failed);
}

#[test]
fn runner_cancellation_marks_run_and_campaign_cancelled() {
    let mut store = MockStore::new();
    let (campaign_id, run_id) = new_campaign(&mut store, "counter");
    let runner = MockRunner::cancelled_after(5);
    process(&test_worker(), &mut store, &registry(), &runner, campaign_id, run_id);
    let run = store.get_run(run_id).unwrap();
    assert_eq!(run.status, RunStatus::Cancelled);
    assert_eq!(run.iterations, 5);
    let campaign = store.get_campaign(campaign_id).unwrap();
    assert_eq!(campaign.status, CampaignStatus::Cancelled);
}

#[test]
fn process_skips_a_run_cancelled_before_it_was_claimed() {
    let mut store = MockStore::new();
    let (campaign_id, run_id) = new_campaign(&mut store, "counter");
    store.cancel_campaign(campaign_id);
    let runner = MockRunner::always_fails("should never run".to_string());
    let last = process(&test_worker(), &mut store, &registry(), &runner, campaign_id, run_id);
    assert!(matches!(last, ProcessAction::Skip(SkipReason::NotPending)));
    let run = store.get_run(run_id).unwrap();
    assert_eq!(run.status, RunStatus::Cancelled, "process() must not have called the runner");
}

#[test]
fn claim_process_pipeline_end_to_end() {
    let mut store = MockStore::new();
    let (_campaign_id, run_id) = new_campaign(&mut store, "counter");
    let runner = MockRunner::always_succeeds();
    let claimed = store
        .claim_job("test-worker".to_string())
        .expect("job should be claimable");
    assert_eq!(claimed.run_id, run_id);
    assert_eq!(claimed.attempts, 1);
    process(&test_worker(), &mut store, &registry(), &runner, claimed.campaign_id, claimed.run_id);
    assert!(
        store.claim_job("test-worker".to_string()).is_none(),
        "an already-claimed job must not be reclaimed"
    );
    assert_eq!(store.get_run(run_id).unwrap().status, RunStatus::Completed);
}

#[test]
fn a_claimed_job_is_never_claimed_again_while_others_wait() {
    let mut store = MockStore::new();
    let (_, first) = new_campaign(&mut store, "counter");
    let (_, second) = new_campaign(&mut store, "token");
    assert_eq!(store.claim_job("w1".to_string()).unwrap().run_id, first);
    assert_eq!(store.claim_job("w2".to_string()).unwrap().run_id, second);
    assert!(store.claim_job("w3".to_string()).is_none());
}

#[test]
fn a_cancelled_run_is_never_claimed() {
    let mut store = MockStore::new();
    let (campaign_id, _) = new_campaign(&mut store, "counter");
    store.cancel_campaign(campaign_id);
    assert!(store.claim_job("w".to_string()).is_none());
}

#[test]
fn finishing_after_a_cancellation_keeps_the_cancellation_and_the_findings() {
    let mut store = MockStore::new();
    let (campaign_id, run_id) = new_campaign(&mut store, "counter");
    assert!(store.start_run(run_id, "w"));
    store.cancel_campaign(campaign_id);
    let finding = RunFinding {
        invariant: "counter-value-matches-model".to_string(),
        message: "late".to_string(),
        step_index: 0,
        sequence: Vec::new(),
        shrunk_input: None,
        artifact_path: String::new(),
    };
    let runner = MockRunner::succeeds_with(10, vec![finding]);
    let finish = test_worker().finish_for(runner.run(&soro_fuzz::runner::RunJob {
        run_id,
        campaign_id,
        fuzz_target_name: "counter_fuzz".to_string(),
        invariant_ids: Vec::new(),
        time_budget_secs: 30,
    }).1, "counter_fuzz");
    store.finish_run(run_id, finish);
    let run = store.get_run(run_id).unwrap();
    assert_eq!(run.status, RunStatus::Cancelled);
    assert_eq!(run.findings_count, 1);
    assert_eq!(store.get_campaign(campaign_id).unwrap().status, CampaignStatus::Cancelled);
}

#[test]
fn starting_a_run_twice_only_starts_it_once() {
    let mut store = MockStore::new();
    let (campaign_id, run_id) = new_campaign(&mut store, "counter");
    assert!(store.start_run(run_id, "w"));
    assert!(!store.start_run(run_id, "w"));
    assert_eq!(store.get_campaign(campaign_id).unwrap().status, CampaignStatus::Running);
}

fn body(target_id: &str, name: &str, invariant_ids: &[&str], time_budget_secs: i64) -> CreateCampaignRequest {
    CreateCampaignRequest {
        target_id: target_id.to_string(),
        name: name.to_string(),
        invariant_ids: invariant_ids.iter().map(|s| s.to_string()).collect(),
        time_budget_secs,
    }
}

fn assert_bad_request(r: Result<NewCampaign, ApiError>, code: &str) {
    match r {
        Err(e) => {
            assert_eq!(e.status, 400);
            assert_eq!(e.error, code);
        }
        Ok(_) => panic!("expected {code}"),
    }
}

#[test]
fn create_campaign_rejects_unknown_target() {
    let r = validate_new_campaign(&registry(), body("nope", "x", &[], 10), 600);
    assert_bad_request(r, "unknown_target");
}

#[test]
fn create_campaign_rejects_unknown_invariant() {
    let r = validate_new_campaign(&registry(), body("counter", "x", &["not-a-real-invariant"], 10), 600);
    match r {
        Err(e) => {
            assert_eq!(e.error, "unknown_invariant");
            assert_eq!(e.message, "target `counter` has no invariant `not-a-real-invariant`");
        }
        Ok(_) => panic!("expected unknown_invariant"),
    }
}

#[test]
fn create_campaign_rejects_time_budget_out_of_range() {
    assert_bad_request(
        validate_new_campaign(&registry(), body("counter", "x", &[], 0), 600),
        "invalid_time_budget",
    );
    match validate_new_campaign(&registry(), body("counter", "x", &[], 10_000), 600) {
        Err(e) => {
            assert_eq!(e.error, "invalid_time_budget");
            assert_eq!(
                e.message,
                "timeBudgetSecs must be between 1 and 600 (the configured JOB_TIMEOUT_SECONDS)"
            );
        }
        Ok(_) => panic!("expected invalid_time_budget"),
    }
}

#[test]
fn create_campaign_rejects_a_blank_name() {
    assert_bad_request(
        validate_new_campaign(&registry(), body("counter", "  ", &[], 10), 600),
        "invalid_name",
    );
}

#[test]
fn create_then_get_round_trips() {
    let mut store = MockStore::new();
    let input = validate_new_campaign(
        &registry(),
        body("counter", "smoke test", &["counter-value-matches-model"], 30),
        600,
    )
    .unwrap();
    let record = store.create_campaign(input);
    let (status, created) = campaign_created(&record);
    assert_eq!(status, 201);
    assert_eq!(created.status, CampaignStatus::Queued);
    assert_eq!(created.target_id, "counter");
    assert!(!created.run_id.is_empty());

    let id = parse_uuid(&created.id).unwrap();
    let fetched = get_campaign(id, store.get_campaign(id)).unwrap();
    assert_eq!(fetched.id, created.id);
    assert_eq!(fetched.name, "smoke test");
}

#[test]
fn get_missing_campaign_returns_404() {
    let store = MockStore::new();
    let e = get_campaign(7, store.get_campaign(7)).unwrap_err();
    assert_eq!(e.status, 404);
    assert_eq!(e.error, "campaign_not_found");
    assert_eq!(e.message, "no campaign with id 00000000-0000-0000-0000-000000000007");
}

#[test]
fn get_campaign_rejects_malformed_id() {
    let e = parse_uuid("not-a-uuid").unwrap_err();
    assert_eq!(e.status, 400);
    assert_eq!(e.error, "invalid_id");
    assert_eq!(e.message, "`not-a-uuid` is not a valid id");
}

#[test]
fn cancel_is_idempotent() {
    let mut store = MockStore::new();
    let (id, _) = new_campaign(&mut store, "counter");
    for _ in 0..2 {
        let answer = cancel_campaign(id, store.cancel_campaign(id)).unwrap();
        assert_eq!(answer.status, CampaignStatus::Cancelled);
    }
}

#[test]
fn list_filters_by_target_id() {
    let mut store = MockStore::new();
    new_campaign(&mut store, "counter");
    new_campaign(&mut store, "token");
    let filter = campaign_filter(ListCampaignsQuery {
        target_id: Some("token".to_string()),
        ..ListCampaignsQuery::default()
    })
    .unwrap();
    let campaigns = list_campaigns(&store.list_campaigns(filter));
    assert_eq!(campaigns.len(), 1);
    assert_eq!(campaigns[0].target_id, "token");
}

#[test]
fn listing_is_newest_first_and_paged() {
    let mut store = MockStore::new();
    let (a, _) = new_campaign(&mut store, "counter");
    let (b, _) = new_campaign(&mut store, "counter");
    let (c, _) = new_campaign(&mut store, "counter");
    let all = store.list_campaigns(CampaignFilter {
        limit: 50,
        ..CampaignFilter::default()
    });
    assert_eq!(all.len(), 3);
    assert!(all[0].created_at >= all[1].created_at && all[1].created_at >= all[2].created_at);
    let ids: Vec<u128> = all.iter().map(|r| r.id).collect();
    for id in [a, b, c] {
        assert!(ids.contains(&id));
    }
    let page = store.list_campaigns(CampaignFilter {
        limit: 1,
        offset: 1,
        ..CampaignFilter::default()
    });
    assert_eq!(page.len(), 1);
    assert_eq!(page[0].id, all[1].id);
}

#[test]
fn listing_query_defaults_and_clamps() {
    let f = campaign_filter(ListCampaignsQuery::default()).unwrap();
    assert_eq!((f.limit, f.offset), (50, 0));
    let f = campaign_filter(ListCampaignsQuery {
        limit: Some(1000),
        offset: Some(-4),
        status: Some("running".to_string()),
        ..ListCampaignsQuery::default()
    })
    .unwrap();
    assert_eq!((f.limit, f.offset, f.status), (200, 0, Some(CampaignStatus::Running)));
    assert!(campaign_filter(ListCampaignsQuery {
        status: Some("paused".to_string()),
        ..ListCampaignsQuery::default()
    })
    .is_err());
}

#[test]
fn statuses_and_dates_are_read_or_refused() {
    assert_eq!(parse_campaign_status("failed").unwrap(), CampaignStatus::Failed);
    let e = parse_campaign_status("Failed").unwrap_err();
    assert_eq!(e.message, "`Failed` is not a valid status");
    assert_eq!(parse_datetime("1970-01-01T00:00:01Z").unwrap(), 1_000_000_000);
    assert_eq!(parse_datetime("1970-01-01T01:00:00+01:00").unwrap(), 0);
    let e = parse_datetime("yesterday").unwrap_err();
    assert_eq!(e.error, "invalid_date");
    assert_eq!(e.message, "`yesterday` is not a valid ISO 8601 timestamp");
}

#[test]
fn ids_are_written_hyphenated_and_read_back() {
    let mut store = MockStore::new();
    let (id, run_id) = new_campaign(&mut store, "counter");
    let dto = get_campaign(id, store.get_campaign(id)).unwrap();
    assert_eq!(dto.id.len(), 36);
    assert_eq!(dto.id.matches('-').count(), 4);
    assert_eq!(dto.id, dto.id.to_lowercase());
    assert_eq!(parse_uuid(&dto.id).unwrap(), id);
    assert_eq!(parse_uuid(&dto.run_id).unwrap(), run_id);
}

#[test]
fn missing_run_is_404() {
    let store = MockStore::new();
    let e = get_run(3, store.get_run(3)).unwrap_err();
    assert_eq!(e.status, 404);
    assert_eq!(e.error, "run_not_found");
}

#[test]
fn malformed_id_is_400() {
    assert_eq!(parse_uuid("1234").unwrap_err().status, 400);
}

#[test]
fn findings_of_a_missing_run_are_404_and_of_a_fresh_run_empty() {
    let mut store = MockStore::new();
    let (_, run_id) = new_campaign(&mut store, "counter");
    let none = list_findings_for_run(5, store.get_run(5), &store.list_findings_for_run(5)).unwrap_err();
    assert_eq!(none.status, 404);
    let empty = list_findings_for_run(run_id, store.get_run(run_id), &store.list_findings_for_run(run_id)).unwrap();
    assert!(empty.is_empty());
    let e = get_finding(9, store.get_finding(9)).unwrap_err();
    assert_eq!(e.error, "finding_not_found");
}

#[test]
fn pending_run_with_no_channel_emits_one_status_event_then_closes() {
    let (state, events) = open_stream(RunStatus::Pending, false);
    assert!(state.closed);
    assert_eq!(events.len(), 1);
    assert!(matches!(events[0], SseEvent::Status { status: RunStatus::Pending }));
}

#[test]
fn live_run_streams_events_in_order_and_closes_on_terminal_status() {
    let (mut state, events) = open_stream(RunStatus::Running, true);
    assert!(events.is_empty());
    let received = vec![
        Received::Event(ProgressEvent::Status(RunStatus::Running)),
        Received::Event(ProgressEvent::Log {
            line: "cargo +nightly fuzz run counter_fuzz".to_string(),
            level: LogLevel::Info,
        }),
        Received::Lagged(3),
        Received::Event(ProgressEvent::Iterations { count: 42, elapsed_secs: 3 }),
        Received::Event(ProgressEvent::Finding {
            invariant: "counter-value-matches-model".to_string(),
            step_index: 7,
        }),
        Received::Event(ProgressEvent::Status(RunStatus::Completed)),
        Received::Event(ProgressEvent::Iterations { count: 99, elapsed_secs: 9 }),
    ];
    let mut sent: Vec<SseEvent> = Vec::new();
    for r in received {
        if let Some(e) = state.next(r, 0) {
            sent.push(e);
        }
    }
    let names: Vec<&str> = sent.iter().map(|e| e.name()).collect();
    assert_eq!(names, ["status", "log", "progress", "finding", "status"]);
    assert!(matches!(
        sent[2],
        SseEvent::Progress { iterations: 42, elapsed_secs: 3, status: RunStatus::Running }
    ));
    match &sent[1] {
        SseEvent::Log { level, .. } => assert_eq!(level, "info"),
        other => panic!("unexpected {other:?}"),
    }
    match &sent[3] {
        SseEvent::Finding { finding_id, invariant, step_index } => {
            assert_eq!(finding_id, "");
            assert_eq!(invariant, "counter-value-matches-model");
            assert_eq!(*step_index, 7);
        }
        other => panic!("unexpected {other:?}"),
    }
    assert!(state.closed);
    let _ = StreamState { last_status: RunStatus::Pending, closed: false };
}

#[test]
fn health_is_degraded_when_the_database_does_not_answer() {
    let (code, report) = health(Ok(()));
    assert_eq!((code, report.status.as_str()), (200, "ok"));
    let (code, report) = health(Err("connection refused".to_string()));
    assert_eq!((code, report.status.as_str()), (503, "degraded"));
    assert_eq!(report.database.detail.as_deref(), Some("connection refused"));
    assert!(!report.toolchain.ok);
}

#[test]
fn targets_are_listed_in_order_and_found_by_id() {
    let reg = registry();
    let all = list_targets(&reg);
    assert_eq!(all.len(), 2);
    assert_eq!(all[1].available_invariants.len(), 2);
    assert_eq!(get_target(&reg, "token").unwrap().fuzz_target_name, "token_fuzz");
    assert_eq!(get_target(&reg, "nope").unwrap_err(), 404);
}
