use codex_remote::json::Json;
use codex_remote::memories::{
    enqueue_global_consolidation, heartbeat_global_phase2_job, mark_global_phase2_job_failed_if_unowned,
    mark_global_phase2_job_succeeded, mark_job_failed, mark_stage1_job_succeeded,
    mark_stage1_job_succeeded_no_output, query_limit, stage1_source_needs_update,
    try_claim_global_phase2_job, try_claim_stage1_job, Claimant, MemoryJob,
    Phase2JobClaimOutcome, Stage1JobClaimOutcome, Stage1Source, DEFAULT_RETRY_REMAINING,
    PHASE2_SUCCESS_COOLDOWN_SECONDS,
};
use codex_remote::memory_outputs::{
    is_prunable, memory_advisory_lock_key, memory_thread_metadata_from_stored_thread,
    new_memory_ownership_token, polluted_memory_mode, prune_stage1_outputs_for_retention,
    record_stage1_output_usage,
    remote_rollout_path, retention_cutoff, select_output, sort_selected_outputs,
    stage1_output_from_row, store_output, OutputRow, Stage1Output,
};
use codex_remote::protocol::SessionSource;
use codex_remote::startup_claims::{
    startup_scan, ScanWindow, Stage1StartupClaimParams, StartupClaims, StartupScan,
};
use codex_remote::thread_id::ThreadId;
use codex_remote::thread_records::StoredThread;
use codex_remote::thread_store::ThreadHistoryMode;
use codex_remote::time::Timestamp;

const NOW: i64 = 1_700_000_000;

fn thread_id(n: u64) -> ThreadId {
    ThreadId::from_string(&format!("00000000-0000-0000-0000-{n:012}")).expect("thread id")
}

fn at(seconds: i64) -> Timestamp {
    Timestamp::from_parts(seconds, 0).expect("instant")
}

fn claimant(now: i64) -> Claimant {
    Claimant {
        worker_id: thread_id(1),
        ownership_token: "token".to_string(),
        lease_seconds: 60,
        now,
    }
}

fn source(updated_at: i64) -> Stage1Source {
    Stage1Source {
        existing_output: None,
        source_updated_at: updated_at,
        running_jobs: 0,
        max_running_jobs: 2,
    }
}

fn claimed(job: Option<MemoryJob>, updated_at: i64, now: i64) -> MemoryJob {
    match try_claim_stage1_job(job, source(updated_at), claimant(now)) {
        Stage1JobClaimOutcome::Claimed(job) => job,
        other => panic!("not claimed: {other:?}"),
    }
}

#[test]
fn threads_are_read_again_when_they_change() {
    assert!(stage1_source_needs_update(None, None, 5));
    assert!(!stage1_source_needs_update(Some(5), None, 5));
    assert!(!stage1_source_needs_update(None, Some(5), 5));
    assert!(stage1_source_needs_update(Some(4), Some(4), 5));
}

#[test]
fn readings_are_claimed() {
    let job = claimed(None, 5, NOW);
    assert_eq!(job.status, "running");
    assert_eq!(job.ownership_token.as_deref(), Some("token"));
    assert_eq!(job.lease_until, Some(NOW + 60));
    assert_eq!(job.input_watermark, Some(5));
    assert_eq!(job.retry_remaining, DEFAULT_RETRY_REMAINING);
    assert_eq!(
        try_claim_stage1_job(Some(job), source(5), claimant(NOW + 1)),
        Stage1JobClaimOutcome::SkippedRunning
    );
}

#[test]
fn read_threads_are_skipped() {
    assert_eq!(
        try_claim_stage1_job(
            None,
            Stage1Source {
                existing_output: Some(5),
                ..source(5)
            },
            claimant(NOW)
        ),
        Stage1JobClaimOutcome::SkippedUpToDate
    );
    assert_eq!(
        try_claim_stage1_job(
            None,
            Stage1Source {
                running_jobs: 2,
                ..source(5)
            },
            claimant(NOW)
        ),
        Stage1JobClaimOutcome::SkippedRunning
    );
    let mut job = claimed(None, 5, NOW);
    assert!(mark_stage1_job_succeeded(&mut job, "token", NOW + 1));
    assert_eq!(job.last_success_watermark, Some(5));
    assert_eq!(
        try_claim_stage1_job(Some(job), source(5), claimant(NOW + 2)),
        Stage1JobClaimOutcome::SkippedUpToDate
    );
}

#[test]
fn failed_readings_back_off_and_run_out() {
    let mut job = claimed(None, 5, NOW);
    assert!(!mark_job_failed(&mut job, "other", "boom", 30, NOW));
    assert!(mark_job_failed(&mut job, "token", "boom", 30, NOW));
    assert_eq!(job.status, "error");
    assert_eq!(job.retry_at, Some(NOW + 30));
    assert_eq!(job.retry_remaining, DEFAULT_RETRY_REMAINING - 1);
    assert_eq!(job.last_error.as_deref(), Some("boom"));
    job.retry_remaining = 1;
    let kept = || MemoryJob {
        status: "error".to_string(),
        worker_id: None,
        ownership_token: None,
        started_at: None,
        finished_at: None,
        lease_until: None,
        retry_at: Some(NOW + 30),
        retry_remaining: 1,
        last_error: None,
        input_watermark: Some(5),
        last_success_watermark: None,
    };
    assert_eq!(
        try_claim_stage1_job(Some(kept()), source(5), claimant(NOW)),
        Stage1JobClaimOutcome::SkippedRetryBackoff
    );
    let spent = MemoryJob {
        retry_remaining: 0,
        ..kept()
    };
    assert_eq!(
        try_claim_stage1_job(Some(spent), source(5), claimant(NOW + 60)),
        Stage1JobClaimOutcome::SkippedRetryExhausted
    );
    let again = claimed(
        Some(MemoryJob {
            retry_remaining: 0,
            ..kept()
        }),
        6,
        NOW,
    );
    assert_eq!(again.retry_remaining, DEFAULT_RETRY_REMAINING);
}

#[test]
fn readings_without_output_tell_their_mark() {
    let mut job = claimed(None, 5, NOW);
    assert_eq!(
        mark_stage1_job_succeeded_no_output(&mut job, "other", NOW),
        None
    );
    assert_eq!(
        mark_stage1_job_succeeded_no_output(&mut job, "token", NOW),
        Some(5)
    );
    assert_eq!(job.status, "done");
}

fn consolidation(job: Option<MemoryJob>, now: i64) -> (MemoryJob, i64) {
    match try_claim_global_phase2_job(job, claimant(now)) {
        Phase2JobClaimOutcome::Claimed {
            job,
            input_watermark,
        } => (job, input_watermark),
        other => panic!("not claimed: {other:?}"),
    }
}

#[test]
fn consolidations_are_claimed_and_cool_down() {
    let (mut job, mark) = consolidation(None, NOW);
    assert_eq!(mark, 0);
    assert!(heartbeat_global_phase2_job(&mut job, "token", 90, NOW));
    assert_eq!(job.lease_until, Some(NOW + 90));
    assert!(!heartbeat_global_phase2_job(&mut job, "other", 90, NOW));
    assert!(mark_global_phase2_job_succeeded(&mut job, "token", 7, NOW));
    assert_eq!(job.last_success_watermark, Some(7));
    let finished = || MemoryJob {
        status: "done".to_string(),
        worker_id: None,
        ownership_token: None,
        started_at: None,
        finished_at: Some(NOW),
        lease_until: None,
        retry_at: None,
        retry_remaining: 3,
        last_error: None,
        input_watermark: Some(9),
        last_success_watermark: Some(7),
    };
    assert_eq!(
        try_claim_global_phase2_job(Some(finished()), claimant(NOW + 1)),
        Phase2JobClaimOutcome::SkippedCooldown
    );
    let (_, mark) = consolidation(Some(finished()), NOW + PHASE2_SUCCESS_COOLDOWN_SECONDS);
    assert_eq!(mark, 9);
    assert_eq!(
        try_claim_global_phase2_job(
            Some(MemoryJob {
                retry_at: Some(NOW + 5),
                ..finished()
            }),
            claimant(NOW)
        ),
        Phase2JobClaimOutcome::SkippedRetryUnavailable
    );
    let (running, _) = consolidation(None, NOW);
    assert_eq!(
        try_claim_global_phase2_job(Some(running), claimant(NOW)),
        Phase2JobClaimOutcome::SkippedRunning
    );
}

#[test]
fn lost_consolidations_fail() {
    let (mut job, _) = consolidation(None, NOW);
    assert!(!mark_global_phase2_job_failed_if_unowned(
        &mut job, "other", "lost", 10, NOW
    ));
    job.ownership_token = None;
    assert!(mark_global_phase2_job_failed_if_unowned(
        &mut job, "other", "lost", 10, NOW
    ));
    assert_eq!(job.status, "error");
}

#[test]
fn enqueueing_lifts_the_mark() {
    let job = enqueue_global_consolidation(None, 4).expect("job");
    assert_eq!(job.status, "pending");
    assert_eq!(job.input_watermark, Some(4));
    let job = enqueue_global_consolidation(Some(job), 4).expect("job");
    assert_eq!(job.input_watermark, Some(5));
    let job = enqueue_global_consolidation(Some(job), 9).expect("job");
    assert_eq!(job.input_watermark, Some(9));
    let full = MemoryJob {
        input_watermark: Some(i64::MAX),
        ..job
    };
    assert!(enqueue_global_consolidation(Some(full), 0).is_none());
}

#[test]
fn limits_fit_queries() {
    assert_eq!(query_limit(7), 7);
    assert_eq!(query_limit(usize::MAX), i64::MAX);
}

fn output(updated_at: i64) -> OutputRow {
    OutputRow {
        source_updated_at: updated_at,
        raw_memory: "raw".to_string(),
        rollout_summary: format!("summary {updated_at}"),
        rollout_slug: None,
        generated_at: NOW,
        usage_count: None,
        last_usage: None,
        selected_for_phase2: false,
        selected_for_phase2_source_updated_at: None,
    }
}

#[test]
fn outputs_are_only_replaced_by_newer_ones() {
    let mut row = store_output(None, output(5));
    assert!(record_stage1_output_usage(&mut row, NOW + 1));
    assert_eq!(row.usage_count, Some(1));
    let row = store_output(Some(row), output(4));
    assert_eq!(row.rollout_summary, "summary 5");
    let row = store_output(Some(row), output(6));
    assert_eq!(row.rollout_summary, "summary 6");
    assert_eq!(row.usage_count, Some(1));
    let mut full = OutputRow {
        usage_count: Some(i64::MAX),
        ..row
    };
    assert!(!record_stage1_output_usage(&mut full, NOW));
}

#[test]
fn unused_outputs_are_pruned() {
    let mut row = output(NOW - 100);
    assert!(is_prunable(&row, NOW));
    select_output(&mut row, Some(NOW - 100));
    assert!(row.selected_for_phase2);
    assert!(!is_prunable(&row, NOW));
    select_output(&mut row, Some(1));
    assert!(!row.selected_for_phase2);
    row.last_usage = Some(NOW);
    assert!(!is_prunable(&row, NOW));
    assert_eq!(retention_cutoff(at(NOW), 1), Some(NOW - 86_400));
    assert_eq!(retention_cutoff(at(NOW), i64::MAX), None);
    let leap = Timestamp::from_parts(59, 1_500_000_000).expect("leap second");
    assert_eq!(retention_cutoff(leap, 1), Some(60 - 86_400));
    assert_eq!(retention_cutoff(leap, 0), Some(59));
}

#[test]
fn memories_are_polluted_once() {
    assert_eq!(
        polluted_memory_mode("enabled".to_string()),
        ("polluted".to_string(), true)
    );
    assert_eq!(
        polluted_memory_mode("polluted".to_string()),
        ("polluted".to_string(), false)
    );
}

#[test]
fn paths_and_tokens_are_written() {
    let id = thread_id(7);
    assert_eq!(
        remote_rollout_path("w", &id),
        format!("/remote-sql/workspaces/w/threads/{}.jsonl", id.as_str())
    );
    assert_eq!(
        new_memory_ownership_token("p", at(1), 2, 3),
        "p:1000000000:2:3"
    );
    assert_eq!(
        memory_advisory_lock_key("w", "memory_stage1"),
        "generated-memory:w:memory_stage1"
    );
}

fn stored(n: u64) -> StoredThread {
    StoredThread {
        thread_id: thread_id(n),
        extra_config: None,
        rollout_path: None,
        forked_from_id: None,
        parent_thread_id: None,
        preview: "preview".to_string(),
        name: None,
        model_provider: "openai".to_string(),
        model: None,
        reasoning_effort: None,
        created_at: at(1),
        updated_at: at(2),
        recency_at: at(3),
        archived_at: None,
        section: None,
        section_position: None,
        section_entered_at: None,
        project_id: None,
        cwd: "/tmp".to_string(),
        cli_version: "test".to_string(),
        source: SessionSource {
            value: Json::string("cli"),
            debug: "Cli".to_string(),
            display: "cli".to_string(),
            is_thread_spawn: false,
        },
        history_mode: ThreadHistoryMode::Legacy,
        thread_source: None,
        agent_nickname: None,
        agent_role: None,
        agent_path: None,
        git_info: None,
        approval_mode: Json::string("on-request"),
        permission_profile: Json::string("read-only"),
        token_usage: None,
        first_user_message: None,
        history: None,
    }
}

#[test]
fn threads_are_described_for_memories() {
    let metadata = memory_thread_metadata_from_stored_thread("w", stored(7));
    assert_eq!(metadata.source, "cli");
    assert_eq!(metadata.cwd, "/tmp");
    assert_eq!(metadata.rollout_path, remote_rollout_path("w", &thread_id(7)));
    assert_eq!(metadata.tokens_used, 0);
    assert_eq!(metadata.approval_mode, "on-request");
}

#[test]
fn outputs_are_listed_by_thread() {
    let read = |n: u64| -> Stage1Output {
        stage1_output_from_row("w", stored(n), output(NOW)).expect("output")
    };
    let sorted = sort_selected_outputs(vec![read(3), read(1), read(2)]);
    assert_eq!(
        sorted
            .iter()
            .map(|o| o.thread_id.as_str().to_string())
            .collect::<Vec<_>>(),
        (1..=3)
            .map(|n| thread_id(n).as_str().to_string())
            .collect::<Vec<_>>()
    );
    assert_eq!(sorted[0].source_updated_at, at(NOW));
    assert!(stage1_output_from_row("w", stored(1), output(i64::MAX)).is_err());
}

#[test]
fn prunes_the_first_of_what_may_go() {
    let mut kept = output(1);
    select_output(&mut kept, Some(1));
    let rows = vec![output(1), kept, output(2), output(3), output(NOW)];
    assert_eq!(
        prune_stage1_outputs_for_retention(&rows, NOW, 2),
        vec![0, 2]
    );
    assert_eq!(
        prune_stage1_outputs_for_retention(&rows, NOW, 9),
        vec![0, 2, 3]
    );
    assert_eq!(
        prune_stage1_outputs_for_retention(&rows, NOW, 0),
        Vec::<usize>::new()
    );
}

fn scan_params() -> Stage1StartupClaimParams {
    Stage1StartupClaimParams {
        scan_limit: 5,
        max_claimed: 1,
        max_age_days: 2,
        min_rollout_idle_hours: 3,
    }
}

#[test]
fn startup_looks_at_idle_threads_that_are_not_too_old() {
    assert_eq!(
        startup_scan(scan_params(), at(NOW)),
        StartupScan::Window(ScanWindow {
            not_before: at(NOW - 2 * 86_400),
            not_after: at(NOW - 3 * 3_600),
            limit: 5,
        })
    );
    let negative = Stage1StartupClaimParams {
        max_age_days: -1,
        min_rollout_idle_hours: -1,
        ..scan_params()
    };
    assert_eq!(
        startup_scan(negative, at(NOW)),
        StartupScan::Window(ScanWindow {
            not_before: at(NOW),
            not_after: at(NOW),
            limit: 5,
        })
    );
    for nothing in [
        Stage1StartupClaimParams {
            scan_limit: 0,
            ..scan_params()
        },
        Stage1StartupClaimParams {
            max_claimed: 0,
            ..scan_params()
        },
    ] {
        assert_eq!(startup_scan(nothing, at(NOW)), StartupScan::Nothing);
    }
    let endless = Stage1StartupClaimParams {
        max_age_days: i64::MAX,
        ..scan_params()
    };
    assert_eq!(startup_scan(endless, at(NOW)), StartupScan::OutOfRange);
}

#[test]
fn startup_takes_only_so_many() {
    let thread = |n: u64| memory_thread_metadata_from_stored_thread("w", stored(n));
    let mut claims = StartupClaims::new(1);
    claims.note(thread(1), Stage1JobClaimOutcome::SkippedRunning);
    assert!(!claims.is_full());
    let won = || Stage1JobClaimOutcome::Claimed(claimed(None, 5, NOW));
    claims.note(thread(2), won());
    assert!(claims.is_full());
    claims.note(thread(3), won());
    assert_eq!(claims.claimed.len(), 1);
    assert_eq!(claims.claimed[0].thread.id, thread_id(2));
    assert_eq!(claims.claimed[0].ownership_token, "token");
}
