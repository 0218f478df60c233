use codex_remote::agent_jobs::{
    agent_job_from_record, agent_job_item_from_record, agent_job_item_record, agent_job_record,
    create_agent_job, ensure_unique_headers, get_agent_job_progress, is_agent_job_cancelled,
    list_agent_job_items, mark_agent_job_cancelled, mark_agent_job_completed,
    mark_agent_job_failed, mark_agent_job_item_completed, mark_agent_job_item_failed,
    mark_agent_job_item_pending, mark_agent_job_item_running,
    mark_agent_job_item_running_with_thread, mark_agent_job_running, normalize_concurrency,
    normalize_max_runtime_seconds, report_agent_job_item_result, set_agent_job_item_thread,
    AgentJob, AgentJobCreateParams, AgentJobItem, AgentJobItemCreateParams, AgentJobItemStatus,
    AgentJobProgress, AgentJobStatus, FunctionCallError, ProgressRow,
};
use codex_remote::json::Json;
use codex_remote::sql::SqlValue;
use codex_remote::time::Timestamp;

fn at(seconds: i64) -> Timestamp {
    Timestamp::from_parts(seconds, 0).expect("instant")
}

fn new_job() -> (AgentJob, Vec<AgentJobItem>) {
    let item = |index: i64| AgentJobItemCreateParams {
        item_id: format!("item-{index}"),
        row_index: index,
        source_id: None,
        row_json: Json::read(r#"{"name": "Ada"}"#).expect("row"),
    };
    create_agent_job(
        AgentJobCreateParams {
            id: "job-1".to_string(),
            name: "job".to_string(),
            instruction: "do work".to_string(),
            auto_export: true,
            max_runtime_seconds: Some(7),
            output_schema_json: None,
            input_headers: vec!["name".to_string()],
            input_csv_path: "/tmp/in.csv".to_string(),
            output_csv_path: "/tmp/out.csv".to_string(),
        },
        vec![item(0), item(1)],
        at(1),
    )
}

fn new_item() -> AgentJobItem {
    new_job().1.remove(0)
}

#[test]
fn normalize_concurrency_clamps_to_requested_maximums() {
    assert_eq!(normalize_concurrency(None, None), 16);
    assert_eq!(normalize_concurrency(Some(0), None), 1);
    assert_eq!(normalize_concurrency(Some(128), None), 64);
    assert_eq!(normalize_concurrency(Some(12), Some(4)), 4);
}

#[test]
fn normalize_max_runtime_seconds_rejects_zero() {
    let err = normalize_max_runtime_seconds(Some(0)).expect_err("zero runtime should fail");
    assert!(matches!(
        err,
        FunctionCallError::RespondToModel(message) if message == "max_runtime_seconds must be >= 1"
    ));
    assert_eq!(
        normalize_max_runtime_seconds(Some(9)).expect("runtime"),
        Some(9)
    );
    assert_eq!(normalize_max_runtime_seconds(None), Ok(None));
}

#[test]
fn ensure_unique_headers_rejects_duplicates() {
    let err = ensure_unique_headers(&vec!["id".to_string(), "id".to_string()])
        .expect_err("duplicate headers should fail");
    assert!(matches!(
        err,
        FunctionCallError::RespondToModel(message) if message == "csv header id is duplicated"
    ));
    assert_eq!(
        ensure_unique_headers(&vec!["id".to_string(), "name".to_string()]),
        Ok(())
    );
}

#[test]
fn new_jobs_wait_with_their_items() {
    let (job, items) = new_job();
    assert_eq!(job.status, AgentJobStatus::Pending);
    assert_eq!(job.created_at, at(1));
    assert_eq!(items.len(), 2);
    assert_eq!(items[1].item_id, "item-1");
    assert_eq!(items[1].job_id, "job-1");
    assert_eq!(items[1].row_index, 1);
    assert_eq!(items[1].status, AgentJobItemStatus::Pending);
    assert_eq!(items[1].attempt_count, 0);
}

#[test]
fn jobs_go_through_their_course() {
    let (mut job, _) = new_job();
    mark_agent_job_running(&mut job, at(2));
    assert_eq!(job.started_at, Some(at(2)));
    mark_agent_job_failed(&mut job, "boom".to_string(), at(3));
    assert_eq!(job.status, AgentJobStatus::Failed);
    assert_eq!(job.last_error.as_deref(), Some("boom"));
    assert_eq!(job.completed_at, Some(at(3)));
    mark_agent_job_running(&mut job, at(4));
    assert_eq!(job.started_at, Some(at(2)));
    assert_eq!(job.completed_at, None);
    assert_eq!(job.last_error, None);
    mark_agent_job_completed(&mut job, at(5));
    assert_eq!(job.status, AgentJobStatus::Completed);
    assert_eq!(job.updated_at, at(5));
}

#[test]
fn only_open_jobs_are_cancelled() {
    let (mut job, _) = new_job();
    assert!(mark_agent_job_cancelled(&mut job, "stop".to_string(), at(2)));
    assert!(is_agent_job_cancelled(Some(&job)));
    assert_eq!(job.last_error.as_deref(), Some("stop"));
    assert!(!mark_agent_job_cancelled(&mut job, "again".to_string(), at(3)));
    assert_eq!(job.last_error.as_deref(), Some("stop"));
    assert!(!is_agent_job_cancelled(None));
}

#[test]
fn items_are_taken_by_one_and_reported_by_that_one() {
    let mut item = new_item();
    let result = || Json::read(r#"{"score": 9}"#).expect("result");
    assert!(mark_agent_job_item_running_with_thread(
        &mut item,
        "thread-1".to_string(),
        at(2)
    ));
    assert!(!mark_agent_job_item_running(&mut item, at(2)));
    assert_eq!(item.attempt_count, 1);
    assert!(!report_agent_job_item_result(
        &mut item,
        "thread-2",
        result(),
        at(3)
    ));
    assert_eq!(item.status, AgentJobItemStatus::Running);
    assert!(report_agent_job_item_result(
        &mut item,
        "thread-1",
        result(),
        at(4)
    ));
    assert_eq!(item.status, AgentJobItemStatus::Completed);
    assert_eq!(item.assigned_thread_id, None);
    assert_eq!(item.result_json, Some(result()));
    assert_eq!(item.reported_at, Some(at(4)));
    assert!(!mark_agent_job_item_failed(
        &mut item,
        "late".to_string(),
        at(5)
    ));
    assert!(!mark_agent_job_item_pending(&mut item, None, at(5)));
}

#[test]
fn items_that_do_not_wait_are_not_taken() {
    let mut item = AgentJobItem {
        status: AgentJobItemStatus::Running,
        attempt_count: i64::MAX,
        ..new_item()
    };
    assert!(!mark_agent_job_item_running(&mut item, at(2)));
    assert!(!mark_agent_job_item_running_with_thread(
        &mut item,
        "thread-1".to_string(),
        at(2)
    ));
    assert_eq!(item.attempt_count, i64::MAX);
    assert_eq!(item.status, AgentJobItemStatus::Running);
}

#[test]
fn items_can_wait_again() {
    let mut item = new_item();
    assert!(!set_agent_job_item_thread(
        &mut item,
        "thread-1".to_string(),
        at(2)
    ));
    assert!(mark_agent_job_item_running(&mut item, at(2)));
    assert!(set_agent_job_item_thread(
        &mut item,
        "thread-1".to_string(),
        at(3)
    ));
    assert_eq!(item.assigned_thread_id.as_deref(), Some("thread-1"));
    assert!(!mark_agent_job_item_completed(&mut item, at(3)));
    assert!(mark_agent_job_item_pending(
        &mut item,
        Some("lost".to_string()),
        at(4)
    ));
    assert_eq!(item.assigned_thread_id, None);
    assert_eq!(item.last_error.as_deref(), Some("lost"));
    assert!(mark_agent_job_item_running(&mut item, at(5)));
    assert_eq!(item.attempt_count, 2);
    assert_eq!(item.last_error, None);
    item.result_json = Some(Json::Null);
    assert!(mark_agent_job_item_completed(&mut item, at(6)));
    assert_eq!(item.completed_at, Some(at(6)));
}

#[test]
fn failed_items_keep_their_error() {
    let mut item = new_item();
    assert!(mark_agent_job_item_running(&mut item, at(2)));
    assert!(mark_agent_job_item_failed(
        &mut item,
        "boom".to_string(),
        at(3)
    ));
    assert_eq!(item.status, AgentJobItemStatus::Failed);
    assert_eq!(item.last_error.as_deref(), Some("boom"));
}

#[test]
fn records_are_read_back() {
    let (job, mut items) = new_job();
    let record = agent_job_record(job);
    assert_eq!(record.status, "pending");
    assert_eq!(agent_job_from_record(record), Some(new_job().0));

    let record = agent_job_item_record(items.remove(1));
    assert_eq!(record.status, "pending");
    assert_eq!(
        agent_job_item_from_record(record),
        Some(new_job().1.remove(1))
    );
}

#[test]
fn unknown_statuses_are_refused() {
    let (job, mut items) = new_job();
    let mut record = agent_job_record(job);
    record.status = "paused".to_string();
    assert_eq!(agent_job_from_record(record), None);
    let mut record = agent_job_item_record(items.remove(0));
    record.status = "cancelled".to_string();
    assert_eq!(agent_job_item_from_record(record), None);
    for status in [
        AgentJobStatus::Pending,
        AgentJobStatus::Running,
        AgentJobStatus::Completed,
        AgentJobStatus::Failed,
        AgentJobStatus::Cancelled,
    ] {
        assert_eq!(AgentJobStatus::parse(status.as_str()), Some(status));
    }
}

#[test]
fn progress_counts_what_is_there() {
    assert_eq!(
        get_agent_job_progress(ProgressRow {
            total_items: 3,
            pending_items: Some(1),
            running_items: None,
            completed_items: Some(2),
            failed_items: Some(-1),
        }),
        AgentJobProgress {
            total_items: 3,
            pending_items: 1,
            running_items: 0,
            completed_items: 2,
            failed_items: 0,
        }
    );
}

#[test]
fn item_query_names_status_and_limit() {
    let query = list_agent_job_items("w", "job-1", Some(AgentJobItemStatus::Failed), Some(5));
    assert!(query.sql.ends_with(
        "WHERE job.workspace_id =\n             $1 AND item.job_id = $2 AND item.status = $3 \
         ORDER BY (item.payload->>'row_index')::bigint ASC LIMIT $4"
    ));
    assert_eq!(
        query.binds,
        vec![
            SqlValue::Text("w".to_string()),
            SqlValue::Text("job-1".to_string()),
            SqlValue::Text("failed".to_string()),
            SqlValue::Integer(5),
        ]
    );
    let query = list_agent_job_items("w", "job-1", None, None);
    assert!(query.sql.ends_with("ASC"));
    assert_eq!(query.binds.len(), 2);
}
