//! Jobs that agents work on, one item after the other.

use vstd::prelude::*;

use crate::json::Json;
use crate::sql::{QueryView, SqlQuery, SqlValue, SqlValueView};
use crate::text::{self, opt_text};
use crate::time::Timestamp;

verus! {

// ---------------------------------------------------------------------------------------------
// Jobs and items
// ---------------------------------------------------------------------------------------------

/// How far a job has come.
#[derive(Debug, Clone, Copy, PartialEq, Eq, Structural)]
pub enum AgentJobStatus {
    Pending,
    Running,
    Completed,
    Failed,
    Cancelled,
}

/// How far an item has come.
#[derive(Debug, Clone, Copy, PartialEq, Eq, Structural)]
pub enum AgentJobItemStatus {
    Pending,
    Running,
    Completed,
    Failed,
}

/// The name under which the status of a job is stored.
pub open spec fn job_status_key(status: AgentJobStatus) -> Seq<char> {
    match status {
        AgentJobStatus::Pending => "pending"@,
        AgentJobStatus::Running => "running"@,
        AgentJobStatus::Completed => "completed"@,
        AgentJobStatus::Failed => "failed"@,
        AgentJobStatus::Cancelled => "cancelled"@,
    }
}

/// The name under which the status of an item is stored.
pub open spec fn item_status_key(status: AgentJobItemStatus) -> Seq<char> {
    match status {
        AgentJobItemStatus::Pending => "pending"@,
        AgentJobItemStatus::Running => "running"@,
        AgentJobItemStatus::Completed => "completed"@,
        AgentJobItemStatus::Failed => "failed"@,
    }
}

impl AgentJobStatus {
    /// The name under which the status is stored.
    pub fn as_str(self) -> (r: &'static str)
        ensures
            r@ == job_status_key(self),
    {
        match self {
            AgentJobStatus::Pending => "pending",
            AgentJobStatus::Running => "running",
            AgentJobStatus::Completed => "completed",
            AgentJobStatus::Failed => "failed",
            AgentJobStatus::Cancelled => "cancelled",
        }
    }

    /// The status that is stored under a name.
    pub fn parse(key: &str) -> (r: Option<AgentJobStatus>)
        ensures
            match r {
                Some(status) => key@ == job_status_key(status),
                None => forall|status: AgentJobStatus| key@ != #[trigger] job_status_key(status),
            },
    {
        if text::str_eq(key, "pending") {
            Some(AgentJobStatus::Pending)
        } else if text::str_eq(key, "running") {
            Some(AgentJobStatus::Running)
        } else if text::str_eq(key, "completed") {
            Some(AgentJobStatus::Completed)
        } else if text::str_eq(key, "failed") {
            Some(AgentJobStatus::Failed)
        } else if text::str_eq(key, "cancelled") {
            Some(AgentJobStatus::Cancelled)
        } else {
            None
        }
    }
}

impl AgentJobItemStatus {
    /// The name under which the status is stored.
    pub fn as_str(self) -> (r: &'static str)
        ensures
            r@ == item_status_key(self),
    {
        match self {
            AgentJobItemStatus::Pending => "pending",
            AgentJobItemStatus::Running => "running",
            AgentJobItemStatus::Completed => "completed",
            AgentJobItemStatus::Failed => "failed",
        }
    }

    /// The status that is stored under a name.
    pub fn parse(key: &str) -> (r: Option<AgentJobItemStatus>)
        ensures
            match r {
                Some(status) => key@ == item_status_key(status),
                None => forall|status: AgentJobItemStatus|
                    key@ != #[trigger] item_status_key(status),
            },
    {
        if text::str_eq(key, "pending") {
            Some(AgentJobItemStatus::Pending)
        } else if text::str_eq(key, "running") {
            Some(AgentJobItemStatus::Running)
        } else if text::str_eq(key, "completed") {
            Some(AgentJobItemStatus::Completed)
        } else if text::str_eq(key, "failed") {
            Some(AgentJobItemStatus::Failed)
        } else {
            None
        }
    }
}

/// A job.
#[derive(Debug, PartialEq)]
pub struct AgentJob {
    pub id: String,
    pub name: String,
    pub status: AgentJobStatus,
    pub instruction: String,
    pub auto_export: bool,
    pub max_runtime_seconds: Option<u64>,
    pub output_schema_json: Option<Json>,
    pub input_headers: Vec<String>,
    pub input_csv_path: String,
    pub output_csv_path: String,
    pub created_at: Timestamp,
    pub updated_at: Timestamp,
    pub started_at: Option<Timestamp>,
    pub completed_at: Option<Timestamp>,
    pub last_error: Option<String>,
}

/// An item of a job.
#[derive(Debug, PartialEq)]
pub struct AgentJobItem {
    pub job_id: String,
    pub item_id: String,
    pub row_index: i64,
    pub source_id: Option<String>,
    pub row_json: Json,
    pub status: AgentJobItemStatus,
    pub assigned_thread_id: Option<String>,
    pub attempt_count: i64,
    pub result_json: Option<Json>,
    pub last_error: Option<String>,
    pub created_at: Timestamp,
    pub updated_at: Timestamp,
    pub completed_at: Option<Timestamp>,
    pub reported_at: Option<Timestamp>,
}

/// What a new job is made of.
#[derive(Debug)]
pub struct AgentJobCreateParams {
    pub id: String,
    pub name: String,
    pub instruction: String,
    pub auto_export: bool,
    pub max_runtime_seconds: Option<u64>,
    pub output_schema_json: Option<Json>,
    pub input_headers: Vec<String>,
    pub input_csv_path: String,
    pub output_csv_path: String,
}

/// What a new item is made of.
#[derive(Debug)]
pub struct AgentJobItemCreateParams {
    pub item_id: String,
    pub row_index: i64,
    pub source_id: Option<String>,
    pub row_json: Json,
}

/// The item is a new one.
pub open spec fn is_new_item(
    item: AgentJobItem,
    job_id: Seq<char>,
    params: AgentJobItemCreateParams,
    now: Timestamp,
) -> bool {
    &&& item.job_id@ == job_id
    &&& item.item_id == params.item_id
    &&& item.row_index == params.row_index
    &&& item.source_id == params.source_id
    &&& item.row_json == params.row_json
    &&& item.status == AgentJobItemStatus::Pending
    &&& item.assigned_thread_id is None
    &&& item.attempt_count == 0
    &&& item.result_json is None
    &&& item.last_error is None
    &&& item.created_at == now
    &&& item.updated_at == now
    &&& item.completed_at is None
    &&& item.reported_at is None
}

/// A new item, at which nobody has worked.
pub fn new_agent_job_item(job_id: &str, params: AgentJobItemCreateParams, now: Timestamp) -> (r:
    AgentJobItem)
    ensures
        is_new_item(r, job_id@, params, now),
{
    AgentJobItem {
        job_id: text::owned(job_id),
        item_id: params.item_id,
        row_index: params.row_index,
        source_id: params.source_id,
        row_json: params.row_json,
        status: AgentJobItemStatus::Pending,
        assigned_thread_id: None,
        attempt_count: 0,
        result_json: None,
        last_error: None,
        created_at: now,
        updated_at: now,
        completed_at: None,
        reported_at: None,
    }
}

/// A new job with its items, in the order in which they were given.
pub fn create_agent_job(
    params: AgentJobCreateParams,
    items: Vec<AgentJobItemCreateParams>,
    now: Timestamp,
) -> (r: (AgentJob, Vec<AgentJobItem>))
    ensures
        r.0.id == params.id,
        r.0.name == params.name,
        r.0.status == AgentJobStatus::Pending,
        r.0.instruction == params.instruction,
        r.0.auto_export == params.auto_export,
        r.0.max_runtime_seconds == params.max_runtime_seconds,
        r.0.output_schema_json == params.output_schema_json,
        r.0.input_headers == params.input_headers,
        r.0.input_csv_path == params.input_csv_path,
        r.0.output_csv_path == params.output_csv_path,
        r.0.created_at == now,
        r.0.updated_at == now,
        r.0.started_at is None,
        r.0.completed_at is None,
        r.0.last_error is None,
        r.1@.len() == items@.len(),
        forall|i: int|
            0 <= i < items@.len() ==> is_new_item(#[trigger] r.1@[i], params.id@, items@[i], now),
{
    let ghost all = items@;
    let mut rest = items;
    let mut made: Vec<AgentJobItem> = Vec::new();
    while rest.len() > 0
        invariant
            made@.len() + rest@.len() == all.len(),
            rest@ == all.skip(made@.len() as int),
            forall|i: int|
                0 <= i < made@.len() ==> is_new_item(
                    #[trigger] made@[i],
                    params.id@,
                    all[i],
                    now,
                ),
        decreases rest@.len(),
    {
        let item = rest.remove(0);
        assert(rest@ =~= all.skip(made@.len() as int + 1));
        made.push(new_agent_job_item(params.id.as_str(), item, now));
    }
    let job = AgentJob {
        id: params.id,
        name: params.name,
        status: AgentJobStatus::Pending,
        instruction: params.instruction,
        auto_export: params.auto_export,
        max_runtime_seconds: params.max_runtime_seconds,
        output_schema_json: params.output_schema_json,
        input_headers: params.input_headers,
        input_csv_path: params.input_csv_path,
        output_csv_path: params.output_csv_path,
        created_at: now,
        updated_at: now,
        started_at: None,
        completed_at: None,
        last_error: None,
    };
    (job, made)
}

// ---------------------------------------------------------------------------------------------
// How jobs and items are stored
// ---------------------------------------------------------------------------------------------

/// What is stored of a job as a document.
#[derive(Debug, PartialEq)]
pub struct AgentJobPayload {
    pub name: String,
    pub instruction: String,
    pub auto_export: bool,
    pub max_runtime_seconds: Option<u64>,
    pub output_schema_json: Option<Json>,
    pub input_headers: Vec<String>,
    pub input_csv_path: String,
    pub output_csv_path: String,
    pub started_at: Option<Timestamp>,
    pub completed_at: Option<Timestamp>,
    pub last_error: Option<String>,
}

/// A job as it is stored.
#[derive(Debug, PartialEq)]
pub struct AgentJobRecord {
    pub id: String,
    pub status: String,
    pub payload: AgentJobPayload,
    pub created_at: Timestamp,
    pub updated_at: Timestamp,
}

/// What is stored of an item as a document.
#[derive(Debug, PartialEq)]
pub struct AgentJobItemPayload {
    pub row_index: i64,
    pub source_id: Option<String>,
    pub row_json: Json,
    pub attempt_count: i64,
    pub result_json: Option<Json>,
    pub last_error: Option<String>,
    pub created_at: Timestamp,
    pub completed_at: Option<Timestamp>,
    pub reported_at: Option<Timestamp>,
}

/// An item as it is stored.
#[derive(Debug, PartialEq)]
pub struct AgentJobItemRecord {
    pub job_id: String,
    pub item_id: String,
    pub status: String,
    pub assigned_thread_id: Option<String>,
    pub payload: AgentJobItemPayload,
    pub updated_at: Timestamp,
}

/// The record is that of a job.
pub open spec fn records_job(record: AgentJobRecord, job: AgentJob) -> bool {
    &&& record.id == job.id
    &&& record.status@ == job_status_key(job.status)
    &&& record.created_at == job.created_at
    &&& record.updated_at == job.updated_at
    &&& record.payload == (AgentJobPayload {
        name: job.name,
        instruction: job.instruction,
        auto_export: job.auto_export,
        max_runtime_seconds: job.max_runtime_seconds,
        output_schema_json: job.output_schema_json,
        input_headers: job.input_headers,
        input_csv_path: job.input_csv_path,
        output_csv_path: job.output_csv_path,
        started_at: job.started_at,
        completed_at: job.completed_at,
        last_error: job.last_error,
    })
}

/// The record is that of an item.
pub open spec fn records_item(record: AgentJobItemRecord, item: AgentJobItem) -> bool {
    &&& record.job_id == item.job_id
    &&& record.item_id == item.item_id
    &&& record.status@ == item_status_key(item.status)
    &&& record.assigned_thread_id == item.assigned_thread_id
    &&& record.updated_at == item.updated_at
    &&& record.payload == (AgentJobItemPayload {
        row_index: item.row_index,
        source_id: item.source_id,
        row_json: item.row_json,
        attempt_count: item.attempt_count,
        result_json: item.result_json,
        last_error: item.last_error,
        created_at: item.created_at,
        completed_at: item.completed_at,
        reported_at: item.reported_at,
    })
}

/// The record of a job.
pub fn agent_job_record(job: AgentJob) -> (r: AgentJobRecord)
    ensures
        records_job(r, job),
{
    AgentJobRecord {
        id: job.id,
        status: text::owned(job.status.as_str()),
        payload: AgentJobPayload {
            name: job.name,
            instruction: job.instruction,
            auto_export: job.auto_export,
            max_runtime_seconds: job.max_runtime_seconds,
            output_schema_json: job.output_schema_json,
            input_headers: job.input_headers,
            input_csv_path: job.input_csv_path,
            output_csv_path: job.output_csv_path,
            started_at: job.started_at,
            completed_at: job.completed_at,
            last_error: job.last_error,
        },
        created_at: job.created_at,
        updated_at: job.updated_at,
    }
}

/// The job of a record, unless nothing is known of its status.
pub fn agent_job_from_record(record: AgentJobRecord) -> (r: Option<AgentJob>)
    ensures
        match r {
            Some(job) => records_job(record, job),
            None => forall|status: AgentJobStatus|
                record.status@ != #[trigger] job_status_key(status),
        },
{
    let status = match AgentJobStatus::parse(record.status.as_str()) {
        Some(status) => status,
        None => return None,
    };
    let payload = record.payload;
    Some(
        AgentJob {
            id: record.id,
            name: payload.name,
            status,
            instruction: payload.instruction,
            auto_export: payload.auto_export,
            max_runtime_seconds: payload.max_runtime_seconds,
            output_schema_json: payload.output_schema_json,
            input_headers: payload.input_headers,
            input_csv_path: payload.input_csv_path,
            output_csv_path: payload.output_csv_path,
            created_at: record.created_at,
            updated_at: record.updated_at,
            started_at: payload.started_at,
            completed_at: payload.completed_at,
            last_error: payload.last_error,
        },
    )
}

/// The record of an item.
pub fn agent_job_item_record(item: AgentJobItem) -> (r: AgentJobItemRecord)
    ensures
        records_item(r, item),
{
    AgentJobItemRecord {
        job_id: item.job_id,
        item_id: item.item_id,
        status: text::owned(item.status.as_str()),
        assigned_thread_id: item.assigned_thread_id,
        payload: AgentJobItemPayload {
            row_index: item.row_index,
            source_id: item.source_id,
            row_json: item.row_json,
            attempt_count: item.attempt_count,
            result_json: item.result_json,
            last_error: item.last_error,
            created_at: item.created_at,
            completed_at: item.completed_at,
            reported_at: item.reported_at,
        },
        updated_at: item.updated_at,
    }
}

/// The item of a record, unless nothing is known of its status.
pub fn agent_job_item_from_record(record: AgentJobItemRecord) -> (r: Option<AgentJobItem>)
    ensures
        match r {
            Some(item) => records_item(record, item),
            None => forall|status: AgentJobItemStatus|
                record.status@ != #[trigger] item_status_key(status),
        },
{
    let status = match AgentJobItemStatus::parse(record.status.as_str()) {
        Some(status) => status,
        None => return None,
    };
    let payload = record.payload;
    Some(
        AgentJobItem {
            job_id: record.job_id,
            item_id: record.item_id,
            row_index: payload.row_index,
            source_id: payload.source_id,
            row_json: payload.row_json,
            status,
            assigned_thread_id: record.assigned_thread_id,
            attempt_count: payload.attempt_count,
            result_json: payload.result_json,
            last_error: payload.last_error,
            created_at: payload.created_at,
            updated_at: record.updated_at,
            completed_at: payload.completed_at,
            reported_at: payload.reported_at,
        },
    )
}

// ---------------------------------------------------------------------------------------------
// The course of a job
// ---------------------------------------------------------------------------------------------

/// What can happen to a job.
pub enum JobStep {
    Start,
    Complete,
    Fail(String),
    Cancel(String),
}

/// The job has not ended.
pub open spec fn is_open(status: AgentJobStatus) -> bool {
    status == AgentJobStatus::Pending || status == AgentJobStatus::Running
}

/// A job after a step, unless the step is not taken: only a job that has not ended is cancelled.
/// A job keeps the instant at which it was first started.
pub open spec fn job_after(job: AgentJob, step: JobStep, now: Timestamp) -> Option<AgentJob> {
    match step {
        JobStep::Start => Some(
            AgentJob {
                status: AgentJobStatus::Running,
                started_at: match job.started_at {
                    Some(t) => Some(t),
                    None => Some(now),
                },
                completed_at: None,
                last_error: None,
                updated_at: now,
                ..job
            },
        ),
        JobStep::Complete => Some(
            AgentJob {
                status: AgentJobStatus::Completed,
                completed_at: Some(now),
                last_error: None,
                updated_at: now,
                ..job
            },
        ),
        JobStep::Fail(message) => Some(
            AgentJob {
                status: AgentJobStatus::Failed,
                completed_at: Some(now),
                last_error: Some(message),
                updated_at: now,
                ..job
            },
        ),
        JobStep::Cancel(reason) => if is_open(job.status) {
            Some(
                AgentJob {
                    status: AgentJobStatus::Cancelled,
                    completed_at: Some(now),
                    last_error: Some(reason),
                    updated_at: now,
                    ..job
                },
            )
        } else {
            None
        },
    }
}

/// Starts a job.
pub fn mark_agent_job_running(job: &mut AgentJob, now: Timestamp)
    ensures
        Some(*final(job)) == job_after(*old(job), JobStep::Start, now),
{
    job.status = AgentJobStatus::Running;
    if job.started_at.is_none() {
        job.started_at = Some(now);
    }
    job.completed_at = None;
    job.last_error = None;
    job.updated_at = now;
}

/// Completes a job.
pub fn mark_agent_job_completed(job: &mut AgentJob, now: Timestamp)
    ensures
        Some(*final(job)) == job_after(*old(job), JobStep::Complete, now),
{
    job.status = AgentJobStatus::Completed;
    job.completed_at = Some(now);
    job.last_error = None;
    job.updated_at = now;
}

/// Ends a job with an error.
pub fn mark_agent_job_failed(job: &mut AgentJob, error_message: String, now: Timestamp)
    ensures
        Some(*final(job)) == job_after(*old(job), JobStep::Fail(error_message), now),
{
    job.status = AgentJobStatus::Failed;
    job.completed_at = Some(now);
    job.last_error = Some(error_message);
    job.updated_at = now;
}

/// Cancels a job that has not ended; says whether it did.
pub fn mark_agent_job_cancelled(job: &mut AgentJob, reason: String, now: Timestamp) -> (r: bool)
    ensures
        match job_after(*old(job), JobStep::Cancel(reason), now) {
            Some(after) => r && *final(job) == after,
            None => !r && *final(job) == *old(job),
        },
{
    let open = match job.status {
        AgentJobStatus::Pending => true,
        AgentJobStatus::Running => true,
        _ => false,
    };
    if !open {
        return false;
    }
    job.status = AgentJobStatus::Cancelled;
    job.completed_at = Some(now);
    job.last_error = Some(reason);
    job.updated_at = now;
    true
}

/// Whether there is a job and it was cancelled.
pub fn is_agent_job_cancelled(job: Option<&AgentJob>) -> (r: bool)
    ensures
        r == (job matches Some(job) && job.status == AgentJobStatus::Cancelled),
{
    match job {
        Some(job) => job.status == AgentJobStatus::Cancelled,
        None => false,
    }
}

// ---------------------------------------------------------------------------------------------
// The course of an item
// ---------------------------------------------------------------------------------------------

/// What can happen to an item.
pub enum ItemStep {
    /// Someone begins to work at it, with the thread that does where it is known.
    Claim(Option<String>),
    /// It waits again, with what went wrong where something did.
    Release(Option<String>),
    /// The thread that works at it becomes known.
    Assign(String),
    /// A thread, by its text, reports the result.
    Report(Seq<char>, Json),
    Complete,
    Fail(String),
}

/// The item is being worked at by a thread.
pub open spec fn is_worked_at_by(item: AgentJobItem, thread_id: Seq<char>) -> bool {
    item.status == AgentJobItemStatus::Running && opt_text(item.assigned_thread_id) == Some(
        thread_id,
    )
}

/// Whether a step is taken: work begins at items that wait, and all else happens to items at
/// which someone works. Only the thread that works at an item reports its result, and only an
/// item with a result is completed.
pub open spec fn item_takes(item: AgentJobItem, step: ItemStep) -> bool {
    match step {
        ItemStep::Claim(_) => item.status == AgentJobItemStatus::Pending,
        ItemStep::Release(_) => item.status == AgentJobItemStatus::Running,
        ItemStep::Assign(_) => item.status == AgentJobItemStatus::Running,
        ItemStep::Report(thread_id, _) => is_worked_at_by(item, thread_id),
        ItemStep::Complete => item.status == AgentJobItemStatus::Running
            && item.result_json is Some,
        ItemStep::Fail(_) => item.status == AgentJobItemStatus::Running,
    }
}

/// An item after a step that is taken.
pub open spec fn item_after(item: AgentJobItem, step: ItemStep, now: Timestamp) -> AgentJobItem {
    match step {
        ItemStep::Claim(thread_id) => AgentJobItem {
            status: AgentJobItemStatus::Running,
            assigned_thread_id: thread_id,
            attempt_count: (item.attempt_count + 1) as i64,
            last_error: None,
            updated_at: now,
            ..item
        },
        ItemStep::Release(message) => AgentJobItem {
            status: AgentJobItemStatus::Pending,
            assigned_thread_id: None,
            last_error: message,
            updated_at: now,
            ..item
        },
        ItemStep::Assign(thread_id) => AgentJobItem {
            assigned_thread_id: Some(thread_id),
            updated_at: now,
            ..item
        },
        ItemStep::Report(_, result) => AgentJobItem {
            status: AgentJobItemStatus::Completed,
            assigned_thread_id: None,
            result_json: Some(result),
            reported_at: Some(now),
            completed_at: Some(now),
            last_error: None,
            updated_at: now,
            ..item
        },
        ItemStep::Complete => AgentJobItem {
            status: AgentJobItemStatus::Completed,
            assigned_thread_id: None,
            completed_at: Some(now),
            updated_at: now,
            ..item
        },
        ItemStep::Fail(message) => AgentJobItem {
            status: AgentJobItemStatus::Failed,
            assigned_thread_id: None,
            completed_at: Some(now),
            last_error: Some(message),
            updated_at: now,
            ..item
        },
    }
}

/// What a step makes of an item: it is taken, or nothing changes.
pub open spec fn item_steps(
    before: AgentJobItem,
    step: ItemStep,
    now: Timestamp,
    after: AgentJobItem,
    taken: bool,
) -> bool {
    &&& taken == item_takes(before, step)
    &&& after == if taken {
        item_after(before, step, now)
    } else {
        before
    }
}

fn claim_agent_job_item(item: &mut AgentJobItem, thread_id: Option<String>, now: Timestamp) -> (r:
    bool)
    requires
        old(item).status == AgentJobItemStatus::Pending ==> old(item).attempt_count < i64::MAX,
    ensures
        item_steps(*old(item), ItemStep::Claim(thread_id), now, *final(item), r),
{
    if item.status != AgentJobItemStatus::Pending {
        return false;
    }
    item.status = AgentJobItemStatus::Running;
    item.assigned_thread_id = thread_id;
    item.attempt_count = item.attempt_count + 1;
    item.last_error = None;
    item.updated_at = now;
    true
}

/// Begins the work at an item that waits; says whether it did.
pub fn mark_agent_job_item_running(item: &mut AgentJobItem, now: Timestamp) -> (r: bool)
    requires
        old(item).status == AgentJobItemStatus::Pending ==> old(item).attempt_count < i64::MAX,
    ensures
        item_steps(*old(item), ItemStep::Claim(None), now, *final(item), r),
{
    claim_agent_job_item(item, None, now)
}

/// Begins the work of a thread at an item that waits; says whether it did.
pub fn mark_agent_job_item_running_with_thread(
    item: &mut AgentJobItem,
    thread_id: String,
    now: Timestamp,
) -> (r: bool)
    requires
        old(item).status == AgentJobItemStatus::Pending ==> old(item).attempt_count < i64::MAX,
    ensures
        item_steps(*old(item), ItemStep::Claim(Some(thread_id)), now, *final(item), r),
{
    claim_agent_job_item(item, Some(thread_id), now)
}

/// Lets an item wait again at which someone works; says whether it did.
pub fn mark_agent_job_item_pending(
    item: &mut AgentJobItem,
    error_message: Option<String>,
    now: Timestamp,
) -> (r: bool)
    ensures
        item_steps(*old(item), ItemStep::Release(error_message), now, *final(item), r),
{
    if item.status != AgentJobItemStatus::Running {
        return false;
    }
    item.status = AgentJobItemStatus::Pending;
    item.assigned_thread_id = None;
    item.last_error = error_message;
    item.updated_at = now;
    true
}

/// Notes the thread that works at an item; says whether someone does.
pub fn set_agent_job_item_thread(item: &mut AgentJobItem, thread_id: String, now: Timestamp) -> (r:
    bool)
    ensures
        item_steps(*old(item), ItemStep::Assign(thread_id), now, *final(item), r),
{
    if item.status != AgentJobItemStatus::Running {
        return false;
    }
    item.assigned_thread_id = Some(thread_id);
    item.updated_at = now;
    true
}

/// Takes the result of an item from the thread that works at it, and from no other; says whether
/// it did.
pub fn report_agent_job_item_result(
    item: &mut AgentJobItem,
    reporting_thread_id: &str,
    result_json: Json,
    now: Timestamp,
) -> (r: bool)
    ensures
        item_steps(
            *old(item),
            ItemStep::Report(reporting_thread_id@, result_json),
            now,
            *final(item),
            r,
        ),
{
    let assigned = match &item.assigned_thread_id {
        Some(thread_id) => text::str_eq(thread_id.as_str(), reporting_thread_id),
        None => false,
    };
    if item.status != AgentJobItemStatus::Running || !assigned {
        return false;
    }
    item.status = AgentJobItemStatus::Completed;
    item.assigned_thread_id = None;
    item.result_json = Some(result_json);
    item.reported_at = Some(now);
    item.completed_at = Some(now);
    item.last_error = None;
    item.updated_at = now;
    true
}

/// Completes an item at which someone works and that has a result; says whether it did.
pub fn mark_agent_job_item_completed(item: &mut AgentJobItem, now: Timestamp) -> (r: bool)
    ensures
        item_steps(*old(item), ItemStep::Complete, now, *final(item), r),
{
    if item.status != AgentJobItemStatus::Running || item.result_json.is_none() {
        return false;
    }
    item.status = AgentJobItemStatus::Completed;
    item.assigned_thread_id = None;
    item.completed_at = Some(now);
    item.updated_at = now;
    true
}

/// Ends the work at an item with an error; says whether someone worked at it.
pub fn mark_agent_job_item_failed(
    item: &mut AgentJobItem,
    error_message: String,
    now: Timestamp,
) -> (r: bool)
    ensures
        item_steps(*old(item), ItemStep::Fail(error_message), now, *final(item), r),
{
    if item.status != AgentJobItemStatus::Running {
        return false;
    }
    item.status = AgentJobItemStatus::Failed;
    item.assigned_thread_id = None;
    item.completed_at = Some(now);
    item.last_error = Some(error_message);
    item.updated_at = now;
    true
}

// ---------------------------------------------------------------------------------------------
// Lists and counts
// ---------------------------------------------------------------------------------------------

/// How many items of a job have come how far.
#[derive(Debug, Clone, Copy, PartialEq, Eq, Structural)]
pub struct AgentJobProgress {
    pub total_items: usize,
    pub pending_items: usize,
    pub running_items: usize,
    pub completed_items: usize,
    pub failed_items: usize,
}

/// A count of the database; zero where it is missing or no count.
pub open spec fn count_of(n: Option<i64>) -> int {
    match n {
        Some(n) => if 0 <= n <= usize::MAX {
            n as int
        } else {
            0
        },
        None => 0,
    }
}

fn to_count(n: Option<i64>) -> (r: usize)
    ensures
        r == count_of(n),
{
    match n {
        Some(n) => if n >= 0 && n as u128 <= usize::MAX as u128 {
            n as usize
        } else {
            0
        },
        None => 0,
    }
}

/// The counts of the database for a job. Without items there are no sums.
#[derive(Debug, Clone, Copy, PartialEq, Eq, Structural)]
pub struct ProgressRow {
    pub total_items: i64,
    pub pending_items: Option<i64>,
    pub running_items: Option<i64>,
    pub completed_items: Option<i64>,
    pub failed_items: Option<i64>,
}

/// How many items of a job have come how far.
pub fn get_agent_job_progress(row: ProgressRow) -> (r: AgentJobProgress)
    ensures
        r.total_items == count_of(Some(row.total_items)),
        r.pending_items == count_of(row.pending_items),
        r.running_items == count_of(row.running_items),
        r.completed_items == count_of(row.completed_items),
        r.failed_items == count_of(row.failed_items),
{
    AgentJobProgress {
        total_items: to_count(Some(row.total_items)),
        pending_items: to_count(row.pending_items),
        running_items: to_count(row.running_items),
        completed_items: to_count(row.completed_items),
        failed_items: to_count(row.failed_items),
    }
}

/// The beginning of the query for the items of a job.
pub const LIST_ITEMS: &'static str =
    "\nSELECT item.job_id, item.item_id, item.status, item.assigned_thread_id,\n       item.payload, item.updated_at\nFROM agent_job_items AS item\nJOIN agent_jobs AS job ON job.id = item.job_id\nWHERE job.workspace_id =\n            ";

/// The query for the items of a job in the order of their rows, those of one status and only so
/// many of them where that is asked for.
pub open spec fn items_query(
    workspace_id: Seq<char>,
    job_id: Seq<char>,
    status: Option<AgentJobItemStatus>,
    limit: Option<usize>,
) -> QueryView {
    let q = QueryView { sql: LIST_ITEMS@, binds: Seq::empty() }.text(" "@).bind(
        SqlValueView::Text(workspace_id),
    ).text(" AND item.job_id = "@).bind(SqlValueView::Text(job_id));
    let q = match status {
        Some(status) => q.text(" AND item.status = "@).bind(
            SqlValueView::Text(item_status_key(status)),
        ),
        None => q,
    };
    let q = q.text(" ORDER BY (item.payload->>'row_index')::bigint ASC"@);
    match limit {
        Some(limit) => q.text(" LIMIT "@).bind(SqlValueView::Integer(limit as i64)),
        None => q,
    }
}

/// The query for the items of a job.
pub fn list_agent_job_items(
    workspace_id: &str,
    job_id: &str,
    status: Option<AgentJobItemStatus>,
    limit: Option<usize>,
) -> (r: SqlQuery)
    ensures
        r@ == items_query(workspace_id@, job_id@, status, limit),
{
    let mut q = SqlQuery::new(LIST_ITEMS);
    q.push(" ");
    q.push_bind(SqlValue::Text(text::owned(workspace_id)));
    q.push(" AND item.job_id = ");
    q.push_bind(SqlValue::Text(text::owned(job_id)));
    if let Some(status) = status {
        q.push(" AND item.status = ");
        q.push_bind(SqlValue::Text(text::owned(status.as_str())));
    }
    q.push(" ORDER BY (item.payload->>'row_index')::bigint ASC");
    if let Some(limit) = limit {
        q.push(" LIMIT ");
        q.push_bind(SqlValue::Integer(limit as i64));
    }
    q
}

// ---------------------------------------------------------------------------------------------
// Requests for jobs
// ---------------------------------------------------------------------------------------------

/// How many items are worked at together where nothing else is asked for.
pub const DEFAULT_CONCURRENCY: usize = 16;

/// How many items are worked at together at most.
pub const MAX_CONCURRENCY: usize = 64;

/// The smaller of two numbers.
pub open spec fn smaller(a: int, b: int) -> int {
    if a < b {
        a
    } else {
        b
    }
}

/// The larger of two numbers.
pub open spec fn larger(a: int, b: int) -> int {
    if a > b {
        a
    } else {
        b
    }
}

/// How many items are worked at together: as many as asked for, at least one, and no more than
/// are allowed.
pub fn normalize_concurrency(requested: Option<usize>, maximum: Option<usize>) -> (r: usize)
    ensures
        ({
            let wish = match requested {
                Some(n) => larger(n as int, 1),
                None => DEFAULT_CONCURRENCY as int,
            };
            let wish = smaller(wish, MAX_CONCURRENCY as int);
            r == match maximum {
                Some(n) => smaller(wish, larger(n as int, 1)),
                None => wish,
            }
        }),
{
    let wish: usize = match requested {
        Some(n) => if n > 1 {
            n
        } else {
            1
        },
        None => DEFAULT_CONCURRENCY,
    };
    let wish: usize = if wish < MAX_CONCURRENCY {
        wish
    } else {
        MAX_CONCURRENCY
    };
    match maximum {
        Some(n) => {
            let bound: usize = if n > 1 {
                n
            } else {
                1
            };
            if wish < bound {
                wish
            } else {
                bound
            }
        },
        None => wish,
    }
}

/// Why a call of a tool fails.
#[derive(Debug, PartialEq, Eq)]
pub enum FunctionCallError {
    /// The model is told.
    RespondToModel(String),
    /// The session ends.
    Fatal(String),
}

/// The seconds that an item may take: none is refused.
pub fn normalize_max_runtime_seconds(requested: Option<u64>) -> (r: Result<
    Option<u64>,
    FunctionCallError,
>)
    ensures
        match r {
            Ok(seconds) => requested != Some(0u64) && seconds == requested,
            Err(e) => requested == Some(0u64) && (
            e matches FunctionCallError::RespondToModel(message) && message@
                == "max_runtime_seconds must be >= 1"@),
        },
{
    if let Some(seconds) = requested {
        if seconds == 0 {
            return Err(
                FunctionCallError::RespondToModel(
                    text::owned("max_runtime_seconds must be >= 1"),
                ),
            );
        }
    }
    Ok(requested)
}

/// A header comes a second time here.
pub open spec fn repeats_at(headers: Seq<String>, i: int) -> bool {
    exists|j: int| 0 <= j < i && #[trigger] headers[j]@ == headers[i]@
}

/// Refuses headers of which one comes twice, naming the first that does.
pub fn ensure_unique_headers(headers: &Vec<String>) -> (r: Result<(), FunctionCallError>)
    ensures
        match r {
            Ok(_) => forall|i: int| 0 <= i < headers@.len() ==> !#[trigger] repeats_at(headers@, i),
            Err(e) => exists|i: int|
                #![trigger repeats_at(headers@, i)]
                {
                    &&& 0 <= i < headers@.len()
                    &&& repeats_at(headers@, i)
                    &&& forall|k: int| 0 <= k < i ==> !#[trigger] repeats_at(headers@, k)
                    &&& e matches FunctionCallError::RespondToModel(message)
                    &&& message@ == "csv header "@ + headers@[i]@ + " is duplicated"@
                },
        },
{
    let mut i: usize = 0;
    while i < headers.len()
        invariant
            i <= headers.len(),
            forall|k: int| 0 <= k < i ==> !#[trigger] repeats_at(headers@, k),
        decreases headers.len() - i,
    {
        let mut j: usize = 0;
        while j < i
            invariant
                j <= i < headers.len(),
                forall|k: int| 0 <= k < i ==> !#[trigger] repeats_at(headers@, k),
                forall|k: int| 0 <= k < j ==> #[trigger] headers@[k]@ != headers@[i as int]@,
            decreases i - j,
        {
            if headers[j] == headers[i] {
                assert(headers@[j as int]@ == headers@[i as int]@);
                assert(repeats_at(headers@, i as int));
                let message = text::concat3("csv header ", headers[i].as_str(), " is duplicated");
                return Err(FunctionCallError::RespondToModel(message));
            }
            j += 1;
        }
        i += 1;
    }
    Ok(())
}

// ---------------------------------------------------------------------------------------------
// Laws
// ---------------------------------------------------------------------------------------------

proof fn lemma_status_names()
    ensures
        "pending"@ != "running"@ && "pending"@ != "completed"@ && "pending"@ != "failed"@
            && "pending"@ != "cancelled"@,
        "running"@ != "completed"@ && "running"@ != "failed"@ && "running"@ != "cancelled"@,
        "completed"@ != "failed"@ && "completed"@ != "cancelled"@ && "failed"@ != "cancelled"@,
{
    reveal_strlit("pending");
    reveal_strlit("running");
    reveal_strlit("completed");
    reveal_strlit("failed");
    reveal_strlit("cancelled");
    assert("pending"@.len() == 7 && "running"@.len() == 7 && "completed"@.len() == 9
        && "failed"@.len() == 6 && "cancelled"@.len() == 9);
    assert("pending"@[0] != "running"@[0]);
    assert("completed"@[1] != "cancelled"@[1]);
}

/// No two statuses share a name, so that each is read back as it was stored.
pub proof fn status_names_differ(
    a: AgentJobStatus,
    b: AgentJobStatus,
    c: AgentJobItemStatus,
    d: AgentJobItemStatus,
)
    ensures
        job_status_key(a) == job_status_key(b) ==> a == b,
        item_status_key(c) == item_status_key(d) ==> c == d,
{
    lemma_status_names();
}

/// A job is read back as it was stored.
pub proof fn stored_jobs_come_back(record: AgentJobRecord, stored: AgentJob, read: AgentJob)
    requires
        records_job(record, stored),
        records_job(record, read),
    ensures
        read == stored,
{
    lemma_status_names();
}

/// An item is read back as it was stored.
pub proof fn stored_items_come_back(
    record: AgentJobItemRecord,
    stored: AgentJobItem,
    read: AgentJobItem,
)
    requires
        records_item(record, stored),
        records_item(record, read),
    ensures
        read == stored,
{
    lemma_status_names();
}

/// What holds of every job that was made here and went through steps: only a job that ended has
/// an instant at which it did, and a running one has been started.
pub open spec fn job_is_sound(job: AgentJob) -> bool {
    &&& is_open(job.status) == job.completed_at is None
    &&& job.status == AgentJobStatus::Running ==> job.started_at is Some
}

/// What every job is, it stays; and no step makes another job of it.
pub proof fn jobs_stay_sound(job: AgentJob, step: JobStep, now: Timestamp)
    requires
        job_is_sound(job),
        job_after(job, step, now) is Some,
    ensures
        ({
            let after = job_after(job, step, now)->0;
            &&& job_is_sound(after)
            &&& after.id == job.id
            &&& after.name == job.name
            &&& after.instruction == job.instruction
            &&& after.created_at == job.created_at
            &&& job.started_at is Some ==> after.started_at == job.started_at
        }),
{
}

/// What holds of every item that was made here and went through steps: only items at which
/// someone works are given to a thread, and a completed one has its result.
pub open spec fn item_is_sound(item: AgentJobItem) -> bool {
    &&& item.status != AgentJobItemStatus::Running ==> item.assigned_thread_id is None
    &&& item.status == AgentJobItemStatus::Completed ==> item.result_json is Some
        && item.completed_at is Some
    &&& item.status == AgentJobItemStatus::Failed ==> item.completed_at is Some
        && item.last_error is Some
    &&& item.attempt_count >= 0
}

/// What every item is, it stays; and no step makes another item of it.
pub proof fn items_stay_sound(item: AgentJobItem, step: ItemStep, now: Timestamp)
    requires
        item_is_sound(item),
        item_takes(item, step),
        item.attempt_count < i64::MAX,
    ensures
        item_is_sound(item_after(item, step, now)),
        item_after(item, step, now).job_id == item.job_id,
        item_after(item, step, now).item_id == item.item_id,
        item_after(item, step, now).row_index == item.row_index,
        item_after(item, step, now).row_json == item.row_json,
        item_after(item, step, now).created_at == item.created_at,
{
}

/// New items are sound.
pub proof fn new_items_are_sound(
    item: AgentJobItem,
    job_id: Seq<char>,
    params: AgentJobItemCreateParams,
    now: Timestamp,
)
    requires
        is_new_item(item, job_id, params, now),
    ensures
        item_is_sound(item),
{
}

/// Nothing happens any more to an item that was completed or that failed.
pub proof fn ended_items_stay(item: AgentJobItem, step: ItemStep)
    requires
        item.status == AgentJobItemStatus::Completed || item.status == AgentJobItemStatus::Failed,
    ensures
        !item_takes(item, step),
{
}

/// Of two that want to work at an item only the first can begin.
pub proof fn items_are_claimed_once(
    item: AgentJobItem,
    first: Option<String>,
    second: Option<String>,
    now: Timestamp,
)
    requires
        item_takes(item, ItemStep::Claim(first)),
    ensures
        !item_takes(item_after(item, ItemStep::Claim(first), now), ItemStep::Claim(second)),
{
}

/// A thread to which an item is not given cannot report its result.
pub proof fn strangers_do_not_report(
    item: AgentJobItem,
    owner: String,
    stranger: Seq<char>,
    result: Json,
    now: Timestamp,
)
    requires
        item_takes(item, ItemStep::Claim(Some(owner))),
        stranger != owner@,
    ensures
        !item_takes(
            item_after(item, ItemStep::Claim(Some(owner)), now),
            ItemStep::Report(stranger, result),
        ),
        item_takes(
            item_after(item, ItemStep::Claim(Some(owner)), now),
            ItemStep::Report(owner@, result),
        ),
{
}

/// Statuses are stored under their own names in lower case.
pub proof fn statuses_have_their_names()
    ensures
        job_status_key(AgentJobStatus::Pending) == "pending"@,
        job_status_key(AgentJobStatus::Running) == "running"@,
        job_status_key(AgentJobStatus::Completed) == "completed"@,
        job_status_key(AgentJobStatus::Failed) == "failed"@,
        job_status_key(AgentJobStatus::Cancelled) == "cancelled"@,
        item_status_key(AgentJobItemStatus::Pending) == "pending"@,
        item_status_key(AgentJobItemStatus::Running) == "running"@,
        item_status_key(AgentJobItemStatus::Completed) == "completed"@,
        item_status_key(AgentJobItemStatus::Failed) == "failed"@,
{
}

/// A job that is started runs, from the first time on since when that was, and nothing is left of
/// how it ended before. One that is completed or fails has ended now, whatever it was; a failure
/// is kept and a success clears it. Only a job that waits or runs is cancelled, and keeps why.
pub proof fn jobs_take_their_course(job: AgentJob, message: String, now: Timestamp)
    ensures
        ({
            let started = job_after(job, JobStep::Start, now);
            let completed = job_after(job, JobStep::Complete, now);
            let broken = job_after(job, JobStep::Fail(message), now);
            let cancelled = job_after(job, JobStep::Cancel(message), now);
            &&& started is Some && started->0.status == AgentJobStatus::Running
                && started->0.completed_at is None && started->0.last_error is None
                && started->0.updated_at == now
            &&& job.started_at is Some ==> started->0.started_at == job.started_at
            &&& job.started_at is None ==> started->0.started_at == Some(now)
            &&& completed is Some && completed->0.status == AgentJobStatus::Completed
                && completed->0.completed_at == Some(now) && completed->0.last_error is None
                && completed->0.started_at == job.started_at && completed->0.updated_at == now
            &&& broken is Some && broken->0.status == AgentJobStatus::Failed
                && broken->0.completed_at == Some(now) && broken->0.last_error == Some(message)
                && broken->0.started_at == job.started_at && broken->0.updated_at == now
            &&& cancelled is Some <==> job.status == AgentJobStatus::Pending || job.status
                == AgentJobStatus::Running
            &&& cancelled is Some ==> cancelled->0.status == AgentJobStatus::Cancelled
                && cancelled->0.completed_at == Some(now) && cancelled->0.last_error == Some(
                message,
            ) && cancelled->0.started_at == job.started_at && cancelled->0.updated_at == now
        }),
{
}

/// No step changes what a job is about.
pub proof fn jobs_keep_what_they_are_about(job: AgentJob, step: JobStep, now: Timestamp)
    requires
        job_after(job, step, now) is Some,
    ensures
        ({
            let after = job_after(job, step, now)->0;
            &&& after.id == job.id
            &&& after.name == job.name
            &&& after.instruction == job.instruction
            &&& after.auto_export == job.auto_export
            &&& after.max_runtime_seconds == job.max_runtime_seconds
            &&& after.output_schema_json == job.output_schema_json
            &&& after.input_headers == job.input_headers
            &&& after.input_csv_path == job.input_csv_path
            &&& after.output_csv_path == job.output_csv_path
            &&& after.created_at == job.created_at
        }),
{
}

/// Work begins at an item exactly where it waits. At an item at which someone works, the thread
/// can become known, the item can be given back, and it can fail; it can be completed where it has
/// a result, and reported by the thread that it is given to. Nothing else is taken.
pub proof fn items_take_steps_in_their_time(
    item: AgentJobItem,
    thread: Option<String>,
    text: String,
    reporter: Seq<char>,
    result: Json,
)
    ensures
        ({
            let waits = item.status == AgentJobItemStatus::Pending;
            let runs = item.status == AgentJobItemStatus::Running;
            &&& item_takes(item, ItemStep::Claim(thread)) <==> waits
            &&& item_takes(item, ItemStep::Release(thread)) <==> runs
            &&& item_takes(item, ItemStep::Assign(text)) <==> runs
            &&& item_takes(item, ItemStep::Fail(text)) <==> runs
            &&& item_takes(item, ItemStep::Complete) <==> runs && item.result_json is Some
            &&& item_takes(item, ItemStep::Report(reporter, result)) <==> runs
                && item.assigned_thread_id is Some && item.assigned_thread_id->0@ == reporter
        }),
{
}

/// What each step does to an item that takes it. A claim counts as one attempt and forgets the last
/// error; giving back makes the item wait, for nobody, with what went wrong; a report keeps the
/// result, and like a completion and a failure ends the item now; a failure keeps what failed.
pub proof fn items_take_their_course(
    item: AgentJobItem,
    thread: Option<String>,
    text: String,
    reporter: Seq<char>,
    result: Json,
    now: Timestamp,
)
    requires
        item.attempt_count < i64::MAX,
    ensures
        ({
            let claimed = item_after(item, ItemStep::Claim(thread), now);
            let released = item_after(item, ItemStep::Release(thread), now);
            let assigned = item_after(item, ItemStep::Assign(text), now);
            let reported = item_after(item, ItemStep::Report(reporter, result), now);
            let completed = item_after(item, ItemStep::Complete, now);
            let broken = item_after(item, ItemStep::Fail(text), now);
            &&& claimed.status == AgentJobItemStatus::Running && claimed.assigned_thread_id
                == thread && claimed.attempt_count == item.attempt_count + 1
                && claimed.last_error is None && claimed.result_json == item.result_json
                && claimed.completed_at == item.completed_at && claimed.reported_at
                == item.reported_at
            &&& released.status == AgentJobItemStatus::Pending && released.assigned_thread_id
                is None && released.last_error == thread && released.attempt_count
                == item.attempt_count && released.result_json == item.result_json
                && released.completed_at == item.completed_at && released.reported_at
                == item.reported_at
            &&& assigned.status == item.status && assigned.assigned_thread_id == Some(text)
                && assigned.attempt_count == item.attempt_count && assigned.last_error
                == item.last_error && assigned.result_json == item.result_json
                && assigned.completed_at == item.completed_at && assigned.reported_at
                == item.reported_at
            &&& reported.status == AgentJobItemStatus::Completed && reported.assigned_thread_id
                is None && reported.result_json == Some(result) && reported.reported_at == Some(
                now,
            ) && reported.completed_at == Some(now) && reported.last_error is None
                && reported.attempt_count == item.attempt_count
            &&& completed.status == AgentJobItemStatus::Completed && completed.assigned_thread_id
                is None && completed.completed_at == Some(now) && completed.result_json
                == item.result_json && completed.reported_at == item.reported_at
                && completed.last_error == item.last_error && completed.attempt_count
                == item.attempt_count
            &&& broken.status == AgentJobItemStatus::Failed && broken.assigned_thread_id is None
                && broken.completed_at == Some(now) && broken.last_error == Some(text)
                && broken.result_json == item.result_json && broken.reported_at
                == item.reported_at && broken.attempt_count == item.attempt_count
        }),
{
}

/// No step changes which item it is, and every one keeps when it was.
pub proof fn items_keep_what_they_are_about(item: AgentJobItem, step: ItemStep, now: Timestamp)
    ensures
        ({
            let after = item_after(item, step, now);
            &&& after.job_id == item.job_id
            &&& after.item_id == item.item_id
            &&& after.row_index == item.row_index
            &&& after.source_id == item.source_id
            &&& after.row_json == item.row_json
            &&& after.created_at == item.created_at
            &&& after.updated_at == now
        }),
{
}

/// A step that is taken does what it does, and one that is not does nothing.
pub proof fn refused_steps_change_nothing(
    before: AgentJobItem,
    step: ItemStep,
    now: Timestamp,
    after: AgentJobItem,
    taken: bool,
)
    requires
        item_steps(before, step, now, after, taken),
    ensures
        taken <==> item_takes(before, step),
        !taken ==> after == before,
        taken ==> after.updated_at == now && after.item_id == before.item_id,
{
}

/// An item that was given back can be claimed again, and each claim is one more attempt.
pub proof fn released_items_are_claimed_again(
    item: AgentJobItem,
    first: Option<String>,
    message: Option<String>,
    second: Option<String>,
    now: Timestamp,
)
    requires
        item.status == AgentJobItemStatus::Pending,
        item.attempt_count < i64::MAX - 1,
    ensures
        ({
            let claimed = item_after(item, ItemStep::Claim(first), now);
            let released = item_after(claimed, ItemStep::Release(message), now);
            let again = item_after(released, ItemStep::Claim(second), now);
            &&& item_takes(claimed, ItemStep::Release(message))
            &&& item_takes(released, ItemStep::Claim(second))
            &&& again.attempt_count == item.attempt_count + 2
        }),
{
}

/// What is stored of a job and of an item is each member under its own name.
pub proof fn records_hold_each_member(
    record: AgentJobRecord,
    job: AgentJob,
    item_record: AgentJobItemRecord,
    item: AgentJobItem,
)
    requires
        records_job(record, job),
        records_item(item_record, item),
    ensures
        record.id == job.id,
        record.status@ == job_status_key(job.status),
        record.created_at == job.created_at,
        record.updated_at == job.updated_at,
        record.payload.name == job.name,
        record.payload.instruction == job.instruction,
        record.payload.auto_export == job.auto_export,
        record.payload.max_runtime_seconds == job.max_runtime_seconds,
        record.payload.output_schema_json == job.output_schema_json,
        record.payload.input_headers == job.input_headers,
        record.payload.input_csv_path == job.input_csv_path,
        record.payload.output_csv_path == job.output_csv_path,
        record.payload.started_at == job.started_at,
        record.payload.completed_at == job.completed_at,
        record.payload.last_error == job.last_error,
        item_record.job_id == item.job_id,
        item_record.item_id == item.item_id,
        item_record.status@ == item_status_key(item.status),
        item_record.assigned_thread_id == item.assigned_thread_id,
        item_record.updated_at == item.updated_at,
        item_record.payload.row_index == item.row_index,
        item_record.payload.source_id == item.source_id,
        item_record.payload.row_json == item.row_json,
        item_record.payload.attempt_count == item.attempt_count,
        item_record.payload.result_json == item.result_json,
        item_record.payload.last_error == item.last_error,
        item_record.payload.created_at == item.created_at,
        item_record.payload.completed_at == item.completed_at,
        item_record.payload.reported_at == item.reported_at,
{
}

/// A new item is the one that was asked for, waits, and has been tried by nobody.
pub proof fn new_items_wait(
    item: AgentJobItem,
    job_id: Seq<char>,
    params: AgentJobItemCreateParams,
    now: Timestamp,
)
    requires
        is_new_item(item, job_id, params, now),
    ensures
        item.job_id@ == job_id,
        item.item_id == params.item_id,
        item.row_index == params.row_index,
        item.source_id == params.source_id,
        item.row_json == params.row_json,
        item.status == AgentJobItemStatus::Pending,
        item.attempt_count == 0,
        item.assigned_thread_id is None,
        item.result_json is None,
        item.last_error is None,
        item.completed_at is None,
        item.reported_at is None,
        item.created_at == now,
        item.updated_at == now,
{
}

/// The items of a job are asked for by workspace and job, then by status and up to a limit where
/// that is wanted, in the order of their rows.
pub proof fn items_are_asked_for_in_order(
    workspace_id: Seq<char>,
    job_id: Seq<char>,
    status: AgentJobItemStatus,
    limit: usize,
)
    ensures
        ({
            let start = LIST_ITEMS@ + " "@ + "$1"@ + " AND item.job_id = "@ + "$2"@;
            let order = " ORDER BY (item.payload->>'row_index')::bigint ASC"@;
            let all = items_query(workspace_id, job_id, None, None);
            let some = items_query(workspace_id, job_id, Some(status), Some(limit));
            let few = items_query(workspace_id, job_id, None, Some(limit));
            let keys = seq![SqlValueView::Text(workspace_id), SqlValueView::Text(job_id)];
            &&& all.sql == start + order
            &&& all.binds == keys
            &&& some.sql == start + " AND item.status = "@ + "$3"@ + order + " LIMIT "@ + "$4"@
            &&& some.binds == keys.push(SqlValueView::Text(item_status_key(status))).push(
                SqlValueView::Integer(limit as i64),
            )
            &&& few.sql == start + order + " LIMIT "@ + "$3"@
            &&& few.binds == keys.push(SqlValueView::Integer(limit as i64))
        }),
{
    crate::sql::places_are_numbered();
    let none = QueryView { sql: LIST_ITEMS@, binds: Seq::empty() };
    let all = items_query(workspace_id, job_id, None, None);
    let some = items_query(workspace_id, job_id, Some(status), Some(limit));
    let few = items_query(workspace_id, job_id, None, Some(limit));
    let keys = seq![SqlValueView::Text(workspace_id), SqlValueView::Text(job_id)];
    assert(all.binds =~= keys);
    assert(some.binds =~= keys.push(SqlValueView::Text(item_status_key(status))).push(
        SqlValueView::Integer(limit as i64),
    ));
    assert(few.binds =~= keys.push(SqlValueView::Integer(limit as i64)));
}

/// Sixteen items are worked at together where nothing else is asked for, and sixty-four at most;
/// a count that is missing or no count is zero.
pub proof fn counts_have_their_bounds(a: int, b: int, n: i64)
    ensures
        DEFAULT_CONCURRENCY == 16,
        MAX_CONCURRENCY == 64,
        smaller(a, b) <= a && smaller(a, b) <= b && (smaller(a, b) == a || smaller(a, b) == b),
        larger(a, b) >= a && larger(a, b) >= b && (larger(a, b) == a || larger(a, b) == b),
        count_of(None) == 0,
        n < 0 || n > usize::MAX ==> count_of(Some(n)) == 0,
        0 <= n <= usize::MAX ==> count_of(Some(n)) == n,
{
}

/// A header comes a second time exactly where the same text stands before it.
pub proof fn headers_repeat_those_before_them(headers: Seq<String>, i: int, j: int)
    ensures
        0 <= j < i && headers[j]@ == headers[i]@ ==> repeats_at(headers, i),
        repeats_at(headers, i) ==> exists|k: int| 0 <= k < i && #[trigger] headers[k]@ == headers[i]@,
        !repeats_at(headers, 0),
{
}

} // verus!
