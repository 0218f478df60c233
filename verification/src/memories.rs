//! Memories that are made of threads: which threads are worth reading, who works on them, and
//! when what was found is consolidated.

use vstd::prelude::*;

use crate::text::{self, opt_text};
use crate::thread_id::ThreadId;
use crate::time::saturated;

verus! {

/// The jobs that read one thread each.
pub const JOB_KIND_MEMORY_STAGE1: &'static str = "memory_stage1";

/// The job that consolidates what was found.
pub const JOB_KIND_MEMORY_CONSOLIDATE_GLOBAL: &'static str = "memory_consolidate_global";

/// The one job of that kind.
pub const MEMORY_CONSOLIDATION_JOB_KEY: &'static str = "global";

/// The seconds after a consolidation in which there is no other.
pub const PHASE2_SUCCESS_COOLDOWN_SECONDS: i64 = 21_600;

/// How often a job is tried.
pub const DEFAULT_RETRY_REMAINING: i64 = 3;

// ---------------------------------------------------------------------------------------------
// Jobs
// ---------------------------------------------------------------------------------------------

/// A job as it is stored. Instants are in seconds.
#[derive(Debug, PartialEq, Eq)]
pub struct MemoryJob {
    pub status: String,
    pub worker_id: Option<String>,
    pub ownership_token: Option<String>,
    pub started_at: Option<i64>,
    pub finished_at: Option<i64>,
    pub lease_until: Option<i64>,
    pub retry_at: Option<i64>,
    pub retry_remaining: i64,
    pub last_error: Option<String>,
    /// How new what the job reads is.
    pub input_watermark: Option<i64>,
    /// How new what the job last read with success was.
    pub last_success_watermark: Option<i64>,
}

/// What a job says.
#[verifier::ext_equal]
pub struct JobView {
    pub status: Seq<char>,
    pub worker_id: Option<Seq<char>>,
    pub ownership_token: Option<Seq<char>>,
    pub started_at: Option<i64>,
    pub finished_at: Option<i64>,
    pub lease_until: Option<i64>,
    pub retry_at: Option<i64>,
    pub retry_remaining: i64,
    pub last_error: Option<Seq<char>>,
    pub input_watermark: Option<i64>,
    pub last_success_watermark: Option<i64>,
}

impl View for MemoryJob {
    type V = JobView;

    open spec fn view(&self) -> JobView {
        JobView {
            status: self.status@,
            worker_id: opt_text(self.worker_id),
            ownership_token: opt_text(self.ownership_token),
            started_at: self.started_at,
            finished_at: self.finished_at,
            lease_until: self.lease_until,
            retry_at: self.retry_at,
            retry_remaining: self.retry_remaining,
            last_error: opt_text(self.last_error),
            input_watermark: self.input_watermark,
            last_success_watermark: self.last_success_watermark,
        }
    }
}

/// What an optional job says.
pub open spec fn opt_job(job: Option<MemoryJob>) -> Option<JobView> {
    match job {
        Some(job) => Some(job@),
        None => None,
    }
}

/// A number that may be missing is at least as high as another.
pub open spec fn reaches(n: Option<i64>, bound: i64) -> bool {
    n matches Some(n) && n >= bound
}

/// An instant that may be missing lies after another.
pub open spec fn lies_after(n: Option<i64>, now: i64) -> bool {
    n matches Some(n) && n > now
}

fn at_least(n: Option<i64>, bound: i64) -> (r: bool)
    ensures
        r == reaches(n, bound),
{
    match n {
        Some(n) => n >= bound,
        None => false,
    }
}

fn after(n: Option<i64>, now: i64) -> (r: bool)
    ensures
        r == lies_after(n, now),
{
    match n {
        Some(n) => n > now,
        None => false,
    }
}

/// The instant some seconds later, at the end of the range at the latest. Negative seconds count
/// as none.
pub open spec fn later(now: i64, seconds: i64) -> i64 {
    saturated(
        now + if seconds > 0 {
            seconds as int
        } else {
            0
        },
    ) as i64
}

fn add_seconds(now: i64, seconds: i64) -> (r: i64)
    ensures
        r == later(now, seconds),
{
    let seconds: i64 = if seconds > 0 {
        seconds
    } else {
        0
    };
    match now.checked_add(seconds) {
        Some(n) => n,
        None => i64::MAX,
    }
}

/// The job is running and its worker still has it.
pub open spec fn is_leased(job: JobView, now: i64) -> bool {
    job.status == "running"@ && lies_after(job.lease_until, now)
}

/// The job runs for the owner of a token.
pub open spec fn is_owned(job: JobView, token: Seq<char>) -> bool {
    job.status == "running"@ && job.ownership_token == Some(token)
}

/// A number as a limit of a query.
pub open spec fn as_limit(n: usize) -> i64 {
    if n > i64::MAX {
        i64::MAX
    } else {
        n as i64
    }
}

/// A number as a limit of a query.
pub fn query_limit(n: usize) -> (r: i64)
    ensures
        r == as_limit(n),
{
    if n as u128 > i64::MAX as u128 {
        i64::MAX
    } else {
        n as i64
    }
}

// ---------------------------------------------------------------------------------------------
// Reading threads
// ---------------------------------------------------------------------------------------------

/// A thread is worth reading: neither what was found in it nor what was last read of it is as new
/// as the thread is.
pub fn stage1_source_needs_update(
    existing_output: Option<i64>,
    last_success_watermark: Option<i64>,
    source_updated_at: i64,
) -> (r: bool)
    ensures
        r == (!reaches(existing_output, source_updated_at) && !reaches(
            last_success_watermark,
            source_updated_at,
        )),
{
    !at_least(existing_output, source_updated_at) && !at_least(
        last_success_watermark,
        source_updated_at,
    )
}

/// Who wants a job, and until when.
#[derive(Debug)]
pub struct Claimant {
    pub worker_id: ThreadId,
    pub ownership_token: String,
    pub lease_seconds: i64,
    pub now: i64,
}

/// The job as its new worker has it.
pub open spec fn taken(job: JobView, by: Claimant) -> JobView {
    JobView {
        status: "running"@,
        worker_id: Some(by.worker_id@),
        ownership_token: Some(by.ownership_token@),
        started_at: Some(by.now),
        finished_at: None,
        lease_until: Some(later(by.now, by.lease_seconds)),
        retry_at: None,
        last_error: None,
        ..job
    }
}

/// A job that nobody had.
pub open spec fn fresh_job() -> JobView {
    JobView {
        status: "pending"@,
        worker_id: None,
        ownership_token: None,
        started_at: None,
        finished_at: None,
        lease_until: None,
        retry_at: None,
        retry_remaining: DEFAULT_RETRY_REMAINING,
        last_error: None,
        input_watermark: None,
        last_success_watermark: None,
    }
}

fn take_job(job: MemoryJob, by: Claimant) -> (r: MemoryJob)
    ensures
        r@ == taken(job@, by),
{
    let lease_until: i64 = add_seconds(by.now, by.lease_seconds);
    MemoryJob {
        status: text::owned("running"),
        worker_id: Some(text::owned(by.worker_id.as_str())),
        ownership_token: Some(by.ownership_token),
        started_at: Some(by.now),
        finished_at: None,
        lease_until: Some(lease_until),
        retry_at: None,
        retry_remaining: job.retry_remaining,
        last_error: None,
        input_watermark: job.input_watermark,
        last_success_watermark: job.last_success_watermark,
    }
}

fn new_job() -> (r: MemoryJob)
    ensures
        r@ == fresh_job(),
{
    MemoryJob {
        status: text::owned("pending"),
        worker_id: None,
        ownership_token: None,
        started_at: None,
        finished_at: None,
        lease_until: None,
        retry_at: None,
        retry_remaining: DEFAULT_RETRY_REMAINING,
        last_error: None,
        input_watermark: None,
        last_success_watermark: None,
    }
}

/// What came of the wish to read a thread.
#[derive(Debug, PartialEq, Eq)]
pub enum Stage1JobClaimOutcome {
    /// The job, as it is stored from now on.
    Claimed(MemoryJob),
    SkippedUpToDate,
    SkippedRunning,
    SkippedRetryBackoff,
    SkippedRetryExhausted,
}

/// What came of the wish to read a thread.
pub enum Stage1ClaimView {
    Claimed(JobView),
    SkippedUpToDate,
    SkippedRunning,
    SkippedRetryBackoff,
    SkippedRetryExhausted,
}

impl View for Stage1JobClaimOutcome {
    type V = Stage1ClaimView;

    open spec fn view(&self) -> Stage1ClaimView {
        match *self {
            Stage1JobClaimOutcome::Claimed(job) => Stage1ClaimView::Claimed(job@),
            Stage1JobClaimOutcome::SkippedUpToDate => Stage1ClaimView::SkippedUpToDate,
            Stage1JobClaimOutcome::SkippedRunning => Stage1ClaimView::SkippedRunning,
            Stage1JobClaimOutcome::SkippedRetryBackoff => Stage1ClaimView::SkippedRetryBackoff,
            Stage1JobClaimOutcome::SkippedRetryExhausted => Stage1ClaimView::SkippedRetryExhausted,
        }
    }
}

/// What is known when a thread is to be read.
#[derive(Debug)]
pub struct Stage1Source {
    /// How new what was found in the thread is.
    pub existing_output: Option<i64>,
    /// How new the thread is.
    pub source_updated_at: i64,
    /// The other threads that are being read.
    pub running_jobs: i64,
    /// How many threads may be read at once.
    pub max_running_jobs: usize,
}

/// The thread is newer than what the job was last given.
pub open spec fn source_advanced(job: JobView, source_updated_at: i64) -> bool {
    source_updated_at > match job.input_watermark {
        Some(n) => n as int,
        None => -1,
    }
}

/// What comes of the wish to read a thread. It is not read where that would bring nothing new,
/// while another worker reads it, nor while too many are read. One that has not changed since it
/// was tried is tried again only after a while, and only so often.
pub open spec fn stage1_claim(job: Option<JobView>, source: Stage1Source, by: Claimant) ->
    Stage1ClaimView {
    let crowded = source.running_jobs >= as_limit(source.max_running_jobs);
    if reaches(source.existing_output, source.source_updated_at) {
        Stage1ClaimView::SkippedUpToDate
    } else {
        match job {
            Some(job) => {
                let advanced = source_advanced(job, source.source_updated_at);
                if reaches(job.last_success_watermark, source.source_updated_at) {
                    Stage1ClaimView::SkippedUpToDate
                } else if is_leased(job, by.now) {
                    Stage1ClaimView::SkippedRunning
                } else if !advanced && job.retry_remaining <= 0 {
                    Stage1ClaimView::SkippedRetryExhausted
                } else if !advanced && lies_after(job.retry_at, by.now) {
                    Stage1ClaimView::SkippedRetryBackoff
                } else if crowded {
                    Stage1ClaimView::SkippedRunning
                } else {
                    Stage1ClaimView::Claimed(
                        taken(
                            JobView {
                                retry_remaining: if advanced {
                                    DEFAULT_RETRY_REMAINING
                                } else {
                                    job.retry_remaining
                                },
                                input_watermark: Some(source.source_updated_at),
                                ..job
                            },
                            by,
                        ),
                    )
                }
            },
            None => if crowded {
                Stage1ClaimView::SkippedRunning
            } else {
                Stage1ClaimView::Claimed(
                    taken(
                        JobView {
                            input_watermark: Some(source.source_updated_at),
                            ..fresh_job()
                        },
                        by,
                    ),
                )
            },
        }
    }
}

/// Decides on the wish to read a thread, given its job where there is one.
pub fn try_claim_stage1_job(
    job: Option<MemoryJob>,
    source: Stage1Source,
    by: Claimant,
) -> (r: Stage1JobClaimOutcome)
    ensures
        r@ == stage1_claim(opt_job(job), source, by),
{
    if at_least(source.existing_output, source.source_updated_at) {
        return Stage1JobClaimOutcome::SkippedUpToDate;
    }
    let crowded = source.running_jobs >= query_limit(source.max_running_jobs);
    match job {
        Some(job) => {
            if at_least(job.last_success_watermark, source.source_updated_at) {
                return Stage1JobClaimOutcome::SkippedUpToDate;
            }
            if text::str_eq(job.status.as_str(), "running") && after(job.lease_until, by.now) {
                return Stage1JobClaimOutcome::SkippedRunning;
            }
            let watermark: i64 = match job.input_watermark {
                Some(n) => n,
                None => -1,
            };
            let advanced = source.source_updated_at > watermark;
            if !advanced {
                if job.retry_remaining <= 0 {
                    return Stage1JobClaimOutcome::SkippedRetryExhausted;
                }
                if after(job.retry_at, by.now) {
                    return Stage1JobClaimOutcome::SkippedRetryBackoff;
                }
            }
            if crowded {
                return Stage1JobClaimOutcome::SkippedRunning;
            }
            let mut job = job;
            if advanced {
                job.retry_remaining = DEFAULT_RETRY_REMAINING;
            }
            job.input_watermark = Some(source.source_updated_at);
            Stage1JobClaimOutcome::Claimed(take_job(job, by))
        },
        None => {
            if crowded {
                return Stage1JobClaimOutcome::SkippedRunning;
            }
            let mut job = new_job();
            job.input_watermark = Some(source.source_updated_at);
            Stage1JobClaimOutcome::Claimed(take_job(job, by))
        },
    }
}

// ---------------------------------------------------------------------------------------------
// Consolidation
// ---------------------------------------------------------------------------------------------

/// What came of the wish to consolidate.
#[derive(Debug, PartialEq, Eq)]
pub enum Phase2JobClaimOutcome {
    /// The job, as it is stored from now on, and how new what it reads is.
    Claimed { job: MemoryJob, input_watermark: i64 },
    SkippedRetryUnavailable,
    SkippedRunning,
    SkippedCooldown,
}

/// What came of the wish to consolidate.
pub enum Phase2ClaimView {
    Claimed(JobView, i64),
    SkippedRetryUnavailable,
    SkippedRunning,
    SkippedCooldown,
}

impl View for Phase2JobClaimOutcome {
    type V = Phase2ClaimView;

    open spec fn view(&self) -> Phase2ClaimView {
        match *self {
            Phase2JobClaimOutcome::Claimed { job, input_watermark } => Phase2ClaimView::Claimed(
                job@,
                input_watermark,
            ),
            Phase2JobClaimOutcome::SkippedRetryUnavailable =>
                Phase2ClaimView::SkippedRetryUnavailable,
            Phase2JobClaimOutcome::SkippedRunning => Phase2ClaimView::SkippedRunning,
            Phase2JobClaimOutcome::SkippedCooldown => Phase2ClaimView::SkippedCooldown,
        }
    }
}

/// The instant after which a consolidation that succeeded keeps another from beginning.
pub open spec fn cooldown_cutoff(now: i64) -> i64 {
    saturated(now - PHASE2_SUCCESS_COOLDOWN_SECONDS) as i64
}

/// What comes of the wish to consolidate. There is no consolidation before the time to try again,
/// while another worker is at it, nor soon after one that succeeded.
pub open spec fn phase2_claim(job: Option<JobView>, by: Claimant) -> Phase2ClaimView {
    match job {
        None => Phase2ClaimView::Claimed(
            taken(
                JobView {
                    input_watermark: Some(0),
                    last_success_watermark: Some(0),
                    ..fresh_job()
                },
                by,
            ),
            0,
        ),
        Some(job) => if lies_after(job.retry_at, by.now) {
            Phase2ClaimView::SkippedRetryUnavailable
        } else if is_leased(job, by.now) {
            Phase2ClaimView::SkippedRunning
        } else if job.last_error is None && lies_after(
            job.finished_at,
            cooldown_cutoff(by.now),
        ) {
            Phase2ClaimView::SkippedCooldown
        } else {
            Phase2ClaimView::Claimed(
                taken(job, by),
                match job.input_watermark {
                    Some(n) => n,
                    None => 0,
                },
            )
        },
    }
}

/// Decides on the wish to consolidate, given the job where there is one.
pub fn try_claim_global_phase2_job(job: Option<MemoryJob>, by: Claimant) -> (r:
    Phase2JobClaimOutcome)
    ensures
        r@ == phase2_claim(opt_job(job), by),
{
    match job {
        None => {
            let mut job = new_job();
            job.input_watermark = Some(0);
            job.last_success_watermark = Some(0);
            Phase2JobClaimOutcome::Claimed { job: take_job(job, by), input_watermark: 0 }
        },
        Some(job) => {
            if after(job.retry_at, by.now) {
                return Phase2JobClaimOutcome::SkippedRetryUnavailable;
            }
            if text::str_eq(job.status.as_str(), "running") && after(job.lease_until, by.now) {
                return Phase2JobClaimOutcome::SkippedRunning;
            }
            let cutoff: i64 = match by.now.checked_sub(PHASE2_SUCCESS_COOLDOWN_SECONDS) {
                Some(n) => n,
                None => i64::MIN,
            };
            if job.last_error.is_none() && after(job.finished_at, cutoff) {
                return Phase2JobClaimOutcome::SkippedCooldown;
            }
            let input_watermark: i64 = match job.input_watermark {
                Some(n) => n,
                None => 0,
            };
            Phase2JobClaimOutcome::Claimed { job: take_job(job, by), input_watermark }
        },
    }
}

/// The number, or zero where it is missing.
pub open spec fn or_zero(n: Option<i64>) -> i64 {
    match n {
        Some(n) => n,
        None => 0,
    }
}

/// The mark of what is to be consolidated once there is more of it: it always rises.
pub open spec fn raised_watermark(before: Option<i64>, input_watermark: i64) -> int {
    if input_watermark > or_zero(before) {
        input_watermark as int
    } else {
        or_zero(before) + 1
    }
}

/// The job of consolidation once there is more to consolidate. A job that is running goes on.
pub open spec fn enqueued(job: Option<JobView>, input_watermark: i64) -> JobView {
    match job {
        None => JobView {
            input_watermark: Some(input_watermark),
            last_success_watermark: Some(0),
            ..fresh_job()
        },
        Some(job) => JobView {
            status: if job.status == "running"@ {
                job.status
            } else {
                "pending"@
            },
            retry_at: if job.status == "running"@ {
                job.retry_at
            } else {
                None
            },
            retry_remaining: if job.retry_remaining > DEFAULT_RETRY_REMAINING {
                job.retry_remaining
            } else {
                DEFAULT_RETRY_REMAINING
            },
            input_watermark: Some(raised_watermark(job.input_watermark, input_watermark) as i64),
            ..job
        },
    }
}

/// Asks for a consolidation, given the job where there is one. It fails where the mark of what is
/// to be consolidated cannot rise.
pub fn enqueue_global_consolidation(job: Option<MemoryJob>, input_watermark: i64) -> (r: Option<
    MemoryJob,
>)
    ensures
        match r {
            Some(next) => next@ == enqueued(opt_job(job), input_watermark) && (job matches Some(j)
                ==> raised_watermark(j.input_watermark, input_watermark) <= i64::MAX),
            None => job matches Some(j) && raised_watermark(j.input_watermark, input_watermark)
                > i64::MAX,
        },
{
    match job {
        None => {
            let mut job = new_job();
            job.input_watermark = Some(input_watermark);
            job.last_success_watermark = Some(0);
            Some(job)
        },
        Some(job) => {
            let mut job = job;
            let before: i64 = match job.input_watermark {
                Some(n) => n,
                None => 0,
            };
            let next: i64 = if input_watermark > before {
                input_watermark
            } else {
                match before.checked_add(1) {
                    Some(n) => n,
                    None => return None,
                }
            };
            if !text::str_eq(job.status.as_str(), "running") {
                job.status = text::owned("pending");
                job.retry_at = None;
            }
            if job.retry_remaining < DEFAULT_RETRY_REMAINING {
                job.retry_remaining = DEFAULT_RETRY_REMAINING;
            }
            job.input_watermark = Some(next);
            Some(job)
        },
    }
}

// ---------------------------------------------------------------------------------------------
// The end of a job
// ---------------------------------------------------------------------------------------------

fn owns(job: &MemoryJob, token: &str) -> (r: bool)
    ensures
        r == is_owned(job@, token@),
{
    if !text::str_eq(job.status.as_str(), "running") {
        return false;
    }
    match &job.ownership_token {
        Some(owner) => text::str_eq(owner.as_str(), token),
        None => false,
    }
}

/// A job that was done.
pub open spec fn done(job: JobView, watermark: Option<i64>, now: i64) -> JobView {
    JobView {
        status: "done"@,
        finished_at: Some(now),
        lease_until: None,
        last_error: None,
        last_success_watermark: watermark,
        ..job
    }
}

fn finish_job(job: &mut MemoryJob, watermark: Option<i64>, now: i64)
    ensures
        final(job)@ == done(old(job)@, watermark, now),
{
    job.status = text::owned("done");
    job.finished_at = Some(now);
    job.lease_until = None;
    job.last_error = None;
    job.last_success_watermark = watermark;
}

/// Ends the reading of a thread with success, where the job runs for the owner of the token; says
/// whether it does.
pub fn mark_stage1_job_succeeded(job: &mut MemoryJob, ownership_token: &str, now: i64) -> (r: bool)
    ensures
        r == is_owned(old(job)@, ownership_token@),
        final(job)@ == if r {
            done(old(job)@, old(job)@.input_watermark, now)
        } else {
            old(job)@
        },
{
    if owns(job, ownership_token) {
        let watermark = job.input_watermark;
        finish_job(job, watermark, now);
        true
    } else {
        false
    }
}

/// Ends the reading of a thread in which nothing was found, where the job runs for the owner of
/// the token. Returns how new the thread was, where the job knows it.
pub fn mark_stage1_job_succeeded_no_output(
    job: &mut MemoryJob,
    ownership_token: &str,
    now: i64,
) -> (r: Option<i64>)
    ensures
        r == if is_owned(old(job)@, ownership_token@) {
            old(job)@.input_watermark
        } else {
            None
        },
        final(job)@ == if is_owned(old(job)@, ownership_token@) {
            done(old(job)@, old(job)@.input_watermark, now)
        } else {
            old(job)@
        },
{
    if mark_stage1_job_succeeded(job, ownership_token, now) {
        job.last_success_watermark
    } else {
        None
    }
}

/// The higher of the mark before, zero where it is missing, and another.
pub open spec fn higher_mark(before: Option<i64>, completed: i64) -> i64 {
    if or_zero(before) > completed {
        or_zero(before)
    } else {
        completed
    }
}

/// Ends a consolidation with success, where the job runs for the owner of the token; says whether
/// it does. The mark of what was consolidated never falls.
pub fn mark_global_phase2_job_succeeded(
    job: &mut MemoryJob,
    ownership_token: &str,
    completed_watermark: i64,
    now: i64,
) -> (r: bool)
    ensures
        r == is_owned(old(job)@, ownership_token@),
        final(job)@ == if r {
            done(
                old(job)@,
                Some(higher_mark(old(job)@.last_success_watermark, completed_watermark)),
                now,
            )
        } else {
            old(job)@
        },
{
    if owns(job, ownership_token) {
        let before: i64 = match job.last_success_watermark {
            Some(n) => n,
            None => 0,
        };
        let mark: i64 = if before > completed_watermark {
            before
        } else {
            completed_watermark
        };
        finish_job(job, Some(mark), now);
        true
    } else {
        false
    }
}

/// One try less, where any is left.
pub open spec fn one_less(n: i64) -> i64 {
    if n > 0 {
        (n - 1) as i64
    } else {
        0
    }
}

/// A job that failed.
pub open spec fn failed(job: JobView, reason: Seq<char>, retry_delay: i64, now: i64) -> JobView {
    JobView {
        status: "error"@,
        finished_at: Some(now),
        lease_until: None,
        retry_at: Some(later(now, retry_delay)),
        retry_remaining: one_less(job.retry_remaining),
        last_error: Some(reason),
        ..job
    }
}

fn fail_job(job: &mut MemoryJob, reason: &str, retry_delay: i64, now: i64)
    ensures
        final(job)@ == failed(old(job)@, reason@, retry_delay, now),
{
    job.status = text::owned("error");
    job.finished_at = Some(now);
    job.lease_until = None;
    job.retry_at = Some(add_seconds(now, retry_delay));
    job.retry_remaining = if job.retry_remaining > 0 {
        job.retry_remaining - 1
    } else {
        0
    };
    job.last_error = Some(text::owned(reason));
}

/// Ends a job with a failure, where it runs for the owner of the token; says whether it does. It
/// may be tried again after a while.
pub fn mark_job_failed(
    job: &mut MemoryJob,
    ownership_token: &str,
    failure_reason: &str,
    retry_delay_seconds: i64,
    now: i64,
) -> (r: bool)
    ensures
        r == is_owned(old(job)@, ownership_token@),
        final(job)@ == if r {
            failed(old(job)@, failure_reason@, retry_delay_seconds, now)
        } else {
            old(job)@
        },
{
    if owns(job, ownership_token) {
        fail_job(job, failure_reason, retry_delay_seconds, now);
        true
    } else {
        false
    }
}

/// Ends a consolidation with a failure, where the job runs for the owner of the token or for
/// nobody; says whether it does.
pub fn mark_global_phase2_job_failed_if_unowned(
    job: &mut MemoryJob,
    ownership_token: &str,
    failure_reason: &str,
    retry_delay_seconds: i64,
    now: i64,
) -> (r: bool)
    ensures
        r == (old(job)@.status == "running"@ && (old(job)@.ownership_token is None || is_owned(
            old(job)@,
            ownership_token@,
        ))),
        final(job)@ == if r {
            failed(old(job)@, failure_reason@, retry_delay_seconds, now)
        } else {
            old(job)@
        },
{
    let unowned = job.ownership_token.is_none() && text::str_eq(job.status.as_str(), "running");
    if unowned || owns(job, ownership_token) {
        fail_job(job, failure_reason, retry_delay_seconds, now);
        true
    } else {
        false
    }
}

/// Keeps a consolidation for its worker for some time more; says whether the job runs for the
/// owner of the token.
pub fn heartbeat_global_phase2_job(
    job: &mut MemoryJob,
    ownership_token: &str,
    lease_seconds: i64,
    now: i64,
) -> (r: bool)
    ensures
        r == is_owned(old(job)@, ownership_token@),
        final(job)@ == if r {
            JobView { lease_until: Some(later(now, lease_seconds)), ..old(job)@ }
        } else {
            old(job)@
        },
{
    if owns(job, ownership_token) {
        job.lease_until = Some(add_seconds(now, lease_seconds));
        true
    } else {
        false
    }
}

// ---------------------------------------------------------------------------------------------
// Laws
// ---------------------------------------------------------------------------------------------

/// While a worker has the reading of a thread, no other gets it.
pub proof fn leased_readings_are_not_claimed(job: JobView, source: Stage1Source, by: Claimant)
    requires
        is_leased(job, by.now),
    ensures
        !(stage1_claim(Some(job), source, by) is Claimed),
{
}

/// While a worker has the consolidation, no other gets it.
pub proof fn leased_consolidations_are_not_claimed(job: JobView, by: Claimant)
    requires
        is_leased(job, by.now),
    ensures
        !(phase2_claim(Some(job), by) is Claimed),
{
}

/// Whoever claims a job owns it, and while the lease lasts has it.
pub proof fn claimants_own_their_jobs(job: JobView, by: Claimant)
    ensures
        is_owned(taken(job, by), by.ownership_token@),
        by.lease_seconds > 0 && by.now < i64::MAX ==> is_leased(taken(job, by), by.now),
{
}

/// A thread that has been read with success is not read again before it changes.
pub proof fn read_threads_are_up_to_date(
    job: JobView,
    source: Stage1Source,
    by: Claimant,
    now: i64,
)
    requires
        job.input_watermark matches Some(mark) && mark >= source.source_updated_at,
    ensures
        stage1_claim(
            Some(done(job, job.input_watermark, now)),
            source,
            by,
        ) is SkippedUpToDate,
{
}

/// A job that fails so often that no try is left is not tried again before its thread changes.
pub proof fn exhausted_jobs_wait_for_change(job: JobView, source: Stage1Source, by: Claimant)
    requires
        job.retry_remaining <= 0,
        !source_advanced(job, source.source_updated_at),
    ensures
        !(stage1_claim(Some(job), source, by) is Claimed),
{
}

/// Each failure takes one try away, and no more than there are.
pub proof fn failures_use_up_tries(job: JobView, reason: Seq<char>, retry_delay: i64, now: i64)
    requires
        job.retry_remaining >= 0,
    ensures
        0 <= failed(job, reason, retry_delay, now).retry_remaining,
        job.retry_remaining > 0 ==> failed(job, reason, retry_delay, now).retry_remaining
            == job.retry_remaining - 1,
{
}

/// Each wish for a consolidation raises the mark of what is to be consolidated, so that one that
/// ends meanwhile does not count for it, and never takes a try away.
pub proof fn enqueueing_raises_the_mark(job: JobView, input_watermark: i64)
    requires
        raised_watermark(job.input_watermark, input_watermark) <= i64::MAX,
    ensures
        ({
            let next = enqueued(Some(job), input_watermark);
            &&& next.input_watermark matches Some(mark)
            &&& mark > or_zero(job.input_watermark)
            &&& mark >= input_watermark
            &&& next.retry_remaining >= job.retry_remaining
            &&& (job.status == "running"@ ==> next.status == "running"@ && next.ownership_token
                == job.ownership_token && next.lease_until == job.lease_until)
        }),
{
}

/// Soon after a consolidation that succeeded there is no other.
pub proof fn consolidations_cool_down(job: JobView, watermark: Option<i64>, now: i64, by: Claimant)
    requires
        now > i64::MIN,
        by.now >= now,
        by.now - now < PHASE2_SUCCESS_COOLDOWN_SECONDS,
    ensures
        !(phase2_claim(Some(done(job, watermark, now)), by) is Claimed),
{
    reveal_strlit("done");
    reveal_strlit("running");
    assert("done"@.len() != "running"@.len());
}

proof fn lemma_job_names()
    ensures
        "running"@ != "pending"@ && "running"@ != "done"@ && "running"@ != "error"@ && "pending"@
            != "done"@ && "pending"@ != "error"@ && "done"@ != "error"@,
{
    reveal_strlit("running");
    reveal_strlit("pending");
    reveal_strlit("done");
    reveal_strlit("error");
    assert("running"@[0] != "pending"@[0]);
    assert("done"@.len() == 4 && "error"@.len() == 5 && "running"@.len() == 7 && "pending"@.len()
        == 7);
}

/// The reading of a thread is claimed exactly when it is due. The thread is newer than what was
/// found in it and than what was last read of it; nobody has the job for a time that is not over;
/// a try is left and the time to wait for it is over, unless the thread has changed since it was
/// last given to the job; and fewer threads are being read than may be.
pub proof fn due_readings_are_claimed(job: JobView, source: Stage1Source, by: Claimant)
    ensures
        ({
            let newer = (source.existing_output is None || source.existing_output->0
                < source.source_updated_at) && (job.last_success_watermark is None
                || job.last_success_watermark->0 < source.source_updated_at);
            let free = job.status != "running"@ || job.lease_until is None || job.lease_until->0
                <= by.now;
            let changed = if job.input_watermark is Some {
                source.source_updated_at > job.input_watermark->0
            } else {
                source.source_updated_at >= 0
            };
            let left = job.retry_remaining > 0;
            let waited = job.retry_at is None || job.retry_at->0 <= by.now;
            let room = source.running_jobs < source.max_running_jobs && source.running_jobs
                < i64::MAX;
            let claim = stage1_claim(Some(job), source, by);
            &&& claim is Claimed <==> newer && free && (changed || left && waited) && room
            &&& claim is SkippedUpToDate <==> !newer
            &&& claim is SkippedRetryExhausted <==> newer && free && !changed && !left
            &&& claim is SkippedRetryBackoff <==> newer && free && !changed && left && !waited
            &&& claim is SkippedRunning <==> newer && (!free || (changed || left && waited)
                && !room)
        }),
{
}

/// The first reading of a thread is claimed where the thread is newer than what was found in it
/// and fewer threads are being read than may be.
pub proof fn first_readings_are_claimed(source: Stage1Source, by: Claimant)
    ensures
        ({
            let newer = source.existing_output is None || source.existing_output->0
                < source.source_updated_at;
            let room = source.running_jobs < source.max_running_jobs && source.running_jobs
                < i64::MAX;
            let claim = stage1_claim(None, source, by);
            &&& claim is Claimed <==> newer && room
            &&& claim is SkippedUpToDate <==> !newer
            &&& claim is SkippedRunning <==> newer && !room
        }),
{
}

/// A reading that is claimed belongs to the claimant from now on, for as long as was asked, and is
/// of the thread as it is now. Nothing is left of how the job ended before. A thread that has
/// changed, or was never read, has three tries, and one that has not has those that were left.
pub proof fn claimed_readings_are_the_claimants(
    job: Option<JobView>,
    source: Stage1Source,
    by: Claimant,
)
    ensures
        stage1_claim(job, source, by) matches Stage1ClaimView::Claimed(next) ==> {
            &&& next.status == "running"@
            &&& next.worker_id == Some(by.worker_id@)
            &&& next.ownership_token == Some(by.ownership_token@)
            &&& next.started_at == Some(by.now)
            &&& next.finished_at is None
            &&& next.retry_at is None
            &&& next.last_error is None
            &&& next.lease_until is Some
            &&& by.lease_seconds <= 0 ==> next.lease_until->0 == by.now
            &&& by.lease_seconds > 0 && by.now + by.lease_seconds <= i64::MAX
                ==> next.lease_until->0 == by.now + by.lease_seconds
            &&& by.lease_seconds > 0 && by.now + by.lease_seconds > i64::MAX
                ==> next.lease_until->0 == i64::MAX
            &&& next.input_watermark == Some(source.source_updated_at)
            &&& job is None ==> next.last_success_watermark is None && next.retry_remaining == 3
            &&& job is Some ==> next.last_success_watermark == job->0.last_success_watermark
            &&& job is Some && job->0.input_watermark is Some ==> next.retry_remaining == (
            if source.source_updated_at > job->0.input_watermark->0 {
                3
            } else {
                job->0.retry_remaining
            })
        },
{
}

/// A reading that failed is tried again: as soon as the time to wait is over, and not before, it
/// is claimed anew, as long as tries are left, there is room, and nothing newer was found
/// meanwhile. The thread need not have changed.
pub proof fn failed_readings_are_tried_again(
    job: JobView,
    reason: Seq<char>,
    delay: i64,
    now: i64,
    source: Stage1Source,
    by: Claimant,
)
    requires
        job.retry_remaining > 1,
        job.input_watermark == Some(source.source_updated_at),
        source.existing_output is None || source.existing_output->0 < source.source_updated_at,
        job.last_success_watermark is None || job.last_success_watermark->0
            < source.source_updated_at,
        source.running_jobs < source.max_running_jobs && source.running_jobs < i64::MAX,
        delay >= 0,
        now + delay <= i64::MAX,
    ensures
        stage1_claim(Some(failed(job, reason, delay, now)), source, by) is Claimed <==> by.now
            >= now + delay,
        by.now >= now + delay ==> stage1_claim(
            Some(failed(job, reason, delay, now)),
            source,
            by,
        )->Claimed_0.retry_remaining == job.retry_remaining - 1,
{
    lemma_job_names();
}

/// A worker whose time is over loses a reading to the next who claims it, and from then on does
/// not own it.
pub proof fn lost_readings_are_taken_over(
    job: JobView,
    source: Stage1Source,
    first: Claimant,
    second: Claimant,
)
    requires
        stage1_claim(Some(job), source, first) is Claimed,
        second.lease_seconds == first.lease_seconds,
        first.lease_seconds > 0 && first.now + first.lease_seconds <= i64::MAX,
        second.now >= first.now,
        second.ownership_token@ != first.ownership_token@,
        job.retry_remaining > 0,
    ensures
        ({
            let mine = stage1_claim(Some(job), source, first)->Claimed_0;
            let theirs = stage1_claim(Some(mine), source, second);
            &&& theirs is Claimed <==> second.now >= first.now + first.lease_seconds
            &&& is_owned(mine, first.ownership_token@)
            &&& !is_owned(mine, second.ownership_token@)
            &&& theirs is Claimed ==> is_owned(theirs->Claimed_0, second.ownership_token@)
                && !is_owned(theirs->Claimed_0, first.ownership_token@)
        }),
{
}

/// A job is owned by whoever's token it carries while it is running, and by nobody else.
pub proof fn owners_hold_the_token(job: JobView, token: Seq<char>)
    ensures
        is_owned(job, token) <==> job.status == "running"@ && job.ownership_token is Some
            && job.ownership_token->0 == token,
{
}

/// A consolidation is claimed exactly when it is due: the time to wait after a failure is over,
/// nobody has it for a time that is not over, and the last one did not end well within the last
/// six hours.
pub proof fn due_consolidations_are_claimed(job: JobView, by: Claimant)
    requires
        by.now >= i64::MIN + 21_600,
    ensures
        ({
            let waited = job.retry_at is None || job.retry_at->0 <= by.now;
            let free = job.status != "running"@ || job.lease_until is None || job.lease_until->0
                <= by.now;
            let cool = job.last_error is Some || job.finished_at is None || job.finished_at->0
                <= by.now - 21_600;
            let claim = phase2_claim(Some(job), by);
            &&& claim is Claimed <==> waited && free && cool
            &&& claim is SkippedRetryUnavailable <==> !waited
            &&& claim is SkippedRunning <==> waited && !free
            &&& claim is SkippedCooldown <==> waited && free && !cool
            &&& phase2_claim(None, by) is Claimed
        }),
{
}

/// A consolidation that is claimed belongs to the claimant from now on, for as long as was asked,
/// and reads up to the mark that the job had, or zero. The marks and the tries stay.
pub proof fn claimed_consolidations_are_the_claimants(job: Option<JobView>, by: Claimant)
    ensures
        phase2_claim(job, by) matches Phase2ClaimView::Claimed(next, mark) ==> {
            &&& next.status == "running"@
            &&& next.worker_id == Some(by.worker_id@)
            &&& next.ownership_token == Some(by.ownership_token@)
            &&& next.started_at == Some(by.now)
            &&& next.finished_at is None
            &&& next.retry_at is None
            &&& next.last_error is None
            &&& next.lease_until is Some
            &&& by.lease_seconds <= 0 ==> next.lease_until->0 == by.now
            &&& by.lease_seconds > 0 && by.now + by.lease_seconds <= i64::MAX
                ==> next.lease_until->0 == by.now + by.lease_seconds
            &&& job is None ==> mark == 0 && next.input_watermark == Some(0i64)
                && next.last_success_watermark == Some(0i64) && next.retry_remaining == 3
            &&& job is Some ==> next.input_watermark == job->0.input_watermark
                && next.last_success_watermark == job->0.last_success_watermark
                && next.retry_remaining == job->0.retry_remaining
            &&& job is Some && job->0.input_watermark is Some ==> mark
                == job->0.input_watermark->0
            &&& job is Some && job->0.input_watermark is None ==> mark == 0
        },
{
}

/// A consolidation that failed is tried again as soon as the time to wait is over, and not before.
pub proof fn failed_consolidations_are_tried_again(
    job: JobView,
    reason: Seq<char>,
    delay: i64,
    now: i64,
    by: Claimant,
)
    requires
        delay >= 0,
        now + delay <= i64::MAX,
    ensures
        phase2_claim(Some(failed(job, reason, delay, now)), by) is Claimed <==> by.now >= now
            + delay,
{
    lemma_job_names();
}

/// What was asked for while a consolidation ran is still there when it ends: its mark lies above
/// that of what was consolidated.
pub proof fn wishes_outlive_the_consolidation(
    job: JobView,
    by: Claimant,
    input_watermark: i64,
    now: i64,
)
    requires
        phase2_claim(Some(job), by) is Claimed,
        job.input_watermark is Some && job.input_watermark->0 < i64::MAX,
        job.last_success_watermark is None || job.last_success_watermark->0
            <= job.input_watermark->0,
        job.input_watermark->0 >= 0,
    ensures
        ({
            let claim = phase2_claim(Some(job), by);
            let wished = enqueued(Some(claim->Claimed_0), input_watermark);
            let ended = done(
                wished,
                Some(higher_mark(wished.last_success_watermark, claim->Claimed_1)),
                now,
            );
            &&& is_owned(wished, by.ownership_token@)
            &&& ended.input_watermark->0 > ended.last_success_watermark->0
            &&& ended.last_success_watermark->0 == claim->Claimed_1
        }),
{
}

/// A wish for a consolidation lets a job that is not running begin at once, with three tries at
/// least; it keeps everything of a job that is running but its mark and its tries. Where there is
/// no job, one is made.
pub proof fn wishes_make_jobs_ready(job: JobView, input_watermark: i64)
    ensures
        ({
            let next = enqueued(Some(job), input_watermark);
            let fresh = enqueued(None, input_watermark);
            &&& job.status != "running"@ ==> next.status == "pending"@ && next.retry_at is None
            &&& job.status == "running"@ ==> next.status == "running"@ && next.retry_at
                == job.retry_at
            &&& next.retry_remaining == (if job.retry_remaining < 3 {
                3
            } else {
                job.retry_remaining
            })
            &&& next.worker_id == job.worker_id
            &&& next.ownership_token == job.ownership_token
            &&& next.lease_until == job.lease_until
            &&& next.started_at == job.started_at
            &&& next.finished_at == job.finished_at
            &&& next.last_error == job.last_error
            &&& next.last_success_watermark == job.last_success_watermark
            &&& fresh.status == "pending"@
            &&& fresh.input_watermark == Some(input_watermark)
            &&& fresh.last_success_watermark == Some(0i64)
            &&& fresh.retry_remaining == 3
            &&& fresh.worker_id is None && fresh.ownership_token is None && fresh.lease_until
                is None && fresh.retry_at is None && fresh.finished_at is None
                && fresh.started_at is None && fresh.last_error is None
        }),
{
}

/// The mark of what is to be consolidated becomes the one that is asked for, where that is higher,
/// and rises by one otherwise.
pub proof fn marks_rise(before: Option<i64>, input_watermark: i64)
    ensures
        ({
            let old_mark = if before is Some {
                before->0 as int
            } else {
                0
            };
            &&& input_watermark > old_mark ==> raised_watermark(before, input_watermark)
                == input_watermark
            &&& input_watermark <= old_mark ==> raised_watermark(before, input_watermark)
                == old_mark + 1
        }),
{
}

/// A job that is done says so, is nobody's any more, and keeps when that was and what it has
/// read; its tries and the rest of it stay.
pub proof fn done_jobs_say_so(job: JobView, watermark: Option<i64>, now: i64)
    ensures
        ({
            let next = done(job, watermark, now);
            &&& next.status == "done"@
            &&& next.finished_at == Some(now)
            &&& next.lease_until is None
            &&& next.last_error is None
            &&& next.last_success_watermark == watermark
            &&& next.input_watermark == job.input_watermark
            &&& next.retry_remaining == job.retry_remaining
            &&& next.retry_at == job.retry_at
            &&& next.worker_id == job.worker_id
            &&& next.ownership_token == job.ownership_token
            &&& next.started_at == job.started_at
            &&& forall|token: Seq<char>| !is_owned(next, token)
        }),
{
    lemma_job_names();
}

/// A job that failed says so and why, is nobody's any more, has one try less, and waits for as
/// long as was asked; what it reads and has read stays.
pub proof fn failed_jobs_say_so(job: JobView, reason: Seq<char>, delay: i64, now: i64)
    ensures
        ({
            let next = failed(job, reason, delay, now);
            &&& next.status == "error"@
            &&& next.finished_at == Some(now)
            &&& next.lease_until is None
            &&& next.last_error == Some(reason)
            &&& next.retry_remaining == (if job.retry_remaining > 0 {
                job.retry_remaining - 1
            } else {
                0
            })
            &&& next.retry_at is Some
            &&& delay <= 0 ==> next.retry_at->0 == now
            &&& delay > 0 && now + delay <= i64::MAX ==> next.retry_at->0 == now + delay
            &&& delay > 0 && now + delay > i64::MAX ==> next.retry_at->0 == i64::MAX
            &&& next.input_watermark == job.input_watermark
            &&& next.last_success_watermark == job.last_success_watermark
            &&& next.worker_id == job.worker_id
            &&& next.ownership_token == job.ownership_token
            &&& next.started_at == job.started_at
            &&& forall|token: Seq<char>| !is_owned(next, token)
        }),
{
    lemma_job_names();
}

/// The mark of what was consolidated is the higher of the two, where a missing one is zero.
pub proof fn completed_marks_do_not_fall(before: Option<i64>, completed: i64)
    ensures
        higher_mark(before, completed) >= completed,
        before is Some ==> higher_mark(before, completed) >= before->0,
        before is Some && before->0 >= completed ==> higher_mark(before, completed) == before->0,
        before is None && completed <= 0 ==> higher_mark(before, completed) == 0,
        (if before is Some { before->0 } else { 0 }) <= completed ==> higher_mark(before, completed)
            == completed,
{
}

/// Time is added to an instant up to the end of the range; a negative time adds none.
pub proof fn leases_last_as_long_as_asked(now: i64, seconds: i64)
    ensures
        seconds <= 0 ==> later(now, seconds) == now,
        seconds > 0 && now + seconds <= i64::MAX ==> later(now, seconds) == now + seconds,
        seconds > 0 && now + seconds > i64::MAX ==> later(now, seconds) == i64::MAX,
{
}

/// A thread of which the job knows nothing has three tries.
pub proof fn unknown_threads_have_all_tries(job: JobView, source: Stage1Source, by: Claimant)
    requires
        job.input_watermark is None,
        source.source_updated_at >= 0,
    ensures
        stage1_claim(Some(job), source, by) matches Stage1ClaimView::Claimed(next)
            ==> next.retry_remaining == 3,
{
}

/// A job is leased exactly while it runs and its lease ends later.
pub proof fn leases_hold_while_jobs_run(job: JobView, now: i64)
    ensures
        is_leased(job, now) <==> job.status == "running"@ && job.lease_until is Some
            && job.lease_until->0 > now,
{
}

} // verus!
