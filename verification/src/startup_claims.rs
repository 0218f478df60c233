//! The threads that are read for memories when an agent starts.

use vstd::prelude::*;

use crate::memories::{as_limit, query_limit, Stage1JobClaimOutcome};
use crate::memory_outputs::ThreadMetadata;
use crate::time::{earlier, span, Timestamp, MIN_SECONDS};

verus! {

/// Which threads are looked at, and how many are taken.
#[derive(Debug, Clone, Copy, PartialEq, Eq, Structural)]
pub struct Stage1StartupClaimParams {
    pub scan_limit: usize,
    pub max_claimed: usize,
    pub max_age_days: i64,
    pub min_rollout_idle_hours: i64,
}

/// The threads that are looked at: those that changed last between two instants, and only so many.
#[derive(Debug, Clone, Copy, PartialEq, Eq)]
pub struct ScanWindow {
    pub not_before: Timestamp,
    pub not_after: Timestamp,
    pub limit: i64,
}

/// What is looked at.
#[derive(Debug, Clone, Copy, PartialEq, Eq)]
pub enum StartupScan {
    /// Nothing is wanted.
    Nothing,
    /// The window would lie outside the range of instants.
    OutOfRange,
    Window(ScanWindow),
}

/// What is looked at when an agent starts: threads that are neither too old nor in use. Nothing
/// is, where no thread may be looked at or taken.
pub fn startup_scan(params: Stage1StartupClaimParams, now: Timestamp) -> (r: StartupScan)
    ensures
        ({
            let oldest = earlier(now@, span(params.max_age_days, 86_400));
            let newest = earlier(now@, span(params.min_rollout_idle_hours, 3_600));
            match r {
                StartupScan::Nothing => params.scan_limit == 0 || params.max_claimed == 0,
                StartupScan::OutOfRange => {
                    &&& params.scan_limit > 0 && params.max_claimed > 0
                    &&& oldest.seconds < MIN_SECONDS || newest.seconds < MIN_SECONDS
                },
                StartupScan::Window(w) => {
                    &&& params.scan_limit > 0 && params.max_claimed > 0
                    &&& w.not_before@ == oldest
                    &&& w.not_after@ == newest
                    &&& w.limit == as_limit(params.scan_limit)
                },
            }
        }),
{
    if params.scan_limit == 0 || params.max_claimed == 0 {
        return StartupScan::Nothing;
    }
    let not_before = match now.before(params.max_age_days, 86_400) {
        Some(t) => t,
        None => return StartupScan::OutOfRange,
    };
    let not_after = match now.before(params.min_rollout_idle_hours, 3_600) {
        Some(t) => t,
        None => return StartupScan::OutOfRange,
    };
    StartupScan::Window(
        ScanWindow { not_before, not_after, limit: query_limit(params.scan_limit) },
    )
}

/// A thread that was taken, with the token that shows who took it.
#[derive(Debug, PartialEq)]
pub struct Stage1JobClaim {
    pub thread: ThreadMetadata,
    pub ownership_token: String,
}

/// The threads that were taken so far, and how many may be.
#[derive(Debug)]
pub struct StartupClaims {
    pub claimed: Vec<Stage1JobClaim>,
    pub max_claimed: usize,
}

/// The token of a job that was claimed.
pub open spec fn claimed_token(outcome: Stage1JobClaimOutcome) -> Option<String> {
    match outcome {
        Stage1JobClaimOutcome::Claimed(job) => job.ownership_token,
        _ => None,
    }
}

/// The threads that were taken after one more was tried.
pub open spec fn claims_after(
    claimed: Seq<Stage1JobClaim>,
    max_claimed: usize,
    thread: ThreadMetadata,
    outcome: Stage1JobClaimOutcome,
) -> Seq<Stage1JobClaim> {
    match claimed_token(outcome) {
        Some(ownership_token) => if claimed.len() < max_claimed {
            claimed.push(Stage1JobClaim { thread, ownership_token })
        } else {
            claimed
        },
        None => claimed,
    }
}

impl StartupClaims {
    /// Nothing was taken yet.
    pub fn new(max_claimed: usize) -> (r: StartupClaims)
        ensures
            r.claimed@.len() == 0,
            r.max_claimed == max_claimed,
    {
        StartupClaims { claimed: Vec::new(), max_claimed }
    }

    /// Whether as many were taken as may be.
    pub fn is_full(&self) -> (r: bool)
        ensures
            r == (self.claimed@.len() >= self.max_claimed),
    {
        self.claimed.len() >= self.max_claimed
    }

    /// Notes what came of the try to take a thread.
    pub fn note(&mut self, thread: ThreadMetadata, outcome: Stage1JobClaimOutcome)
        ensures
            final(self).max_claimed == old(self).max_claimed,
            final(self).claimed@ == claims_after(
                old(self).claimed@,
                old(self).max_claimed,
                thread,
                outcome,
            ),
    {
        if let Stage1JobClaimOutcome::Claimed(job) = outcome {
            if let Some(ownership_token) = job.ownership_token {
                if self.claimed.len() < self.max_claimed {
                    self.claimed.push(Stage1JobClaim { thread, ownership_token });
                }
            }
        }
    }
}

// ---------------------------------------------------------------------------------------------
// Laws
// ---------------------------------------------------------------------------------------------

/// No more threads are taken than may be, and those that were taken stay taken.
pub proof fn startup_claims_are_limited(
    claimed: Seq<Stage1JobClaim>,
    max_claimed: usize,
    thread: ThreadMetadata,
    outcome: Stage1JobClaimOutcome,
)
    requires
        claimed.len() <= max_claimed,
    ensures
        claims_after(claimed, max_claimed, thread, outcome).len() <= max_claimed,
        claimed.is_prefix_of(claims_after(claimed, max_claimed, thread, outcome)),
{
}

/// A thread is taken where its job was claimed with a token and there is room: it comes last, with
/// that token. In every other case nothing changes.
pub proof fn claimed_threads_are_taken(
    claimed: Seq<Stage1JobClaim>,
    max_claimed: usize,
    thread: ThreadMetadata,
    outcome: Stage1JobClaimOutcome,
)
    ensures
        ({
            let after = claims_after(claimed, max_claimed, thread, outcome);
            match outcome {
                Stage1JobClaimOutcome::Claimed(job) => {
                    &&& job.ownership_token is Some && claimed.len() < max_claimed ==> after.len()
                        == claimed.len() + 1 && after.drop_last() == claimed && after.last().thread
                        == thread && after.last().ownership_token == job.ownership_token->0
                    &&& job.ownership_token is None || claimed.len() >= max_claimed ==> after
                        == claimed
                },
                _ => after == claimed,
            }
        }),
{
    assert(claims_after(claimed, max_claimed, thread, outcome).len() > claimed.len()
        ==> claims_after(claimed, max_claimed, thread, outcome).drop_last() =~= claimed);
}

} // verus!
