//! Bringing the tables of a database up to date, once for all stores that share it.

use vstd::prelude::*;

use crate::store_error::{StoreErrorView, ThreadStoreError};
use crate::text;

verus! {

/// How far the work on a database has come.
#[derive(Debug, PartialEq, Eq)]
pub enum MigrationGate {
    /// Nobody has begun.
    Pending,
    /// Somebody is at work.
    Running,
    /// It failed, with what is said of it, and nobody has been told.
    Failed(String),
    /// It is done.
    Succeeded,
}

/// How far the work on a database has come.
pub enum GateView {
    Pending,
    Running,
    Failed(Seq<char>),
    Succeeded,
}

impl View for MigrationGate {
    type V = GateView;

    open spec fn view(&self) -> GateView {
        match *self {
            MigrationGate::Pending => GateView::Pending,
            MigrationGate::Running => GateView::Running,
            MigrationGate::Failed(message) => GateView::Failed(message@),
            MigrationGate::Succeeded => GateView::Succeeded,
        }
    }
}

/// What a store that needs the tables does next.
#[derive(Debug, PartialEq, Eq)]
pub enum GateAction {
    /// Begin the work and wait for its end.
    StartAndWait,
    /// Wait for its end.
    Wait,
    /// Go on.
    Proceed,
    /// Give up, with what is said of the failure.
    Fail(String),
}

/// What a store does next.
pub enum GateActionView {
    StartAndWait,
    Wait,
    Proceed,
    Fail(Seq<char>),
}

impl View for GateAction {
    type V = GateActionView;

    open spec fn view(&self) -> GateActionView {
        match *self {
            GateAction::StartAndWait => GateActionView::StartAndWait,
            GateAction::Wait => GateActionView::Wait,
            GateAction::Proceed => GateActionView::Proceed,
            GateAction::Fail(message) => GateActionView::Fail(message@),
        }
    }
}

/// What a store that wants to pass does, and how things stand then. A failure is told
/// once; after that the work may begin anew.
pub open spec fn at_gate(gate: GateView) -> (GateView, GateActionView) {
    match gate {
        GateView::Pending => (GateView::Running, GateActionView::StartAndWait),
        GateView::Running => (GateView::Running, GateActionView::Wait),
        GateView::Failed(message) => (GateView::Pending, GateActionView::Fail(message)),
        GateView::Succeeded => (GateView::Succeeded, GateActionView::Proceed),
    }
}

impl MigrationGate {
    /// Nobody has begun.
    pub fn new() -> (r: MigrationGate)
        ensures
            r@ == GateView::Pending,
    {
        MigrationGate::Pending
    }

    /// A store wants to pass.
    pub fn enter(&mut self) -> (r: GateAction)
        ensures
            (final(self)@, r@) == at_gate(old(self)@),
    {
        let mut before = MigrationGate::Pending;
        std::mem::swap(&mut before, self);
        match before {
            MigrationGate::Pending => {
                *self = MigrationGate::Running;
                GateAction::StartAndWait
            },
            MigrationGate::Running => {
                *self = MigrationGate::Running;
                GateAction::Wait
            },
            MigrationGate::Failed(message) => GateAction::Fail(message),
            MigrationGate::Succeeded => {
                *self = MigrationGate::Succeeded;
                GateAction::Proceed
            },
        }
    }

    /// The work is at its end.
    pub fn finish(&mut self, result: Result<(), String>)
        ensures
            final(self)@ == match result {
                Ok(_) => GateView::Succeeded,
                Err(err) => GateView::Failed(
                    "failed to apply remote SQL migrations: "@ + err@,
                ),
            },
    {
        *self = match result {
            Ok(_) => MigrationGate::Succeeded,
            Err(err) => MigrationGate::Failed(
                text::concat2("failed to apply remote SQL migrations: ", err.as_str()),
            ),
        };
    }
}

/// What came of the work under the lock: what went wrong with the work, and with giving the lock
/// back.
pub open spec fn locked_outcome(work: Option<Seq<char>>, unlock: Option<Seq<char>>) -> Option<
    Seq<char>,
> {
    match (work, unlock) {
        (None, None) => None,
        (None, Some(e)) => Some("failed to release migration advisory lock: "@ + e),
        (Some(e), None) => Some(e),
        (Some(w), Some(u)) => Some(w + "; failed to release migration advisory lock: "@ + u),
    }
}

/// What went wrong, where something did.
pub open spec fn error_text(r: Result<(), String>) -> Option<Seq<char>> {
    match r {
        Ok(_) => None,
        Err(e) => Some(e@),
    }
}

/// Puts together what came of the work under the lock and of giving the lock back.
pub fn combine_lock_results(work: Result<(), String>, unlock: Result<(), String>) -> (r: Result<
    (),
    ThreadStoreError,
>)
    ensures
        match r {
            Ok(_) => locked_outcome(error_text(work), error_text(unlock)) is None,
            Err(e) => locked_outcome(error_text(work), error_text(unlock)) matches Some(message)
                && e@ == StoreErrorView::Internal(message),
        },
{
    let message = match (work, unlock) {
        (Ok(_), Ok(_)) => return Ok(()),
        (Ok(_), Err(unlock_err)) => text::concat2(
            "failed to release migration advisory lock: ",
            unlock_err.as_str(),
        ),
        (Err(work_err), Ok(_)) => work_err,
        (Err(work_err), Err(unlock_err)) => text::concat3(
            work_err.as_str(),
            "; failed to release migration advisory lock: ",
            unlock_err.as_str(),
        ),
    };
    Err(ThreadStoreError::Internal { message })
}

/// What is to be done next for the work under the lock.
#[derive(Debug, Clone, Copy, PartialEq, Eq, Structural)]
pub enum LockAction {
    Lock,
    Migrate,
    Unlock,
    Done,
}

/// The work under the lock: the lock is taken, the work is done, and the lock is given back
/// whatever came of the work.
#[derive(Debug)]
pub struct LockedMigration {
    pub next: LockAction,
    pub work: Result<(), String>,
}

impl LockedMigration {
    /// Before the lock has been taken.
    pub fn new() -> (r: LockedMigration)
        ensures
            r.next == LockAction::Lock,
            r.work == Ok::<(), String>(()),
    {
        LockedMigration { next: LockAction::Lock, work: Ok(()) }
    }

    /// Takes what came of an action. The end comes when the lock could not be taken or has been
    /// given back.
    pub fn step(self, result: Result<(), String>) -> (r: (
        LockedMigration,
        Option<Result<(), ThreadStoreError>>,
    ))
        ensures
            match self.next {
                LockAction::Lock => match result {
                    Ok(_) => r.0.next == LockAction::Migrate && r.1 is None,
                    Err(e) => r.0.next == LockAction::Done && (r.1 matches Some(Err(x)) && x@
                        == StoreErrorView::Internal(e@)),
                },
                LockAction::Migrate => r.0.next == LockAction::Unlock && r.0.work == result
                    && r.1 is None,
                LockAction::Unlock => r.0.next == LockAction::Done && match r.1 {
                    Some(Ok(_)) => locked_outcome(error_text(self.work), error_text(result)) is None,
                    Some(Err(x)) => locked_outcome(
                        error_text(self.work),
                        error_text(result),
                    ) matches Some(message) && x@ == StoreErrorView::Internal(message),
                    None => false,
                },
                LockAction::Done => r.0.next == LockAction::Done && r.1 is None,
            },
    {
        match self.next {
            LockAction::Lock => match result {
                Ok(_) => (LockedMigration { next: LockAction::Migrate, work: self.work }, None),
                Err(message) => (
                    LockedMigration { next: LockAction::Done, work: self.work },
                    Some(Err(ThreadStoreError::Internal { message })),
                ),
            },
            LockAction::Migrate => (
                LockedMigration { next: LockAction::Unlock, work: result },
                None,
            ),
            LockAction::Unlock => (
                LockedMigration { next: LockAction::Done, work: Ok(()) },
                Some(combine_lock_results(self.work, result)),
            ),
            LockAction::Done => (self, None),
        }
    }
}

// ---------------------------------------------------------------------------------------------
// Laws
// ---------------------------------------------------------------------------------------------

/// Of two stores that want to pass one after the other at most one begins the work.
pub proof fn one_store_does_the_work(gate: GateView)
    ensures
        ({
            let (after, first) = at_gate(gate);
            let (_, second) = at_gate(after);
            first is StartAndWait ==> second is Wait
        }),
{
}

/// Once the work is done every store goes on.
pub proof fn done_work_stays_done(gate: GateView)
    requires
        gate is Succeeded,
    ensures
        at_gate(gate).0 is Succeeded,
        at_gate(gate).1 is Proceed,
{
}

/// A failure is told to one store, and the next one tries again.
pub proof fn failures_are_told_once(message: Seq<char>)
    ensures
        at_gate(GateView::Failed(message)).1 == GateActionView::Fail(message),
        at_gate(at_gate(GateView::Failed(message)).0).1 is StartAndWait,
{
}

/// What a store does depends on how far the work has come: whoever comes first begins it, others
/// wait while it is under way and go on once it is done. Only the first changes how things stand,
/// and whoever is told of a failure.
pub proof fn stores_wait_their_turn(message: Seq<char>)
    ensures
        at_gate(GateView::Pending).1 is StartAndWait,
        at_gate(GateView::Pending).0 is Running,
        at_gate(GateView::Running).1 is Wait,
        at_gate(GateView::Running).0 is Running,
        at_gate(GateView::Succeeded).1 is Proceed,
        at_gate(GateView::Succeeded).0 is Succeeded,
        at_gate(GateView::Failed(message)).1 == GateActionView::Fail(message),
        at_gate(GateView::Failed(message)).0 is Pending,
{
}

/// All is well where the work was done and the lock was given back. Otherwise what is said begins
/// with what went wrong with the work, and ends with what went wrong with the lock.
pub proof fn failures_are_told_in_full(work: Result<(), String>, unlock: Result<(), String>)
    ensures
        ({
            let said = locked_outcome(error_text(work), error_text(unlock));
            &&& said is None <==> work is Ok && unlock is Ok
            &&& work is Err && unlock is Ok ==> said == Some(work->Err_0@)
            &&& work is Ok && unlock is Err ==> said == Some(
                "failed to release migration advisory lock: "@ + unlock->Err_0@,
            )
            &&& work is Err && unlock is Err ==> said == Some(
                work->Err_0@ + "; failed to release migration advisory lock: "@
                    + unlock->Err_0@,
            )
        }),
{
}

} // verus!
