//! The course of a request about the goal of a thread, from the search for its store to the
//! answer. What touches the world is done outside: the flow says what comes next and is told what
//! came of it.

use vstd::prelude::*;

use crate::goal_requests::{
    goal_persist_plan, goal_service_error, is_in_line, plan_of, rollout_needs_reconcile,
    service_error_view, GoalAccess, GoalServiceError, GoalStorage, KnownRollout, PersistPlan,
    RequestError, RequestErrorView, RolloutRecord,
};
use crate::text;
use crate::thread_id::ThreadId;

verus! {

/// What a client wants of a goal.
#[derive(Debug, Clone, Copy, PartialEq, Eq, Structural)]
pub enum GoalRequestKind {
    Change,
    Get,
    Clear,
}

/// What is to be done next.
#[derive(Debug, PartialEq, Eq)]
pub enum FlowStep {
    /// Find the store of the goal.
    FindStorage(GoalAccess),
    /// Find the record of the thread on disk.
    FindRollout,
    /// Look up what the local state knows of that record.
    ReadKnownRollout,
    /// Bring the local state in line with the record.
    ReconcileRollout,
    /// Ask the service that looks after goals.
    AskService,
    /// Write down the goal that was set.
    Persist(PersistPlan),
    /// Write down the settings, which changed meanwhile.
    CatchUpSettings,
    /// Answer the client.
    Respond,
    /// Tell everyone that the goal was set or taken away.
    Announce,
    /// Let the running thread follow its new goal.
    ApplyEffects,
    /// Nothing is left to do.
    Done,
    /// Answer the client with an error.
    Fail(RequestError),
}

/// What is to be done next.
pub enum StepView {
    FindStorage(GoalAccess),
    FindRollout,
    ReadKnownRollout,
    ReconcileRollout,
    AskService,
    Persist(PersistPlan),
    CatchUpSettings,
    Respond,
    Announce,
    ApplyEffects,
    Done,
    Fail(RequestErrorView),
}

impl View for FlowStep {
    type V = StepView;

    open spec fn view(&self) -> StepView {
        match *self {
            FlowStep::FindStorage(access) => StepView::FindStorage(access),
            FlowStep::FindRollout => StepView::FindRollout,
            FlowStep::ReadKnownRollout => StepView::ReadKnownRollout,
            FlowStep::ReconcileRollout => StepView::ReconcileRollout,
            FlowStep::AskService => StepView::AskService,
            FlowStep::Persist(plan) => StepView::Persist(plan),
            FlowStep::CatchUpSettings => StepView::CatchUpSettings,
            FlowStep::Respond => StepView::Respond,
            FlowStep::Announce => StepView::Announce,
            FlowStep::ApplyEffects => StepView::ApplyEffects,
            FlowStep::Done => StepView::Done,
            FlowStep::Fail(e) => StepView::Fail(e@),
        }
    }
}

/// Where the record of a thread is.
#[derive(Debug, PartialEq, Eq)]
pub enum RolloutSearch {
    /// The thread is live, with or without a place for its record.
    Live { has_path: bool },
    /// The thread is not live, and its record was looked for on disk.
    OnDisk { found: bool },
    /// Looking for it failed.
    Failed(String),
}

/// What came of a step.
#[derive(Debug)]
pub enum FlowEvent {
    StorageFound(GoalStorage),
    StorageFailed(RequestError),
    Rollout(RolloutSearch),
    Known(Option<KnownRollout>),
    Reconciled,
    ServiceFailed(GoalServiceError),
    /// The goal was set; with the record of the thread, where that is live.
    GoalSet(Option<RolloutRecord>),
    GoalRead,
    /// Whether there was a goal to take away.
    GoalCleared(bool),
    /// The goal was written down, or that failed; whether the settings that were written are no
    /// longer those of the thread.
    Persisted { settings_changed: bool },
    SettingsWritten,
    Responded,
    Announced,
    EffectsApplied,
}

/// A request and how far it has come.
#[derive(Debug)]
pub struct GoalFlow {
    pub thread_id: ThreadId,
    pub kind: GoalRequestKind,
    /// Where the goal is kept, once that is known.
    pub storage: Option<GoalStorage>,
    /// There was a goal to take away.
    pub cleared: bool,
    pub step: FlowStep,
}

/// A request and how far it has come.
pub struct FlowView {
    pub thread_id: Seq<char>,
    pub kind: GoalRequestKind,
    pub storage: Option<GoalStorage>,
    pub cleared: bool,
    pub step: StepView,
}

impl View for GoalFlow {
    type V = FlowView;

    open spec fn view(&self) -> FlowView {
        FlowView {
            thread_id: self.thread_id@,
            kind: self.kind,
            storage: self.storage,
            cleared: self.cleared,
            step: self.step@,
        }
    }
}

/// What a request needs of the goal.
pub open spec fn access_of(kind: GoalRequestKind) -> GoalAccess {
    if kind == GoalRequestKind::Get {
        GoalAccess::Read
    } else {
        GoalAccess::Mutate
    }
}

/// A request that begins.
pub open spec fn flow_start(thread_id: Seq<char>, kind: GoalRequestKind) -> FlowView {
    FlowView {
        thread_id,
        kind,
        storage: None,
        cleared: false,
        step: StepView::FindStorage(access_of(kind)),
    }
}

/// What follows the search for the record of a thread.
pub open spec fn after_rollout_search(thread_id: Seq<char>, found: RolloutSearch) -> StepView {
    match found {
        RolloutSearch::Live { has_path } => if has_path {
            StepView::ReadKnownRollout
        } else {
            StepView::Fail(
                RequestErrorView::InvalidRequest(
                    "ephemeral thread does not support goals: "@ + thread_id,
                ),
            )
        },
        RolloutSearch::OnDisk { found } => if found {
            StepView::ReadKnownRollout
        } else {
            StepView::Fail(RequestErrorView::InvalidRequest("thread not found: "@ + thread_id))
        },
        RolloutSearch::Failed(err) => StepView::Fail(
            RequestErrorView::Internal(
                "failed to locate thread id "@ + thread_id + ": "@ + err@,
            ),
        ),
    }
}

/// A request after what came of a step. A goal is only changed once its store is known and, where
/// that is local, in line with the record of the thread. What comes of the wrong step changes
/// nothing.
pub open spec fn flow_after(f: FlowView, event: FlowEvent) -> FlowView {
    match (f.step, event) {
        (StepView::FindStorage(_), FlowEvent::StorageFound(storage)) => FlowView {
            storage: Some(storage),
            step: if f.kind != GoalRequestKind::Get && storage != GoalStorage::Postgres {
                StepView::FindRollout
            } else {
                StepView::AskService
            },
            ..f
        },
        (StepView::FindStorage(_), FlowEvent::StorageFailed(e)) => FlowView {
            step: StepView::Fail(e@),
            ..f
        },
        (StepView::FindRollout, FlowEvent::Rollout(found)) => FlowView {
            step: after_rollout_search(f.thread_id, found),
            ..f
        },
        (StepView::ReadKnownRollout, FlowEvent::Known(known)) => FlowView {
            step: if is_in_line(known, f.thread_id) {
                StepView::AskService
            } else {
                StepView::ReconcileRollout
            },
            ..f
        },
        (StepView::ReconcileRollout, FlowEvent::Reconciled) => FlowView {
            step: StepView::AskService,
            ..f
        },
        (StepView::AskService, FlowEvent::ServiceFailed(e)) => FlowView {
            step: StepView::Fail(service_error_view(e)),
            ..f
        },
        (StepView::AskService, FlowEvent::GoalSet(live)) => match (f.kind, f.storage) {
            (GoalRequestKind::Change, Some(storage)) => FlowView {
                step: StepView::Persist(plan_of(live, storage)),
                ..f
            },
            _ => f,
        },
        (StepView::AskService, FlowEvent::GoalRead) => if f.kind == GoalRequestKind::Get {
            FlowView { step: StepView::Respond, ..f }
        } else {
            f
        },
        (StepView::AskService, FlowEvent::GoalCleared(cleared)) => if f.kind
            == GoalRequestKind::Clear {
            FlowView { cleared, step: StepView::Respond, ..f }
        } else {
            f
        },
        (StepView::Persist(plan), FlowEvent::Persisted { settings_changed }) => FlowView {
            step: if plan == PersistPlan::SettingsAndGoal && settings_changed {
                StepView::CatchUpSettings
            } else {
                StepView::Respond
            },
            ..f
        },
        (StepView::CatchUpSettings, FlowEvent::SettingsWritten) => FlowView {
            step: StepView::Respond,
            ..f
        },
        (StepView::Respond, FlowEvent::Responded) => FlowView {
            step: if f.kind == GoalRequestKind::Change || f.cleared {
                StepView::Announce
            } else {
                StepView::Done
            },
            ..f
        },
        (StepView::Announce, FlowEvent::Announced) => FlowView {
            step: if f.kind == GoalRequestKind::Change {
                StepView::ApplyEffects
            } else {
                StepView::Done
            },
            ..f
        },
        (StepView::ApplyEffects, FlowEvent::EffectsApplied) => FlowView {
            step: StepView::Done,
            ..f
        },
        _ => f,
    }
}

fn rollout_search_step(thread_id: &ThreadId, found: RolloutSearch) -> (r: FlowStep)
    ensures
        r@ == after_rollout_search(thread_id@, found),
{
    match found {
        RolloutSearch::Live { has_path } => if has_path {
            FlowStep::ReadKnownRollout
        } else {
            FlowStep::Fail(
                RequestError::InvalidRequest(
                    text::concat2("ephemeral thread does not support goals: ", thread_id.as_str()),
                ),
            )
        },
        RolloutSearch::OnDisk { found } => if found {
            FlowStep::ReadKnownRollout
        } else {
            FlowStep::Fail(
                RequestError::InvalidRequest(
                    text::concat2("thread not found: ", thread_id.as_str()),
                ),
            )
        },
        RolloutSearch::Failed(err) => {
            let start = text::concat3("failed to locate thread id ", thread_id.as_str(), ": ");
            FlowStep::Fail(RequestError::Internal(text::concat2(start.as_str(), err.as_str())))
        },
    }
}

impl GoalFlow {
    /// A request that begins.
    pub fn start(thread_id: ThreadId, kind: GoalRequestKind) -> (r: GoalFlow)
        ensures
            r@ == flow_start(thread_id@, kind),
    {
        let access = match kind {
            GoalRequestKind::Get => GoalAccess::Read,
            _ => GoalAccess::Mutate,
        };
        GoalFlow {
            thread_id,
            kind,
            storage: None,
            cleared: false,
            step: FlowStep::FindStorage(access),
        }
    }

    /// Goes on with what came of a step.
    pub fn advance(self, event: FlowEvent) -> (r: GoalFlow)
        ensures
            r@ == flow_after(self@, event),
    {
        let mut flow = self;
        let mut step = FlowStep::Done;
        std::mem::swap(&mut step, &mut flow.step);
        flow.step =
        match (step, event) {
            (FlowStep::FindStorage(_), FlowEvent::StorageFound(storage)) => {
                flow.storage = Some(storage);
                if flow.kind != GoalRequestKind::Get && storage.reconciles_local_rollout() {
                    FlowStep::FindRollout
                } else {
                    FlowStep::AskService
                }
            },
            (FlowStep::FindStorage(_), FlowEvent::StorageFailed(e)) => FlowStep::Fail(e),
            (FlowStep::FindRollout, FlowEvent::Rollout(found)) => rollout_search_step(
                &flow.thread_id,
                found,
            ),
            (FlowStep::ReadKnownRollout, FlowEvent::Known(known)) => if rollout_needs_reconcile(
                known,
                &flow.thread_id,
            ) {
                FlowStep::ReconcileRollout
            } else {
                FlowStep::AskService
            },
            (FlowStep::ReconcileRollout, FlowEvent::Reconciled) => FlowStep::AskService,
            (FlowStep::AskService, FlowEvent::ServiceFailed(e)) => FlowStep::Fail(
                goal_service_error(e),
            ),
            (FlowStep::AskService, FlowEvent::GoalSet(live)) => match (flow.kind, flow.storage) {
                (GoalRequestKind::Change, Some(storage)) => FlowStep::Persist(
                    goal_persist_plan(live, storage),
                ),
                _ => FlowStep::AskService,
            },
            (FlowStep::AskService, FlowEvent::GoalRead) => if flow.kind == GoalRequestKind::Get {
                FlowStep::Respond
            } else {
                FlowStep::AskService
            },
            (FlowStep::AskService, FlowEvent::GoalCleared(cleared)) => if flow.kind
                == GoalRequestKind::Clear {
                flow.cleared = cleared;
                FlowStep::Respond
            } else {
                FlowStep::AskService
            },
            (FlowStep::Persist(plan), FlowEvent::Persisted { settings_changed }) => if plan
                == PersistPlan::SettingsAndGoal && settings_changed {
                FlowStep::CatchUpSettings
            } else {
                FlowStep::Respond
            },
            (FlowStep::CatchUpSettings, FlowEvent::SettingsWritten) => FlowStep::Respond,
            (FlowStep::Respond, FlowEvent::Responded) => if flow.kind == GoalRequestKind::Change
                || flow.cleared {
                FlowStep::Announce
            } else {
                FlowStep::Done
            },
            (FlowStep::Announce, FlowEvent::Announced) => if flow.kind == GoalRequestKind::Change {
                FlowStep::ApplyEffects
            } else {
                FlowStep::Done
            },
            (FlowStep::ApplyEffects, FlowEvent::EffectsApplied) => FlowStep::Done,
            (step, _) => step,
        };
        flow
    }
}

// ---------------------------------------------------------------------------------------------
// Laws
// ---------------------------------------------------------------------------------------------

/// What holds of every request on its way: past the search its store is known, a goal is only
/// taken away where that is asked for, and only a goal that is set is written down.
pub open spec fn flow_is_sound(f: FlowView) -> bool {
    &&& f.step is FindStorage ==> f.step == StepView::FindStorage(access_of(f.kind))
    &&& !(f.step is FindStorage) && !(f.step is Fail) ==> f.storage is Some
    &&& f.cleared ==> f.kind == GoalRequestKind::Clear
    &&& (f.step is FindRollout || f.step is ReadKnownRollout || f.step is ReconcileRollout)
        ==> f.kind != GoalRequestKind::Get && f.storage != Some(GoalStorage::Postgres)
    &&& (f.step is Persist || f.step is CatchUpSettings || f.step is ApplyEffects) ==> f.kind
        == GoalRequestKind::Change
    &&& f.step is Announce ==> f.kind == GoalRequestKind::Change || f.cleared
}

/// Every request begins soundly and stays so, for the same thread and the same wish.
pub proof fn requests_stay_sound(f: FlowView, event: FlowEvent)
    ensures
        flow_is_sound(flow_start(f.thread_id, f.kind)),
        flow_is_sound(f) ==> flow_is_sound(flow_after(f, event)),
        flow_after(f, event).thread_id == f.thread_id,
        flow_after(f, event).kind == f.kind,
{
}

/// Once the service has done its part the client gets its answer: no error follows.
pub proof fn done_requests_do_not_fail(f: FlowView, event: FlowEvent)
    requires
        f.step is Persist || f.step is CatchUpSettings || f.step is Respond || f.step is Announce
            || f.step is ApplyEffects || f.step is Done,
    ensures
        !(flow_after(f, event).step is Fail),
        !(flow_after(f, event).step is AskService),
{
}

/// A request that was answered with an error, or is done, does nothing more.
pub proof fn ended_requests_stay_ended(f: FlowView, event: FlowEvent)
    requires
        f.step is Fail || f.step is Done,
    ensures
        flow_after(f, event) == f,
{
}

/// The service is only asked to change a goal in local state after that state was found to be in
/// line with the record of the thread, or was brought in line.
pub proof fn local_goals_change_in_line(f: FlowView, event: FlowEvent)
    requires
        f.kind != GoalRequestKind::Get,
        !(f.step is AskService),
        flow_after(f, event).step is AskService,
    ensures
        flow_after(f, event).storage == Some(GoalStorage::Postgres) || (
        event matches FlowEvent::Known(known) && is_in_line(known, f.thread_id))
            || event is Reconciled,
{
}

/// A goal is read in three steps: its store is found, the service is asked, the client is
/// answered. Nothing is announced, and no record is looked at.
pub proof fn goals_are_read(thread_id: Seq<char>, storage: GoalStorage)
    ensures
        ({
            let f0 = flow_start(thread_id, GoalRequestKind::Get);
            let f1 = flow_after(f0, FlowEvent::StorageFound(storage));
            let f2 = flow_after(f1, FlowEvent::GoalRead);
            let f3 = flow_after(f2, FlowEvent::Responded);
            &&& f0.step == StepView::FindStorage(GoalAccess::Read)
            &&& f1.step is AskService && f1.storage == Some(storage)
            &&& f2.step is Respond
            &&& f3.step is Done
        }),
{
}

/// A goal in the remote store is set, written down, answered and announced, and then the thread
/// follows it, in this order. What is written down is what the plan for its thread says; the
/// settings are written once more only where they were written and changed meanwhile.
pub proof fn remote_goals_are_set(
    thread_id: Seq<char>,
    live: Option<RolloutRecord>,
    settings_changed: bool,
)
    ensures
        ({
            let f0 = flow_start(thread_id, GoalRequestKind::Change);
            let f1 = flow_after(f0, FlowEvent::StorageFound(GoalStorage::Postgres));
            let f2 = flow_after(f1, FlowEvent::GoalSet(live));
            let f3 = flow_after(f2, FlowEvent::Persisted { settings_changed });
            let again = live == Some(RolloutRecord::Missing) && settings_changed;
            let f4 = if again {
                flow_after(f3, FlowEvent::SettingsWritten)
            } else {
                f3
            };
            let f5 = flow_after(f4, FlowEvent::Responded);
            let f6 = flow_after(f5, FlowEvent::Announced);
            let f7 = flow_after(f6, FlowEvent::EffectsApplied);
            &&& f0.step == StepView::FindStorage(GoalAccess::Mutate)
            &&& f1.step is AskService
            &&& live == Some(RolloutRecord::Missing) ==> f2.step == StepView::Persist(
                PersistPlan::SettingsAndGoal,
            )
            &&& live == Some(RolloutRecord::Present) || live == Some(RolloutRecord::Absent)
                ==> f2.step == StepView::Persist(PersistPlan::Goal)
            &&& live is None ==> f2.step == StepView::Persist(PersistPlan::AppendToStore)
            &&& f3.step is CatchUpSettings <==> again
            &&& f4.step is Respond
            &&& f5.step is Announce
            &&& f6.step is ApplyEffects
            &&& f7.step is Done
        }),
{
}

/// Before a goal in local state is set or taken away, the record of its thread is found and what
/// the state knows of it is looked up; the state is brought in line where it is not.
pub proof fn local_goals_wait_for_their_record(
    thread_id: Seq<char>,
    kind: GoalRequestKind,
    storage: GoalStorage,
    live: bool,
    known: Option<KnownRollout>,
)
    requires
        kind != GoalRequestKind::Get,
        storage != GoalStorage::Postgres,
    ensures
        ({
            let f0 = flow_start(thread_id, kind);
            let f1 = flow_after(f0, FlowEvent::StorageFound(storage));
            let found = if live {
                RolloutSearch::Live { has_path: true }
            } else {
                RolloutSearch::OnDisk { found: true }
            };
            let f2 = flow_after(f1, FlowEvent::Rollout(found));
            let f3 = flow_after(f2, FlowEvent::Known(known));
            let f4 = flow_after(f3, FlowEvent::Reconciled);
            let in_line = known is Some && known->0.same_path && known->0.recorded_thread_id
                is Some && known->0.recorded_thread_id->0@ == thread_id;
            &&& f0.step == StepView::FindStorage(GoalAccess::Mutate)
            &&& f1.step is FindRollout && f1.storage == Some(storage)
            &&& f2.step is ReadKnownRollout
            &&& in_line ==> f3.step is AskService
            &&& !in_line ==> f3.step is ReconcileRollout && f4.step is AskService
        }),
{
}

/// A record that is not there ends the request: a live thread without a place for one has no
/// goals, a thread that is not on disk is not found, and a search that failed says why.
pub proof fn missing_records_end_the_request(f: FlowView, message: String)
    requires
        f.step is FindRollout,
    ensures
        flow_after(f, FlowEvent::Rollout(RolloutSearch::Live { has_path: false })).step
            == StepView::Fail(
            RequestErrorView::InvalidRequest(
                "ephemeral thread does not support goals: "@ + f.thread_id,
            ),
        ),
        flow_after(f, FlowEvent::Rollout(RolloutSearch::OnDisk { found: false })).step
            == StepView::Fail(
            RequestErrorView::InvalidRequest("thread not found: "@ + f.thread_id),
        ),
        flow_after(f, FlowEvent::Rollout(RolloutSearch::Failed(message))).step == StepView::Fail(
            RequestErrorView::Internal(
                "failed to locate thread id "@ + f.thread_id + ": "@ + message@,
            ),
        ),
{
}

/// A goal that is taken away is answered, and announced where there was one; the thread has
/// nothing to follow. A goal that was set is written down even in local state.
pub proof fn goals_are_taken_away(f: FlowView, there_was_one: bool)
    requires
        f.step is AskService,
        f.kind == GoalRequestKind::Clear,
    ensures
        ({
            let f1 = flow_after(f, FlowEvent::GoalCleared(there_was_one));
            let f2 = flow_after(f1, FlowEvent::Responded);
            let f3 = flow_after(f2, FlowEvent::Announced);
            &&& f1.step is Respond && f1.cleared == there_was_one
            &&& there_was_one ==> f2.step is Announce && f3.step is Done
            &&& !there_was_one ==> f2.step is Done
        }),
{
}

/// What goes wrong ends the request with what is said of it: in the search for the store, and in
/// the service.
pub proof fn failures_are_passed_on(f: FlowView, error: RequestError, refusal: GoalServiceError)
    ensures
        f.step is FindStorage ==> flow_after(f, FlowEvent::StorageFailed(error)).step
            == StepView::Fail(error@),
        f.step is AskService ==> flow_after(f, FlowEvent::ServiceFailed(refusal)).step
            == StepView::Fail(
            match refusal {
                GoalServiceError::InvalidRequest(message) => RequestErrorView::InvalidRequest(
                    message@,
                ),
                GoalServiceError::Internal(message) => RequestErrorView::Internal(message@),
            },
        ),
{
}

/// Whatever comes in, a change is answered before it is announced, and announced before the thread
/// follows it; and no request for one thread ends as one for another.
pub proof fn requests_keep_their_order(f: FlowView, event: FlowEvent)
    ensures
        flow_after(f, event).step is Announce ==> f.step is Respond || f.step is Announce,
        flow_after(f, event).step is ApplyEffects ==> f.step is Announce || f.step is ApplyEffects,
        flow_after(f, event).step is Done ==> f.step is Respond || f.step is Announce || f.step
            is ApplyEffects || f.step is Done,
        flow_after(f, event).step is Respond ==> f.step is AskService || f.step is Persist
            || f.step is CatchUpSettings || f.step is Respond,
        flow_after(f, event).step is Persist ==> f.step is Persist || (f.step is AskService
            && f.kind == GoalRequestKind::Change && event is GoalSet),
{
}

} // verus!
