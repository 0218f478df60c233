//! Requests of clients about the goals of threads: where the goal of a thread is kept, whether it
//! may be changed, and what is written down when it is.

use vstd::prelude::*;

use crate::goals::ThreadGoalStatus;
use crate::store_error::{StoreErrorView, ThreadStoreError};
use crate::text;
use crate::thread_id::{parsed_uuid, ThreadId};

verus! {

// ---------------------------------------------------------------------------------------------
// Errors
// ---------------------------------------------------------------------------------------------

/// What a client is told.
#[derive(Debug, PartialEq, Eq)]
pub enum RequestError {
    InvalidRequest(String),
    Internal(String),
}

/// What an error tells.
pub enum RequestErrorView {
    InvalidRequest(Seq<char>),
    Internal(Seq<char>),
}

impl View for RequestError {
    type V = RequestErrorView;

    open spec fn view(&self) -> RequestErrorView {
        match *self {
            RequestError::InvalidRequest(message) => RequestErrorView::InvalidRequest(message@),
            RequestError::Internal(message) => RequestErrorView::Internal(message@),
        }
    }
}

/// Why the service that looks after goals refused.
#[derive(Debug, PartialEq, Eq)]
pub enum GoalServiceError {
    InvalidRequest(String),
    Internal(String),
}

/// What a client is told when the service refuses.
pub open spec fn service_error_view(err: GoalServiceError) -> RequestErrorView {
    match err {
        GoalServiceError::InvalidRequest(message) => RequestErrorView::InvalidRequest(message@),
        GoalServiceError::Internal(message) => RequestErrorView::Internal(message@),
    }
}

/// What a client is told when the service refuses.
pub fn goal_service_error(err: GoalServiceError) -> (r: RequestError)
    ensures
        r@ == service_error_view(err),
{
    match err {
        GoalServiceError::InvalidRequest(message) => RequestError::InvalidRequest(message),
        GoalServiceError::Internal(message) => RequestError::Internal(message),
    }
}

/// What a client is told when the thread store fails.
pub open spec fn store_goal_error(err: StoreErrorView) -> RequestErrorView {
    match err {
        StoreErrorView::ThreadNotFound(thread_id) => RequestErrorView::InvalidRequest(
            "thread not found: "@ + thread_id,
        ),
        StoreErrorView::InvalidRequest(message) => RequestErrorView::Internal(message),
        StoreErrorView::Conflict(message) => RequestErrorView::Internal(message),
        StoreErrorView::Internal(message) => RequestErrorView::Internal(message),
        StoreErrorView::Unsupported(operation) => RequestErrorView::Internal(
            "thread store does not support "@ + operation + " for goals"@,
        ),
    }
}

/// What a client is told when the thread store fails.
pub fn thread_store_goal_error(err: ThreadStoreError) -> (r: RequestError)
    ensures
        r@ == store_goal_error(err@),
{
    match err {
        ThreadStoreError::ThreadNotFound { thread_id } => RequestError::InvalidRequest(
            text::concat2("thread not found: ", thread_id.as_str()),
        ),
        ThreadStoreError::InvalidRequest { message } => RequestError::Internal(message),
        ThreadStoreError::Conflict { message } => RequestError::Internal(message),
        ThreadStoreError::Internal { message } => RequestError::Internal(message),
        ThreadStoreError::Unsupported { operation } => RequestError::Internal(
            text::concat3("thread store does not support ", operation.as_str(), " for goals"),
        ),
    }
}

/// The thread that a request names.
pub fn parse_thread_id_for_request(thread_id: &str) -> (r: Result<ThreadId, RequestError>)
    ensures
        thread_of_request(r, thread_id@),
{
    match ThreadId::from_string(thread_id) {
        Ok(id) => Ok(id),
        Err(err) => Err(
            RequestError::InvalidRequest(text::concat2("invalid thread id: ", err.as_str())),
        ),
    }
}

/// The result is the thread that a text names, or what is said of text that names none.
pub open spec fn thread_of_request(r: Result<ThreadId, RequestError>, text: Seq<char>) -> bool {
    match r {
        Ok(id) => parsed_uuid(text) == Ok::<Seq<char>, Seq<char>>(id@),
        Err(e) => parsed_uuid(text) matches Err(message) && e@
            == RequestErrorView::InvalidRequest("invalid thread id: "@ + message),
    }
}

/// Begins a request about a goal: the thread that it names, where goals are enabled.
pub fn begin_goal_request(goals_enabled: bool, thread_id: &str) -> (r: Result<
    ThreadId,
    RequestError,
>)
    ensures
        goals_enabled ==> thread_of_request(r, thread_id@),
        !goals_enabled ==> (r matches Err(e) && e@ == RequestErrorView::InvalidRequest(
            "goals feature is disabled"@,
        )),
{
    if !goals_enabled {
        return Err(RequestError::InvalidRequest(text::owned("goals feature is disabled")));
    }
    parse_thread_id_for_request(thread_id)
}

// ---------------------------------------------------------------------------------------------
// Where the goal of a thread is kept
// ---------------------------------------------------------------------------------------------

/// The kind of store in which the goal of a live thread is kept.
#[derive(Debug, Clone, Copy, PartialEq, Eq, Structural)]
pub enum LiveThreadGoalStoragePreference {
    Postgres,
    Local,
}

/// Goals are kept in the remote store where there is one, and else with the local state.
pub open spec fn preference(postgres: bool, has_state_db: bool) -> Option<
    LiveThreadGoalStoragePreference,
> {
    if postgres {
        Some(LiveThreadGoalStoragePreference::Postgres)
    } else if has_state_db {
        Some(LiveThreadGoalStoragePreference::Local)
    } else {
        None
    }
}

/// The kind of store in which the goal of a live thread is kept.
pub fn live_thread_goal_storage_preference(postgres: bool, has_state_db: bool) -> (r: Option<
    LiveThreadGoalStoragePreference,
>)
    ensures
        r == preference(postgres, has_state_db),
{
    if postgres {
        Some(LiveThreadGoalStoragePreference::Postgres)
    } else if has_state_db {
        Some(LiveThreadGoalStoragePreference::Local)
    } else {
        None
    }
}

/// The store of a goal.
#[derive(Debug, Clone, Copy, PartialEq, Eq, Structural)]
pub enum GoalStorage {
    /// The remote store.
    Postgres,
    /// The local state that the live thread holds.
    ThreadState,
    /// The local state of the server.
    ServerState,
}

impl GoalStorage {
    /// The record of the thread on disk is brought in line before the goal changes.
    pub fn reconciles_local_rollout(self) -> (r: bool)
        ensures
            r == (self != GoalStorage::Postgres),
    {
        match self {
            GoalStorage::Postgres => false,
            GoalStorage::ThreadState => true,
            GoalStorage::ServerState => true,
        }
    }
}

/// What a request does with a goal.
#[derive(Debug, Clone, Copy, PartialEq, Eq, Structural)]
pub enum GoalAccess {
    Read,
    Mutate,
}

/// Which stores the server has.
#[derive(Debug, Clone, Copy, PartialEq, Eq, Structural)]
pub struct GoalStores {
    /// Threads are kept in the remote store.
    pub postgres: bool,
    /// The remote store keeps goals.
    pub has_goal_store: bool,
    /// The server has local state.
    pub has_state_db: bool,
}

/// The store of a live thread's goal, where there is one.
pub open spec fn live_storage(stores: GoalStores, thread_has_state_db: bool) -> Option<
    GoalStorage,
> {
    match preference(stores.postgres, thread_has_state_db) {
        Some(LiveThreadGoalStoragePreference::Postgres) => if stores.has_goal_store {
            Some(GoalStorage::Postgres)
        } else {
            None
        },
        Some(LiveThreadGoalStoragePreference::Local) => Some(GoalStorage::ThreadState),
        None => None,
    }
}

/// The store of a live thread's goal.
pub fn goal_storage_for_live_thread(stores: GoalStores, thread_has_state_db: bool) -> (r: Option<
    GoalStorage,
>)
    ensures
        r == live_storage(stores, thread_has_state_db),
{
    match live_thread_goal_storage_preference(stores.postgres, thread_has_state_db) {
        Some(LiveThreadGoalStoragePreference::Postgres) => if stores.has_goal_store {
            Some(GoalStorage::Postgres)
        } else {
            None
        },
        Some(LiveThreadGoalStoragePreference::Local) => Some(GoalStorage::ThreadState),
        None => None,
    }
}

/// What is to be done next to find the store of a thread's goal.
#[derive(Debug, PartialEq, Eq)]
pub enum LookupAction {
    /// Look for the thread among the live ones.
    FindLiveThread,
    /// Ask the live thread whether it takes input from a client.
    CheckDirectInput,
    /// Read the thread from the remote store.
    ReadStoredThread { include_history: bool },
    /// Find the record of the thread on disk.
    FindRollout,
    /// Read the head of that record.
    ReadSessionMeta,
    /// Read all of that record.
    ReadRolloutHistory,
    /// The goal is kept here.
    Found(GoalStorage),
    /// The thread does not take input from a client: the request is invalid.
    RefuseDirectInput,
    /// The request fails.
    Fail(RequestError),
}

/// What an action is.
pub enum ActionView {
    FindLiveThread,
    CheckDirectInput,
    ReadStoredThread(bool),
    FindRollout,
    ReadSessionMeta,
    ReadRolloutHistory,
    Found(GoalStorage),
    RefuseDirectInput,
    Fail(RequestErrorView),
}

impl View for LookupAction {
    type V = ActionView;

    open spec fn view(&self) -> ActionView {
        match *self {
            LookupAction::FindLiveThread => ActionView::FindLiveThread,
            LookupAction::CheckDirectInput => ActionView::CheckDirectInput,
            LookupAction::ReadStoredThread { include_history } => ActionView::ReadStoredThread(
                include_history,
            ),
            LookupAction::FindRollout => ActionView::FindRollout,
            LookupAction::ReadSessionMeta => ActionView::ReadSessionMeta,
            LookupAction::ReadRolloutHistory => ActionView::ReadRolloutHistory,
            LookupAction::Found(storage) => ActionView::Found(storage),
            LookupAction::RefuseDirectInput => ActionView::RefuseDirectInput,
            LookupAction::Fail(e) => ActionView::Fail(e@),
        }
    }
}

/// A live thread, as far as its goal is concerned.
#[derive(Debug, Clone, Copy, PartialEq, Eq, Structural)]
pub struct LiveThread {
    /// The thread has a record on disk.
    pub has_rollout_path: bool,
    /// The thread holds local state.
    pub has_state_db: bool,
}

/// What came of an action.
#[derive(Debug)]
pub enum LookupEvent {
    /// The thread is live.
    Live(LiveThread),
    /// The thread is not live.
    NotLive,
    /// The live thread takes input from a client.
    DirectInputAllowed(LiveThread),
    /// The live thread does not, with what the client is told.
    DirectInputRefused(RequestError),
    /// The thread as the remote store has it: whether another thread spawned it, and whether it
    /// takes input from a client.
    StoredThread { is_thread_spawn: bool, accepts_direct_input: bool },
    /// The remote store failed.
    StoredThreadFailed(ThreadStoreError),
    /// The record of the thread was looked for.
    RolloutPath { found: bool },
    /// Looking for the record failed.
    RolloutPathFailed(String),
    /// The head of the record: whose it is, and whether another thread spawned that.
    SessionMeta { thread_id: ThreadId, is_thread_spawn: bool },
    /// All of the record: whether the thread takes input from a client.
    RolloutHistory { accepts_direct_input: bool },
    /// The record cannot be read.
    RolloutUnreadable(String),
}

/// The search for the store of a thread's goal.
#[derive(Debug)]
pub struct GoalStorageLookup {
    pub thread_id: ThreadId,
    pub access: GoalAccess,
    pub stores: GoalStores,
}

/// A search: the thread, what is to be done with its goal, and the stores.
pub struct LookupView {
    pub thread_id: Seq<char>,
    pub access: GoalAccess,
    pub stores: GoalStores,
}

impl View for GoalStorageLookup {
    type V = LookupView;

    open spec fn view(&self) -> LookupView {
        LookupView { thread_id: self.thread_id@, access: self.access, stores: self.stores }
    }
}

/// An error of the server.
pub open spec fn internal(message: Seq<char>) -> ActionView {
    ActionView::Fail(RequestErrorView::Internal(message))
}

/// An error of the client.
pub open spec fn invalid(message: Seq<char>) -> ActionView {
    ActionView::Fail(RequestErrorView::InvalidRequest(message))
}

/// The store of the goal of a thread that may have one there.
pub open spec fn materialized_storage(l: LookupView) -> ActionView {
    if l.stores.postgres {
        if l.stores.has_goal_store {
            ActionView::Found(GoalStorage::Postgres)
        } else {
            internal("postgres goal store unavailable for thread goals: "@ + l.thread_id)
        }
    } else if l.stores.has_state_db {
        ActionView::Found(GoalStorage::ServerState)
    } else {
        internal("sqlite state db unavailable for thread goals"@)
    }
}

/// The store of a live thread's goal. A thread without a record on disk has none, unless threads
/// are kept remotely.
pub open spec fn live_lookup(l: LookupView, thread: LiveThread) -> ActionView {
    if !l.stores.postgres && !thread.has_rollout_path {
        invalid("ephemeral thread does not support goals: "@ + l.thread_id)
    } else {
        match live_storage(l.stores, thread.has_state_db) {
            Some(storage) => ActionView::Found(storage),
            None => materialized_storage(l),
        }
    }
}

/// What follows upon an event. A goal is changed only where the thread takes input from a client,
/// which a thread that another one spawned may not.
pub open spec fn next_action(l: LookupView, event: LookupEvent) -> ActionView {
    match event {
        LookupEvent::Live(thread) => if l.access == GoalAccess::Mutate {
            ActionView::CheckDirectInput
        } else {
            live_lookup(l, thread)
        },
        LookupEvent::NotLive => if l.stores.postgres {
            ActionView::ReadStoredThread(l.access == GoalAccess::Mutate)
        } else {
            ActionView::FindRollout
        },
        LookupEvent::DirectInputAllowed(thread) => live_lookup(l, thread),
        LookupEvent::DirectInputRefused(e) => ActionView::Fail(e@),
        LookupEvent::StoredThread { is_thread_spawn, accepts_direct_input } => if l.access
            == GoalAccess::Mutate && is_thread_spawn && !accepts_direct_input {
            ActionView::RefuseDirectInput
        } else {
            materialized_storage(l)
        },
        LookupEvent::StoredThreadFailed(e) => ActionView::Fail(store_goal_error(e@)),
        LookupEvent::RolloutPath { found } => if !found {
            invalid("thread not found: "@ + l.thread_id)
        } else if l.access == GoalAccess::Mutate {
            ActionView::ReadSessionMeta
        } else {
            materialized_storage(l)
        },
        LookupEvent::RolloutPathFailed(err) => internal(
            "failed to locate thread id "@ + l.thread_id + ": "@ + err@,
        ),
        LookupEvent::SessionMeta { thread_id, is_thread_spawn } => if thread_id@ != l.thread_id {
            invalid("thread metadata does not match requested id"@)
        } else if is_thread_spawn {
            ActionView::ReadRolloutHistory
        } else {
            materialized_storage(l)
        },
        LookupEvent::RolloutHistory { accepts_direct_input } => if accepts_direct_input {
            materialized_storage(l)
        } else {
            ActionView::RefuseDirectInput
        },
        LookupEvent::RolloutUnreadable(err) => internal(
            "failed to read thread ownership: "@ + err@,
        ),
    }
}

fn fail_internal(message: String) -> (r: LookupAction)
    ensures
        r@ == internal(message@),
{
    LookupAction::Fail(RequestError::Internal(message))
}

fn fail_invalid(message: String) -> (r: LookupAction)
    ensures
        r@ == invalid(message@),
{
    LookupAction::Fail(RequestError::InvalidRequest(message))
}

impl GoalStorageLookup {
    /// Begins the search.
    pub fn begin(thread_id: ThreadId, access: GoalAccess, stores: GoalStores) -> (r: (
        GoalStorageLookup,
        LookupAction,
    ))
        ensures
            r.0@ == (LookupView { thread_id: thread_id@, access, stores }),
            r.1@ == ActionView::FindLiveThread,
    {
        (GoalStorageLookup { thread_id, access, stores }, LookupAction::FindLiveThread)
    }

    fn materialized(&self) -> (r: LookupAction)
        ensures
            r@ == materialized_storage(self@),
    {
        if self.stores.postgres {
            if self.stores.has_goal_store {
                LookupAction::Found(GoalStorage::Postgres)
            } else {
                fail_internal(
                    text::concat2(
                        "postgres goal store unavailable for thread goals: ",
                        self.thread_id.as_str(),
                    ),
                )
            }
        } else if self.stores.has_state_db {
            LookupAction::Found(GoalStorage::ServerState)
        } else {
            fail_internal(text::owned("sqlite state db unavailable for thread goals"))
        }
    }

    fn live(&self, thread: LiveThread) -> (r: LookupAction)
        ensures
            r@ == live_lookup(self@, thread),
    {
        if !self.stores.postgres && !thread.has_rollout_path {
            return fail_invalid(
                text::concat2(
                    "ephemeral thread does not support goals: ",
                    self.thread_id.as_str(),
                ),
            );
        }
        match goal_storage_for_live_thread(self.stores, thread.has_state_db) {
            Some(storage) => LookupAction::Found(storage),
            None => self.materialized(),
        }
    }

    /// What follows upon an event.
    pub fn next(&self, event: LookupEvent) -> (r: LookupAction)
        ensures
            r@ == next_action(self@, event),
    {
        let mutate = match self.access {
            GoalAccess::Read => false,
            GoalAccess::Mutate => true,
        };
        match event {
            LookupEvent::Live(thread) => if mutate {
                LookupAction::CheckDirectInput
            } else {
                self.live(thread)
            },
            LookupEvent::NotLive => if self.stores.postgres {
                LookupAction::ReadStoredThread { include_history: mutate }
            } else {
                LookupAction::FindRollout
            },
            LookupEvent::DirectInputAllowed(thread) => self.live(thread),
            LookupEvent::DirectInputRefused(e) => LookupAction::Fail(e),
            LookupEvent::StoredThread { is_thread_spawn, accepts_direct_input } => {
                if mutate && is_thread_spawn && !accepts_direct_input {
                    LookupAction::RefuseDirectInput
                } else {
                    self.materialized()
                }
            },
            LookupEvent::StoredThreadFailed(e) => LookupAction::Fail(thread_store_goal_error(e)),
            LookupEvent::RolloutPath { found } => {
                if !found {
                    fail_invalid(text::concat2("thread not found: ", self.thread_id.as_str()))
                } else if mutate {
                    LookupAction::ReadSessionMeta
                } else {
                    self.materialized()
                }
            },
            LookupEvent::RolloutPathFailed(err) => {
                let start = text::concat3(
                    "failed to locate thread id ",
                    self.thread_id.as_str(),
                    ": ",
                );
                fail_internal(text::concat2(start.as_str(), err.as_str()))
            },
            LookupEvent::SessionMeta { thread_id, is_thread_spawn } => {
                if !thread_id.same_as(&self.thread_id) {
                    fail_invalid(text::owned("thread metadata does not match requested id"))
                } else if is_thread_spawn {
                    LookupAction::ReadRolloutHistory
                } else {
                    self.materialized()
                }
            },
            LookupEvent::RolloutHistory { accepts_direct_input } => {
                if accepts_direct_input {
                    self.materialized()
                } else {
                    LookupAction::RefuseDirectInput
                }
            },
            LookupEvent::RolloutUnreadable(err) => fail_internal(
                text::concat2("failed to read thread ownership: ", err.as_str()),
            ),
        }
    }
}

// ---------------------------------------------------------------------------------------------
// Setting a goal
// ---------------------------------------------------------------------------------------------

/// What a client asks of a goal.
#[derive(Debug)]
pub struct ThreadGoalSetParams {
    pub objective: Option<String>,
    pub status: Option<ThreadGoalStatus>,
    /// A budget to set or to take away; `None` leaves it.
    pub token_budget: Option<Option<i64>>,
}

/// What becomes of the objective.
#[derive(Debug, PartialEq, Eq)]
pub enum GoalObjectiveUpdate {
    Keep,
    Replace(String),
}

/// What becomes of the budget.
#[derive(Debug, Clone, Copy, PartialEq, Eq, Structural)]
pub enum GoalTokenBudgetUpdate {
    Keep,
    Replace(Option<i64>),
}

/// What the service that looks after goals is asked.
#[derive(Debug)]
pub struct GoalSetRequest {
    pub thread_id: ThreadId,
    pub objective: GoalObjectiveUpdate,
    pub status: Option<ThreadGoalStatus>,
    pub token_budget: GoalTokenBudgetUpdate,
    pub max_goal_token_budget: Option<i64>,
}

/// Puts a client's wish before the service. The highest budget is that of the thread, where it is
/// live, and else that of the server.
pub fn goal_set_request(
    thread_id: ThreadId,
    params: ThreadGoalSetParams,
    live_max_budget: Option<Option<i64>>,
    server_max_budget: Option<i64>,
) -> (r: GoalSetRequest)
    ensures
        r.thread_id@ == thread_id@,
        r.status == params.status,
        r.objective == match params.objective {
            Some(objective) => GoalObjectiveUpdate::Replace(objective),
            None => GoalObjectiveUpdate::Keep,
        },
        r.token_budget == match params.token_budget {
            Some(budget) => GoalTokenBudgetUpdate::Replace(budget),
            None => GoalTokenBudgetUpdate::Keep,
        },
        r.max_goal_token_budget == match live_max_budget {
            Some(budget) => budget,
            None => server_max_budget,
        },
{
    GoalSetRequest {
        thread_id,
        objective: match params.objective {
            Some(objective) => GoalObjectiveUpdate::Replace(objective),
            None => GoalObjectiveUpdate::Keep,
        },
        status: params.status,
        token_budget: match params.token_budget {
            Some(budget) => GoalTokenBudgetUpdate::Replace(budget),
            None => GoalTokenBudgetUpdate::Keep,
        },
        max_goal_token_budget: match live_max_budget {
            Some(budget) => budget,
            None => server_max_budget,
        },
    }
}

/// The record of a thread on disk.
#[derive(Debug, Clone, Copy, PartialEq, Eq, Structural)]
pub enum RolloutRecord {
    /// The thread has none.
    Absent,
    /// The thread has a place for one, at which nothing is yet.
    Missing,
    /// The record is there.
    Present,
}

/// What is written down of a goal that was set.
#[derive(Debug, Clone, Copy, PartialEq, Eq, Structural)]
pub enum PersistPlan {
    /// The live thread writes its settings and the goal, and its settings once more where they
    /// changed meanwhile.
    SettingsAndGoal,
    /// The live thread writes the goal.
    Goal,
    /// The thread store appends the goal.
    AppendToStore,
    /// Nothing.
    Nothing,
}

/// What is written down of a goal that was set.
pub open spec fn plan_of(live: Option<RolloutRecord>, storage: GoalStorage) -> PersistPlan {
    match live {
        Some(RolloutRecord::Missing) => PersistPlan::SettingsAndGoal,
        Some(_) => PersistPlan::Goal,
        None => if storage == GoalStorage::Postgres {
            PersistPlan::AppendToStore
        } else {
            PersistPlan::Nothing
        },
    }
}

/// What is written down of a goal that was set. A goal that comes before anything else creates
/// the record of its thread, which then begins with the settings.
pub fn goal_persist_plan(live: Option<RolloutRecord>, storage: GoalStorage) -> (r: PersistPlan)
    ensures
        r == plan_of(live, storage),
{
    match live {
        Some(RolloutRecord::Missing) => PersistPlan::SettingsAndGoal,
        Some(_) => PersistPlan::Goal,
        None => if storage.reconciles_local_rollout() {
            PersistPlan::Nothing
        } else {
            PersistPlan::AppendToStore
        },
    }
}

/// What the local state knows of the record of a thread.
#[derive(Debug)]
pub struct KnownRollout {
    /// It names the same record.
    pub same_path: bool,
    /// Whose the record is, where it is there and can be read.
    pub recorded_thread_id: Option<ThreadId>,
}

/// The local state names the record of a thread, and the record is that thread's.
pub open spec fn is_in_line(known: Option<KnownRollout>, thread_id: Seq<char>) -> bool {
    match known {
        Some(k) => match k.recorded_thread_id {
            Some(id) => k.same_path && id@ == thread_id,
            None => false,
        },
        None => false,
    }
}

/// Whether the local state has to be brought in line with the record of a thread.
pub fn rollout_needs_reconcile(known: Option<KnownRollout>, thread_id: &ThreadId) -> (r: bool)
    ensures
        r == !is_in_line(known, thread_id@),
{
    match known {
        Some(known) => match known.recorded_thread_id {
            Some(id) => !(known.same_path && id.same_as(thread_id)),
            None => true,
        },
        None => true,
    }
}

// ---------------------------------------------------------------------------------------------
// Laws
// ---------------------------------------------------------------------------------------------

/// With the remote store a goal is never looked for, nor kept, on the local side; without it
/// never on the remote side.
pub proof fn stores_are_not_mixed(l: LookupView, event: LookupEvent)
    ensures
        next_action(l, event) matches ActionView::Found(storage) ==> (l.stores.postgres
            == (storage == GoalStorage::Postgres)),
        next_action(l, event) is ReadStoredThread ==> l.stores.postgres,
        event is NotLive && next_action(l, event) is FindRollout ==> !l.stores.postgres,
{
}

/// The goal of a thread that another one spawned is not changed unless the thread takes input
/// from a client.
pub proof fn spawned_threads_are_guarded(l: LookupView, event: LookupEvent)
    requires
        l.access == GoalAccess::Mutate,
        event matches LookupEvent::Live(_) || event matches LookupEvent::NotLive || event matches
            LookupEvent::DirectInputRefused(_) || (event matches LookupEvent::StoredThread {
            is_thread_spawn,
            accepts_direct_input,
        } && is_thread_spawn && !accepts_direct_input) || (
        event matches LookupEvent::RolloutPath { found } && found) || (
        event matches LookupEvent::SessionMeta { thread_id, is_thread_spawn } && is_thread_spawn)
            || (event matches LookupEvent::RolloutHistory { accepts_direct_input }
            && !accepts_direct_input),
    ensures
        !(next_action(l, event) is Found),
{
}

/// Goals are kept remotely where threads are, and else with the local state where there is any.
pub proof fn goals_are_kept_with_their_threads(stores: GoalStores, has_state_db: bool)
    ensures
        preference(true, has_state_db) == Some(LiveThreadGoalStoragePreference::Postgres),
        preference(false, true) == Some(LiveThreadGoalStoragePreference::Local),
        preference(false, false) is None,
        stores.postgres && stores.has_goal_store ==> live_storage(stores, has_state_db) == Some(
            GoalStorage::Postgres,
        ),
        stores.postgres && !stores.has_goal_store ==> live_storage(stores, has_state_db) is None,
        !stores.postgres && has_state_db ==> live_storage(stores, has_state_db) == Some(
            GoalStorage::ThreadState,
        ),
        !stores.postgres && !has_state_db ==> live_storage(stores, has_state_db) is None,
{
}

/// The store that is there for any thread, live or not: the remote one where threads are kept
/// remotely, and else the local state of the server. Where that is missing the request fails and
/// says which is.
pub proof fn stores_are_named_when_missing(l: LookupView)
    ensures
        ({
            let found = materialized_storage(l);
            &&& l.stores.postgres && l.stores.has_goal_store ==> found == ActionView::Found(
                GoalStorage::Postgres,
            )
            &&& l.stores.postgres && !l.stores.has_goal_store ==> found == ActionView::Fail(
                RequestErrorView::Internal(
                    "postgres goal store unavailable for thread goals: "@ + l.thread_id,
                ),
            )
            &&& !l.stores.postgres && l.stores.has_state_db ==> found == ActionView::Found(
                GoalStorage::ServerState,
            )
            &&& !l.stores.postgres && !l.stores.has_state_db ==> found == ActionView::Fail(
                RequestErrorView::Internal("sqlite state db unavailable for thread goals"@),
            )
        }),
{
}

/// The goal of a live thread is kept with the thread's own state where it has any, and the thread
/// must have a record on disk, unless threads are kept remotely. It may be read at once; to change
/// it, the thread is first asked whether it takes input, and its refusal is passed on.
pub proof fn live_threads_answer_for_themselves(
    l: LookupView,
    thread: LiveThread,
    refusal: RequestError,
)
    ensures
        ({
            let asked = next_action(l, LookupEvent::Live(thread));
            let allowed = next_action(l, LookupEvent::DirectInputAllowed(thread));
            let refused = next_action(l, LookupEvent::DirectInputRefused(refusal));
            &&& l.access == GoalAccess::Mutate ==> asked is CheckDirectInput
            &&& l.access == GoalAccess::Read ==> asked == allowed
            &&& refused == ActionView::Fail(refusal@)
            &&& !l.stores.postgres && !thread.has_rollout_path ==> allowed == ActionView::Fail(
                RequestErrorView::InvalidRequest(
                    "ephemeral thread does not support goals: "@ + l.thread_id,
                ),
            )
            &&& !l.stores.postgres && thread.has_rollout_path && thread.has_state_db ==> allowed
                == ActionView::Found(GoalStorage::ThreadState)
            &&& !l.stores.postgres && thread.has_rollout_path && !thread.has_state_db
                ==> allowed == materialized_storage(l)
            &&& l.stores.postgres ==> allowed == materialized_storage(l)
        }),
{
}

/// A thread that is not live is looked for where threads are kept. A remote one is read, with its
/// history where its goal is to change; then a thread that another spawned must take input for
/// that, and any other need not.
pub proof fn stored_threads_are_asked_for_input(
    l: LookupView,
    spawned: bool,
    accepts: bool,
    failure: ThreadStoreError,
)
    ensures
        ({
            let begun = next_action(l, LookupEvent::NotLive);
            let read = next_action(
                l,
                LookupEvent::StoredThread {
                    is_thread_spawn: spawned,
                    accepts_direct_input: accepts,
                },
            );
            &&& l.stores.postgres && l.access == GoalAccess::Mutate ==> begun
                == ActionView::ReadStoredThread(true)
            &&& l.stores.postgres && l.access == GoalAccess::Read ==> begun
                == ActionView::ReadStoredThread(false)
            &&& !l.stores.postgres ==> begun is FindRollout
            &&& l.access == GoalAccess::Read ==> read == materialized_storage(l)
            &&& l.access == GoalAccess::Mutate && (!spawned || accepts) ==> read
                == materialized_storage(l)
            &&& l.access == GoalAccess::Mutate && spawned && !accepts ==> read is RefuseDirectInput
            &&& next_action(l, LookupEvent::StoredThreadFailed(failure)) == ActionView::Fail(
                store_goal_error(failure@),
            )
        }),
{
}

/// A thread on disk must be there. Its goal may then be read at once; to change it, its record is
/// read: it must be that thread's, and where another thread spawned it, its history must say that
/// it takes input.
pub proof fn threads_on_disk_are_asked_for_input(
    l: LookupView,
    recorded: ThreadId,
    spawned: bool,
    accepts: bool,
    message: String,
)
    ensures
        ({
            let missing = next_action(l, LookupEvent::RolloutPath { found: false });
            let found = next_action(l, LookupEvent::RolloutPath { found: true });
            let head = next_action(
                l,
                LookupEvent::SessionMeta { thread_id: recorded, is_thread_spawn: spawned },
            );
            let history = next_action(
                l,
                LookupEvent::RolloutHistory { accepts_direct_input: accepts },
            );
            &&& missing == ActionView::Fail(
                RequestErrorView::InvalidRequest("thread not found: "@ + l.thread_id),
            )
            &&& l.access == GoalAccess::Read ==> found == materialized_storage(l)
            &&& l.access == GoalAccess::Mutate ==> found is ReadSessionMeta
            &&& recorded@ != l.thread_id ==> head == ActionView::Fail(
                RequestErrorView::InvalidRequest("thread metadata does not match requested id"@),
            )
            &&& recorded@ == l.thread_id && spawned ==> head is ReadRolloutHistory
            &&& recorded@ == l.thread_id && !spawned ==> head == materialized_storage(l)
            &&& accepts ==> history == materialized_storage(l)
            &&& !accepts ==> history is RefuseDirectInput
            &&& next_action(l, LookupEvent::RolloutPathFailed(message)) == ActionView::Fail(
                RequestErrorView::Internal(
                    "failed to locate thread id "@ + l.thread_id + ": "@ + message@,
                ),
            )
            &&& next_action(l, LookupEvent::RolloutUnreadable(message)) == ActionView::Fail(
                RequestErrorView::Internal("failed to read thread ownership: "@ + message@),
            )
        }),
{
}

/// A thread that is not there is the client's mistake; everything else that the store says is the
/// server's. What the service says keeps its kind.
pub proof fn errors_keep_their_words(message: Seq<char>, words: String)
    ensures
        store_goal_error(StoreErrorView::ThreadNotFound(message))
            == RequestErrorView::InvalidRequest("thread not found: "@ + message),
        store_goal_error(StoreErrorView::InvalidRequest(message)) == RequestErrorView::Internal(
            message,
        ),
        store_goal_error(StoreErrorView::Conflict(message)) == RequestErrorView::Internal(message),
        store_goal_error(StoreErrorView::Internal(message)) == RequestErrorView::Internal(message),
        store_goal_error(StoreErrorView::Unsupported(message)) == RequestErrorView::Internal(
            "thread store does not support "@ + message + " for goals"@,
        ),
        service_error_view(GoalServiceError::InvalidRequest(words))
            == RequestErrorView::InvalidRequest(words@),
        service_error_view(GoalServiceError::Internal(words)) == RequestErrorView::Internal(
            words@,
        ),
{
}

/// The thread of a request is the one that its text names; text that names none is refused, with
/// what is said of it.
pub proof fn requests_name_their_thread(r: Result<ThreadId, RequestError>, text: Seq<char>)
    requires
        thread_of_request(r, text),
    ensures
        r is Ok <==> parsed_uuid(text) is Ok,
        r is Ok ==> r->Ok_0@ == parsed_uuid(text)->Ok_0,
        r is Err ==> r->Err_0@ == RequestErrorView::InvalidRequest(
            "invalid thread id: "@ + parsed_uuid(text)->Err_0,
        ),
{
}

/// A live thread writes its goal down itself, and its settings before it where nothing was written
/// yet; for any other thread the remote store appends the goal, and a local one writes nothing.
pub proof fn goals_are_written_by_their_threads(storage: GoalStorage)
    ensures
        plan_of(Some(RolloutRecord::Missing), storage) == PersistPlan::SettingsAndGoal,
        plan_of(Some(RolloutRecord::Present), storage) == PersistPlan::Goal,
        plan_of(Some(RolloutRecord::Absent), storage) == PersistPlan::Goal,
        plan_of(None, GoalStorage::Postgres) == PersistPlan::AppendToStore,
        plan_of(None, GoalStorage::ThreadState) == PersistPlan::Nothing,
        plan_of(None, GoalStorage::ServerState) == PersistPlan::Nothing,
{
}

/// The local state is in line with a record where it knows it, names the same one, and that is the
/// thread's own.
pub proof fn states_are_in_line_with_their_own_record(
    known: Option<KnownRollout>,
    thread_id: Seq<char>,
)
    ensures
        is_in_line(known, thread_id) <==> known is Some && known->0.same_path
            && known->0.recorded_thread_id is Some && known->0.recorded_thread_id->0@ == thread_id,
{
}

} // verus!
