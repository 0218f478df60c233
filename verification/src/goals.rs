//! The goal of a thread: what it is, how requests and usage change it, and how it is stored.

use vstd::prelude::*;

use crate::text::{self, decimal, opt_text};
use crate::thread_id::{is_thread_id, parsed_uuid, ThreadId};
use crate::time::{
    datetime_to_epoch_millis, epoch_error, epoch_millis_to_datetime, millis_of, stamp_nanos,
    stored_time, timestamp_nanos, TimeView, Timestamp,
};

verus! {

// ---------------------------------------------------------------------------------------------
// Goals
// ---------------------------------------------------------------------------------------------

/// How far a goal has come.
#[derive(Debug, Clone, Copy, PartialEq, Eq, Structural)]
pub enum ThreadGoalStatus {
    Active,
    Paused,
    Blocked,
    UsageLimited,
    BudgetLimited,
    Complete,
}

/// The name under which a status is stored.
pub open spec fn status_key(status: ThreadGoalStatus) -> Seq<char> {
    match status {
        ThreadGoalStatus::Active => "active"@,
        ThreadGoalStatus::Paused => "paused"@,
        ThreadGoalStatus::Blocked => "blocked"@,
        ThreadGoalStatus::UsageLimited => "usage_limited"@,
        ThreadGoalStatus::BudgetLimited => "budget_limited"@,
        ThreadGoalStatus::Complete => "complete"@,
    }
}

/// The status that is stored under a name.
pub open spec fn status_of_key(key: Seq<char>) -> Option<ThreadGoalStatus> {
    if key == "active"@ {
        Some(ThreadGoalStatus::Active)
    } else if key == "paused"@ {
        Some(ThreadGoalStatus::Paused)
    } else if key == "blocked"@ {
        Some(ThreadGoalStatus::Blocked)
    } else if key == "usage_limited"@ {
        Some(ThreadGoalStatus::UsageLimited)
    } else if key == "budget_limited"@ {
        Some(ThreadGoalStatus::BudgetLimited)
    } else if key == "complete"@ {
        Some(ThreadGoalStatus::Complete)
    } else {
        None
    }
}

impl ThreadGoalStatus {
    /// The name under which the status is stored.
    pub fn as_str(self) -> (r: &'static str)
        ensures
            r@ == status_key(self),
    {
        match self {
            ThreadGoalStatus::Active => "active",
            ThreadGoalStatus::Paused => "paused",
            ThreadGoalStatus::Blocked => "blocked",
            ThreadGoalStatus::UsageLimited => "usage_limited",
            ThreadGoalStatus::BudgetLimited => "budget_limited",
            ThreadGoalStatus::Complete => "complete",
        }
    }

    /// The status that is stored under a name.
    pub fn from_key(key: &str) -> (r: Option<ThreadGoalStatus>)
        ensures
            r == status_of_key(key@),
    {
        if text::str_eq(key, "active") {
            Some(ThreadGoalStatus::Active)
        } else if text::str_eq(key, "paused") {
            Some(ThreadGoalStatus::Paused)
        } else if text::str_eq(key, "blocked") {
            Some(ThreadGoalStatus::Blocked)
        } else if text::str_eq(key, "usage_limited") {
            Some(ThreadGoalStatus::UsageLimited)
        } else if text::str_eq(key, "budget_limited") {
            Some(ThreadGoalStatus::BudgetLimited)
        } else if text::str_eq(key, "complete") {
            Some(ThreadGoalStatus::Complete)
        } else {
            None
        }
    }
}

/// The goal of a thread.
#[derive(Debug, PartialEq, Eq)]
pub struct ThreadGoal {
    pub thread_id: ThreadId,
    pub goal_id: String,
    pub objective: String,
    pub status: ThreadGoalStatus,
    pub token_budget: Option<i64>,
    pub tokens_used: i64,
    pub time_used_seconds: i64,
    pub created_at: Timestamp,
    pub updated_at: Timestamp,
}

/// What a goal says.
#[verifier::ext_equal]
pub struct GoalView {
    pub thread_id: Seq<char>,
    pub goal_id: Seq<char>,
    pub objective: Seq<char>,
    pub status: ThreadGoalStatus,
    pub token_budget: Option<i64>,
    pub tokens_used: i64,
    pub time_used_seconds: i64,
    pub created_at: TimeView,
    pub updated_at: TimeView,
}

impl View for ThreadGoal {
    type V = GoalView;

    open spec fn view(&self) -> GoalView {
        GoalView {
            thread_id: self.thread_id@,
            goal_id: self.goal_id@,
            objective: self.objective@,
            status: self.status,
            token_budget: self.token_budget,
            tokens_used: self.tokens_used,
            time_used_seconds: self.time_used_seconds,
            created_at: self.created_at@,
            updated_at: self.updated_at@,
        }
    }
}

/// What an optional goal says.
pub open spec fn opt_goal(g: Option<ThreadGoal>) -> Option<GoalView> {
    match g {
        Some(g) => Some(g@),
        None => None,
    }
}

/// A goal as it is stored.
#[derive(Debug, PartialEq, Eq)]
pub struct GoalRow {
    pub thread_id: String,
    pub goal_id: String,
    pub objective: String,
    pub status: String,
    pub token_budget: Option<i64>,
    pub tokens_used: i64,
    pub time_used_seconds: i64,
    pub created_at_ms: i64,
    pub updated_at_ms: i64,
}

/// What a stored goal says.
#[verifier::ext_equal]
pub struct GoalRowView {
    pub thread_id: Seq<char>,
    pub goal_id: Seq<char>,
    pub objective: Seq<char>,
    pub status: Seq<char>,
    pub token_budget: Option<i64>,
    pub tokens_used: i64,
    pub time_used_seconds: i64,
    pub created_at_ms: i64,
    pub updated_at_ms: i64,
}

impl View for GoalRow {
    type V = GoalRowView;

    open spec fn view(&self) -> GoalRowView {
        GoalRowView {
            thread_id: self.thread_id@,
            goal_id: self.goal_id@,
            objective: self.objective@,
            status: self.status@,
            token_budget: self.token_budget,
            tokens_used: self.tokens_used,
            time_used_seconds: self.time_used_seconds,
            created_at_ms: self.created_at_ms,
            updated_at_ms: self.updated_at_ms,
        }
    }
}

/// The used tokens have reached the budget, where there is one.
pub open spec fn budget_reached(tokens_used: int, token_budget: Option<i64>) -> bool {
    token_budget matches Some(budget) && tokens_used >= budget
}

/// An active goal whose budget is used up is limited by it.
pub open spec fn limited_status(
    status: ThreadGoalStatus,
    tokens_used: int,
    token_budget: Option<i64>,
) -> ThreadGoalStatus {
    if status == ThreadGoalStatus::Active && budget_reached(tokens_used, token_budget) {
        ThreadGoalStatus::BudgetLimited
    } else {
        status
    }
}

/// The status of a goal once its budget has been looked at.
pub fn status_after_budget_limit(
    status: ThreadGoalStatus,
    tokens_used: i64,
    token_budget: Option<i64>,
) -> (r: ThreadGoalStatus)
    ensures
        r == limited_status(status, tokens_used as int, token_budget),
{
    let reached = match token_budget {
        Some(budget) => tokens_used >= budget,
        None => false,
    };
    if status == ThreadGoalStatus::Active && reached {
        ThreadGoalStatus::BudgetLimited
    } else {
        status
    }
}

/// The name of a new goal: its thread and the instant at which it was set.
pub open spec fn goal_id_of(thread_id: Seq<char>, now: TimeView) -> Seq<char> {
    thread_id + ":"@ + decimal(stamp_nanos(now))
}

/// The name of a new goal.
pub fn new_goal_id(thread_id: &ThreadId, now: Timestamp) -> (r: String)
    ensures
        r@ == goal_id_of(thread_id@, now@),
{
    let nanos = text::i64_text(timestamp_nanos(now));
    text::concat3(thread_id.as_str(), ":", nanos.as_str())
}

// ---------------------------------------------------------------------------------------------
// Stored goals
// ---------------------------------------------------------------------------------------------

/// Why a stored goal cannot be read.
#[derive(Debug, PartialEq, Eq)]
pub enum GoalRowError {
    /// The thread's identifier is none, with what is said of it.
    InvalidThreadId(String),
    /// There is no status of this name.
    UnknownStatus(String),
    /// An instant is out of range, with what is said of it.
    InvalidTime(String),
}

/// The goal that is stored, where its thread, its status and its instants are such.
pub open spec fn goal_of_row(row: GoalRowView) -> Option<GoalView> {
    match (
        parsed_uuid(row.thread_id),
        status_of_key(row.status),
        stored_time(row.created_at_ms as int),
        stored_time(row.updated_at_ms as int),
    ) {
        (Ok(thread_id), Some(status), Some(created_at), Some(updated_at)) => Some(
            GoalView {
                thread_id,
                goal_id: row.goal_id,
                objective: row.objective,
                status,
                token_budget: row.token_budget,
                tokens_used: row.tokens_used,
                time_used_seconds: row.time_used_seconds,
                created_at,
                updated_at,
            },
        ),
        _ => None,
    }
}

/// Reads a stored goal. The thread is looked at first, the status before the instants.
pub fn thread_goal_from_row(row: GoalRow) -> (r: Result<ThreadGoal, GoalRowError>)
    ensures
        match r {
            Ok(goal) => goal_of_row(row@) == Some(goal@),
            Err(GoalRowError::InvalidThreadId(message)) => parsed_uuid(row@.thread_id) == Err::<
                Seq<char>,
                Seq<char>,
            >(message@),
            Err(GoalRowError::UnknownStatus(key)) => parsed_uuid(row@.thread_id) is Ok
                && status_of_key(row@.status) is None && key@ == row@.status,
            Err(GoalRowError::InvalidTime(message)) => {
                &&& parsed_uuid(row@.thread_id) is Ok
                &&& status_of_key(row@.status) is Some
                &&& if stored_time(row.created_at_ms as int) is None {
                    message@ == epoch_error(row.created_at_ms as int)
                } else {
                    stored_time(row.updated_at_ms as int) is None && message@ == epoch_error(
                        row.updated_at_ms as int,
                    )
                }
            },
        },
{
    let thread_id = match ThreadId::from_string(row.thread_id.as_str()) {
        Ok(id) => id,
        Err(message) => return Err(GoalRowError::InvalidThreadId(message)),
    };
    let status = match ThreadGoalStatus::from_key(row.status.as_str()) {
        Some(status) => status,
        None => return Err(GoalRowError::UnknownStatus(row.status)),
    };
    let created_at = match epoch_millis_to_datetime(row.created_at_ms) {
        Ok(t) => t,
        Err(message) => return Err(GoalRowError::InvalidTime(message)),
    };
    let updated_at = match epoch_millis_to_datetime(row.updated_at_ms) {
        Ok(t) => t,
        Err(message) => return Err(GoalRowError::InvalidTime(message)),
    };
    Ok(
        ThreadGoal {
            thread_id,
            goal_id: row.goal_id,
            objective: row.objective,
            status,
            token_budget: row.token_budget,
            tokens_used: row.tokens_used,
            time_used_seconds: row.time_used_seconds,
            created_at,
            updated_at,
        },
    )
}

/// A goal as it is stored.
pub open spec fn row_of_goal(goal: GoalView) -> GoalRowView {
    GoalRowView {
        thread_id: goal.thread_id,
        goal_id: goal.goal_id,
        objective: goal.objective,
        status: status_key(goal.status),
        token_budget: goal.token_budget,
        tokens_used: goal.tokens_used,
        time_used_seconds: goal.time_used_seconds,
        created_at_ms: millis_of(goal.created_at) as i64,
        updated_at_ms: millis_of(goal.updated_at) as i64,
    }
}

/// Stores a goal as it is, in place of one that the thread had.
pub fn replace_thread_goal_snapshot(goal: ThreadGoal) -> (r: GoalRow)
    ensures
        r@ == row_of_goal(goal@),
{
    GoalRow {
        created_at_ms: datetime_to_epoch_millis(goal.created_at),
        updated_at_ms: datetime_to_epoch_millis(goal.updated_at),
        status: text::owned(goal.status.as_str()),
        thread_id: text::owned(goal.thread_id.as_str()),
        goal_id: goal.goal_id,
        objective: goal.objective,
        token_budget: goal.token_budget,
        tokens_used: goal.tokens_used,
        time_used_seconds: goal.time_used_seconds,
    }
}

/// A goal that has just been set.
pub open spec fn new_row(
    thread_id: Seq<char>,
    objective: Seq<char>,
    status: ThreadGoalStatus,
    token_budget: Option<i64>,
    now: TimeView,
) -> GoalRowView {
    GoalRowView {
        thread_id,
        goal_id: goal_id_of(thread_id, now),
        objective,
        status: status_key(limited_status(status, 0, token_budget)),
        token_budget,
        tokens_used: 0,
        time_used_seconds: 0,
        created_at_ms: millis_of(now) as i64,
        updated_at_ms: millis_of(now) as i64,
    }
}

/// Sets a goal, in place of one that the thread had.
pub fn replace_thread_goal(
    thread_id: &ThreadId,
    objective: String,
    status: ThreadGoalStatus,
    token_budget: Option<i64>,
    now: Timestamp,
) -> (r: GoalRow)
    ensures
        r@ == new_row(thread_id@, objective@, status, token_budget, now@),
{
    let now_ms: i64 = datetime_to_epoch_millis(now);
    let status = status_after_budget_limit(status, 0, token_budget);
    GoalRow {
        thread_id: text::owned(thread_id.as_str()),
        goal_id: new_goal_id(thread_id, now),
        objective,
        status: text::owned(status.as_str()),
        token_budget,
        tokens_used: 0,
        time_used_seconds: 0,
        created_at_ms: now_ms,
        updated_at_ms: now_ms,
    }
}

/// What an optional stored goal says.
pub open spec fn opt_row(r: Option<GoalRow>) -> Option<GoalRowView> {
    match r {
        Some(r) => Some(r@),
        None => None,
    }
}

/// Sets a goal, unless the thread has one that is not complete.
pub fn insert_thread_goal(
    existing: Option<&GoalRow>,
    thread_id: &ThreadId,
    objective: String,
    status: ThreadGoalStatus,
    token_budget: Option<i64>,
    now: Timestamp,
) -> (r: Option<GoalRow>)
    ensures
        opt_row(r) == if existing matches Some(row) && row@.status != "complete"@ {
            None
        } else {
            Some(new_row(thread_id@, objective@, status, token_budget, now@))
        },
{
    if let Some(row) = existing {
        if !text::str_eq(row.status.as_str(), "complete") {
            return None;
        }
    }
    Some(replace_thread_goal(thread_id, objective, status, token_budget, now))
}

// ---------------------------------------------------------------------------------------------
// Changes on request
// ---------------------------------------------------------------------------------------------

/// What a request changes of a goal. A budget may be set, taken away or left.
#[derive(Debug, PartialEq, Eq)]
pub struct GoalUpdate {
    pub objective: Option<String>,
    pub status: Option<ThreadGoalStatus>,
    pub token_budget: Option<Option<i64>>,
    pub expected_goal_id: Option<String>,
}

/// What became of a request to change a goal.
#[derive(Debug, Clone, Copy, PartialEq, Eq, Structural)]
pub enum GoalChange {
    /// The goal is not the one that was meant.
    OtherGoal,
    /// There was nothing to change.
    Unchanged,
    /// The goal has been changed.
    Changed,
}

/// The goal is the one that is meant.
pub open spec fn is_expected(row: GoalRowView, expected_goal_id: Option<Seq<char>>) -> bool {
    expected_goal_id matches Some(id) ==> id == row.goal_id
}

/// Nothing is to be changed.
pub open spec fn changes_nothing(update: GoalUpdate) -> bool {
    update.objective is None && update.status is None && update.token_budget is None
}

/// The status that a request leads to. A goal that its budget limits is not paused or blocked.
/// One that is made active, or is active when its budget changes, is limited where the budget is
/// used up.
pub open spec fn requested_status(row: GoalRowView, update: GoalUpdate) -> Seq<char> {
    let budget = match update.token_budget {
        Some(budget) => budget,
        None => row.token_budget,
    };
    match update.status {
        Some(status) => if row.status == "budget_limited"@ && (status == ThreadGoalStatus::Paused
            || status == ThreadGoalStatus::Blocked) {
            row.status
        } else {
            status_key(limited_status(status, row.tokens_used as int, budget))
        },
        None => if update.token_budget is Some && row.status == "active"@ && budget_reached(
            row.tokens_used as int,
            budget,
        ) {
            "budget_limited"@
        } else {
            row.status
        },
    }
}

/// A goal after a request to change it.
pub open spec fn updated_row(row: GoalRowView, update: GoalUpdate, now_ms: i64) -> GoalRowView {
    GoalRowView {
        objective: match update.objective {
            Some(objective) => objective@,
            None => row.objective,
        },
        status: requested_status(row, update),
        token_budget: match update.token_budget {
            Some(budget) => budget,
            None => row.token_budget,
        },
        updated_at_ms: now_ms,
        ..row
    }
}

/// What a request does to a goal.
pub open spec fn goal_after_update(row: GoalRowView, update: GoalUpdate, now_ms: i64) -> (
    GoalRowView,
    GoalChange,
) {
    if !is_expected(row, opt_text(update.expected_goal_id)) {
        (row, GoalChange::OtherGoal)
    } else if changes_nothing(update) {
        (row, GoalChange::Unchanged)
    } else {
        (updated_row(row, update, now_ms), GoalChange::Changed)
    }
}

/// Changes a stored goal on request.
pub fn update_thread_goal(row: &mut GoalRow, update: &GoalUpdate, now: Timestamp) -> (r: GoalChange)
    ensures
        (final(row)@, r) == goal_after_update(old(row)@, *update, millis_of(now@) as i64),
{
    if let Some(expected) = &update.expected_goal_id {
        if !text::str_eq(row.goal_id.as_str(), expected.as_str()) {
            return GoalChange::OtherGoal;
        }
    }
    if update.objective.is_none() && update.status.is_none() && update.token_budget.is_none() {
        return GoalChange::Unchanged;
    }
    let ghost before = row@;
    let budget: Option<i64> = match update.token_budget {
        Some(budget) => budget,
        None => row.token_budget,
    };
    match update.status {
        Some(status) => {
            let held = text::str_eq(row.status.as_str(), "budget_limited") && (status
                == ThreadGoalStatus::Paused || status == ThreadGoalStatus::Blocked);
            if !held {
                let next = status_after_budget_limit(status, row.tokens_used, budget);
                row.status = text::owned(next.as_str());
            }
        },
        None => {
            let reached = match budget {
                Some(budget) => row.tokens_used >= budget,
                None => false,
            };
            if update.token_budget.is_some() && reached && text::str_eq(
                row.status.as_str(),
                "active",
            ) {
                row.status = text::owned("budget_limited");
            }
        },
    }
    if let Some(objective) = &update.objective {
        row.objective = objective.clone();
    }
    row.token_budget = budget;
    row.updated_at_ms = datetime_to_epoch_millis(now);
    assert(row@ =~= updated_row(before, *update, row.updated_at_ms));
    GoalChange::Changed
}

/// A goal can be stopped: it is active, or limited by its budget where the usage limit stops it.
pub open spec fn can_stop(row: GoalRowView, status: ThreadGoalStatus) -> bool {
    row.status == "active"@ || (status == ThreadGoalStatus::UsageLimited && row.status
        == "budget_limited"@)
}

/// Gives a stored goal that is active another status; says whether it did.
pub fn update_active_thread_goal_status(
    row: &mut GoalRow,
    status: ThreadGoalStatus,
    now: Timestamp,
) -> (r: bool)
    ensures
        r == can_stop(old(row)@, status),
        final(row)@ == if r {
            GoalRowView {
                status: status_key(status),
                updated_at_ms: millis_of(now@) as i64,
                ..old(row)@
            }
        } else {
            old(row)@
        },
{
    let active = text::str_eq(row.status.as_str(), "active");
    let limited = text::str_eq(row.status.as_str(), "budget_limited");
    if active || (status == ThreadGoalStatus::UsageLimited && limited) {
        row.status = text::owned(status.as_str());
        row.updated_at_ms = datetime_to_epoch_millis(now);
        true
    } else {
        false
    }
}

/// Pauses a goal that is active.
pub fn pause_active_thread_goal(row: &mut GoalRow, now: Timestamp) -> (r: bool)
    ensures
        r == can_stop(old(row)@, ThreadGoalStatus::Paused),
        final(row)@ == if r {
            GoalRowView {
                status: "paused"@,
                updated_at_ms: millis_of(now@) as i64,
                ..old(row)@
            }
        } else {
            old(row)@
        },
{
    update_active_thread_goal_status(row, ThreadGoalStatus::Paused, now)
}

/// Stops a goal at the usage limit, where it is active or limited by its budget.
pub fn usage_limit_active_thread_goal(row: &mut GoalRow, now: Timestamp) -> (r: bool)
    ensures
        r == can_stop(old(row)@, ThreadGoalStatus::UsageLimited),
        final(row)@ == if r {
            GoalRowView {
                status: "usage_limited"@,
                updated_at_ms: millis_of(now@) as i64,
                ..old(row)@
            }
        } else {
            old(row)@
        },
{
    update_active_thread_goal_status(row, ThreadGoalStatus::UsageLimited, now)
}

// ---------------------------------------------------------------------------------------------
// Usage
// ---------------------------------------------------------------------------------------------

/// Which goals usage is counted for.
#[derive(Debug, Clone, Copy, PartialEq, Eq, Structural)]
pub enum GoalAccountingMode {
    ActiveStatusOnly,
    ActiveOnly,
    ActiveOrComplete,
    ActiveOrStopped,
}

/// The goal is active or has stopped short of completion.
pub open spec fn active_or_stopped(status: Seq<char>) -> bool {
    status == "active"@ || status == "paused"@ || status == "blocked"@ || status
        == "usage_limited"@ || status == "budget_limited"@
}

/// Usage is counted for a goal of this status.
pub open spec fn counts(mode: GoalAccountingMode, status: Seq<char>) -> bool {
    match mode {
        GoalAccountingMode::ActiveStatusOnly => status == "active"@,
        GoalAccountingMode::ActiveOnly => status == "active"@ || status == "budget_limited"@,
        GoalAccountingMode::ActiveOrComplete => status == "active"@ || status
            == "budget_limited"@ || status == "complete"@,
        GoalAccountingMode::ActiveOrStopped => active_or_stopped(status),
    }
}

/// A goal of this status is limited when its budget is used up.
pub open spec fn limits(mode: GoalAccountingMode, status: Seq<char>) -> bool {
    match mode {
        GoalAccountingMode::ActiveOrStopped => active_or_stopped(status),
        _ => status == "active"@,
    }
}

/// The usage, which does not go back.
pub open spec fn forward(delta: int) -> int {
    if delta > 0 {
        delta
    } else {
        0
    }
}

/// What became of the usage of a goal.
#[derive(Debug, Clone, Copy, PartialEq, Eq, Structural)]
pub enum GoalAccounting {
    /// The usage was not counted.
    Unchanged,
    /// The usage was counted.
    Updated,
    /// A count would not fit; nothing was changed.
    OutOfRange,
}

/// A goal with usage counted for it.
pub open spec fn accounted_row(
    row: GoalRowView,
    time_delta: int,
    token_delta: int,
    mode: GoalAccountingMode,
    now_ms: i64,
) -> GoalRowView {
    GoalRowView {
        time_used_seconds: (row.time_used_seconds + time_delta) as i64,
        tokens_used: (row.tokens_used + token_delta) as i64,
        status: if limits(mode, row.status) && budget_reached(
            row.tokens_used + token_delta,
            row.token_budget,
        ) {
            "budget_limited"@
        } else {
            row.status
        },
        updated_at_ms: now_ms,
        ..row
    }
}

/// What usage does to a goal.
pub open spec fn goal_after_usage(
    row: GoalRowView,
    time_delta_seconds: int,
    token_delta: int,
    mode: GoalAccountingMode,
    expected_goal_id: Option<Seq<char>>,
    now_ms: i64,
) -> (GoalRowView, GoalAccounting) {
    let time_delta = forward(time_delta_seconds);
    let tokens = forward(token_delta);
    if time_delta == 0 && tokens == 0 {
        (row, GoalAccounting::Unchanged)
    } else if !counts(mode, row.status) || !is_expected(row, expected_goal_id) {
        (row, GoalAccounting::Unchanged)
    } else if row.time_used_seconds + time_delta > i64::MAX || row.tokens_used + tokens
        > i64::MAX {
        (row, GoalAccounting::OutOfRange)
    } else {
        (accounted_row(row, time_delta, tokens, mode, now_ms), GoalAccounting::Updated)
    }
}

fn is_active_or_stopped(status: &str) -> (r: bool)
    ensures
        r == active_or_stopped(status@),
{
    text::str_eq(status, "active") || text::str_eq(status, "paused") || text::str_eq(
        status,
        "blocked",
    ) || text::str_eq(status, "usage_limited") || text::str_eq(status, "budget_limited")
}

/// Counts usage for a stored goal.
pub fn account_thread_goal_usage(
    row: &mut GoalRow,
    time_delta_seconds: i64,
    token_delta: i64,
    mode: GoalAccountingMode,
    expected_goal_id: Option<&str>,
    now: Timestamp,
) -> (r: GoalAccounting)
    ensures
        (final(row)@, r) == goal_after_usage(
            old(row)@,
            time_delta_seconds as int,
            token_delta as int,
            mode,
            crate::json::opt_str(expected_goal_id),
            millis_of(now@) as i64,
        ),
{
    let time_delta: i64 = if time_delta_seconds > 0 {
        time_delta_seconds
    } else {
        0
    };
    let tokens: i64 = if token_delta > 0 {
        token_delta
    } else {
        0
    };
    if time_delta == 0 && tokens == 0 {
        return GoalAccounting::Unchanged;
    }
    let status = row.status.as_str();
    let active = text::str_eq(status, "active");
    let limited = text::str_eq(status, "budget_limited");
    let stopped = is_active_or_stopped(status);
    let counted = match mode {
        GoalAccountingMode::ActiveStatusOnly => active,
        GoalAccountingMode::ActiveOnly => active || limited,
        GoalAccountingMode::ActiveOrComplete => active || limited || text::str_eq(
            status,
            "complete",
        ),
        GoalAccountingMode::ActiveOrStopped => stopped,
    };
    let meant = match expected_goal_id {
        Some(expected) => text::str_eq(row.goal_id.as_str(), expected),
        None => true,
    };
    if !counted || !meant {
        return GoalAccounting::Unchanged;
    }
    let time_used: i64 = match row.time_used_seconds.checked_add(time_delta) {
        Some(n) => n,
        None => return GoalAccounting::OutOfRange,
    };
    let tokens_used: i64 = match row.tokens_used.checked_add(tokens) {
        Some(n) => n,
        None => return GoalAccounting::OutOfRange,
    };
    let may_limit = match mode {
        GoalAccountingMode::ActiveOrStopped => stopped,
        _ => active,
    };
    let reached = match row.token_budget {
        Some(budget) => tokens_used >= budget,
        None => false,
    };
    if may_limit && reached {
        row.status = text::owned("budget_limited");
    }
    row.time_used_seconds = time_used;
    row.tokens_used = tokens_used;
    row.updated_at_ms = datetime_to_epoch_millis(now);
    GoalAccounting::Updated
}

// ---------------------------------------------------------------------------------------------
// Goals of other threads and for clients
// ---------------------------------------------------------------------------------------------

/// The goal that a thread takes over from the one it was forked from, where that has one whose
/// objective is in order.
pub fn inherit_thread_goal_snapshot(
    source_goal: Option<ThreadGoal>,
    objective_is_valid: bool,
    target_thread_id: ThreadId,
) -> (r: Option<ThreadGoal>)
    ensures
        opt_goal(r) == if source_goal is Some && objective_is_valid {
            Some(GoalView { thread_id: target_thread_id@, ..source_goal->0@ })
        } else {
            None
        },
{
    match source_goal {
        Some(goal) => {
            if !objective_is_valid {
                return None;
            }
            let mut goal = goal;
            goal.thread_id = target_thread_id;
            Some(goal)
        },
        None => None,
    }
}

/// A goal as clients see it, with its instants in seconds.
#[derive(Debug, PartialEq, Eq)]
pub struct ApiThreadGoal {
    pub thread_id: String,
    pub objective: String,
    pub status: ThreadGoalStatus,
    pub token_budget: Option<i64>,
    pub tokens_used: i64,
    pub time_used_seconds: i64,
    pub created_at: i64,
    pub updated_at: i64,
}

/// A goal as clients see it.
pub fn api_thread_goal_from_state(goal: ThreadGoal) -> (r: ApiThreadGoal)
    ensures
        r.thread_id@ == goal@.thread_id,
        r.objective@ == goal@.objective,
        r.status == goal@.status,
        r.token_budget == goal@.token_budget,
        r.tokens_used == goal@.tokens_used,
        r.time_used_seconds == goal@.time_used_seconds,
        r.created_at == goal@.created_at.seconds,
        r.updated_at == goal@.updated_at.seconds,
{
    ApiThreadGoal {
        created_at: goal.created_at.seconds(),
        updated_at: goal.updated_at.seconds(),
        thread_id: text::owned(goal.thread_id.as_str()),
        objective: goal.objective,
        status: goal.status,
        token_budget: goal.token_budget,
        tokens_used: goal.tokens_used,
        time_used_seconds: goal.time_used_seconds,
    }
}

// ---------------------------------------------------------------------------------------------
// Laws
// ---------------------------------------------------------------------------------------------

/// Every status comes back from the name under which it is stored, and no other name is a
/// status.
pub proof fn status_keys_come_back(status: ThreadGoalStatus, key: Seq<char>)
    ensures
        status_of_key(status_key(status)) == Some(status),
        status_of_key(key) matches Some(s) ==> status_key(s) == key,
{
    reveal_strlit("active");
    reveal_strlit("paused");
    reveal_strlit("blocked");
    reveal_strlit("usage_limited");
    reveal_strlit("budget_limited");
    reveal_strlit("complete");
    assert("active"@.len() == 6 && "paused"@.len() == 6 && "blocked"@.len() == 7
        && "usage_limited"@.len() == 13 && "budget_limited"@.len() == 14 && "complete"@.len()
        == 8);
    assert("active"@[0] != "paused"@[0]);
}

/// A goal that is stored as it is comes back the same, where its instants are whole milliseconds
/// from the year 2020 on.
pub proof fn stored_goals_come_back(goal: GoalView)
    requires
        is_thread_id(goal.thread_id),
        crate::time::is_time(goal.created_at.seconds, goal.created_at.nanos),
        crate::time::is_time(goal.updated_at.seconds, goal.updated_at.nanos),
        goal.created_at.nanos < 1_000_000_000 && goal.created_at.nanos % 1_000_000 == 0,
        goal.updated_at.nanos < 1_000_000_000 && goal.updated_at.nanos % 1_000_000 == 0,
        millis_of(goal.created_at) >= crate::time::MIN_EPOCH_MILLIS,
        millis_of(goal.updated_at) >= crate::time::MIN_EPOCH_MILLIS,
    ensures
        goal_of_row(row_of_goal(goal)) == Some(goal),
{
    status_keys_come_back(goal.status, status_key(goal.status));
    crate::time::stored_instants_come_back(goal.created_at);
    crate::time::stored_instants_come_back(goal.updated_at);
    assert(goal_of_row(row_of_goal(goal))->0 =~= goal);
}

/// A goal that its budget limits stays limited when it is asked to pause or to block.
pub proof fn limited_goals_stay_limited(row: GoalRowView, update: GoalUpdate, now_ms: i64)
    requires
        row.status == "budget_limited"@,
        update.status == Some(ThreadGoalStatus::Paused) || update.status == Some(
            ThreadGoalStatus::Blocked,
        ),
    ensures
        goal_after_update(row, update, now_ms).0.status == "budget_limited"@,
{
}

/// No request leaves a goal active whose budget is used up, unless it was so before and neither
/// status nor budget was asked to change.
pub proof fn no_goal_is_active_beyond_its_budget(row: GoalRowView, update: GoalUpdate, now_ms: i64)
    requires
        goal_after_update(row, update, now_ms).1 == GoalChange::Changed,
        update.status is Some || update.token_budget is Some,
    ensures
        ({
            let after = goal_after_update(row, update, now_ms).0;
            after.status == "active"@ ==> !budget_reached(
                after.tokens_used as int,
                after.token_budget,
            )
        }),
{
    reveal_strlit("active");
    reveal_strlit("paused");
    reveal_strlit("blocked");
    reveal_strlit("usage_limited");
    reveal_strlit("budget_limited");
    reveal_strlit("complete");
    assert("active"@.len() == 6 && "paused"@.len() == 6 && "blocked"@.len() == 7
        && "usage_limited"@.len() == 13 && "budget_limited"@.len() == 14 && "complete"@.len()
        == 8);
    assert("active"@[0] != "paused"@[0]);
}

/// Counting usage never lowers a count, changes no goal but in its counts, its status and the
/// instant of its change, and leaves no goal active whose budget is used up.
pub proof fn usage_only_grows(
    row: GoalRowView,
    time_delta_seconds: int,
    token_delta: int,
    mode: GoalAccountingMode,
    expected_goal_id: Option<Seq<char>>,
    now_ms: i64,
)
    ensures
        ({
            let (after, outcome) = goal_after_usage(
                row,
                time_delta_seconds,
                token_delta,
                mode,
                expected_goal_id,
                now_ms,
            );
            &&& after.tokens_used >= row.tokens_used
            &&& after.time_used_seconds >= row.time_used_seconds
            &&& after.goal_id == row.goal_id && after.objective == row.objective
                && after.token_budget == row.token_budget && after.thread_id == row.thread_id
                && after.created_at_ms == row.created_at_ms
            &&& after.status == row.status || after.status == "budget_limited"@
            &&& outcome == GoalAccounting::Updated && after.status == "active"@
                ==> !budget_reached(after.tokens_used as int, after.token_budget)
            &&& outcome != GoalAccounting::Updated ==> after == row
        }),
{
    reveal_strlit("active");
    reveal_strlit("budget_limited");
    assert("active"@.len() == 6 && "budget_limited"@.len() == 14);
}

proof fn lemma_status_names()
    ensures
        "active"@ != "paused"@ && "active"@ != "blocked"@ && "active"@ != "usage_limited"@
            && "active"@ != "budget_limited"@ && "active"@ != "complete"@,
        "paused"@ != "blocked"@ && "paused"@ != "usage_limited"@ && "paused"@ != "budget_limited"@
            && "paused"@ != "complete"@,
        "blocked"@ != "usage_limited"@ && "blocked"@ != "budget_limited"@ && "blocked"@
            != "complete"@,
        "usage_limited"@ != "budget_limited"@ && "usage_limited"@ != "complete"@,
        "budget_limited"@ != "complete"@,
{
    reveal_strlit("active");
    reveal_strlit("paused");
    reveal_strlit("blocked");
    reveal_strlit("usage_limited");
    reveal_strlit("budget_limited");
    reveal_strlit("complete");
    assert("active"@.len() == 6 && "paused"@.len() == 6 && "blocked"@.len() == 7
        && "usage_limited"@.len() == 13 && "budget_limited"@.len() == 14 && "complete"@.len()
        == 8);
    assert("active"@[0] != "paused"@[0]);
}

/// A status is stored under its own name in lower case.
pub proof fn statuses_have_their_names()
    ensures
        status_key(ThreadGoalStatus::Active) == "active"@,
        status_key(ThreadGoalStatus::Paused) == "paused"@,
        status_key(ThreadGoalStatus::Blocked) == "blocked"@,
        status_key(ThreadGoalStatus::UsageLimited) == "usage_limited"@,
        status_key(ThreadGoalStatus::BudgetLimited) == "budget_limited"@,
        status_key(ThreadGoalStatus::Complete) == "complete"@,
{
}

/// A request for a status is granted, whatever the goal's status was: the goal has that status
/// afterwards. There are two exceptions. A goal that its budget limits is not paused or blocked,
/// and one that is to be active with its budget used up is limited by it. The budget is the one
/// that the request sets, where it sets one.
pub proof fn requested_statuses_are_granted(row: GoalRowView, update: GoalUpdate, now_ms: i64)
    requires
        update.expected_goal_id matches Some(id) ==> id@ == row.goal_id,
    ensures
        ({
            let (after, change) = goal_after_update(row, update, now_ms);
            let budget = if update.token_budget is Some {
                update.token_budget->0
            } else {
                row.token_budget
            };
            let used_up = budget is Some && row.tokens_used >= budget->0;
            let held = row.status == "budget_limited"@;
            &&& update.status is Some ==> change == GoalChange::Changed
            &&& update.status == Some(ThreadGoalStatus::Active) ==> after.status == (if used_up {
                "budget_limited"@
            } else {
                "active"@
            })
            &&& update.status == Some(ThreadGoalStatus::Paused) ==> after.status == (if held {
                "budget_limited"@
            } else {
                "paused"@
            })
            &&& update.status == Some(ThreadGoalStatus::Blocked) ==> after.status == (if held {
                "budget_limited"@
            } else {
                "blocked"@
            })
            &&& update.status == Some(ThreadGoalStatus::UsageLimited) ==> after.status
                == "usage_limited"@
            &&& update.status == Some(ThreadGoalStatus::BudgetLimited) ==> after.status
                == "budget_limited"@
            &&& update.status == Some(ThreadGoalStatus::Complete) ==> after.status == "complete"@
        }),
{
    lemma_status_names();
}

/// A request that names no status leaves the goal's status, except that an active goal whose new
/// budget is used up is limited by it.
pub proof fn statuses_that_are_not_named_stay(row: GoalRowView, update: GoalUpdate, now_ms: i64)
    requires
        update.status is None,
    ensures
        ({
            let (after, _) = goal_after_update(row, update, now_ms);
            let meant = update.expected_goal_id is None || update.expected_goal_id->0@
                == row.goal_id;
            let limited = meant && row.status == "active"@ && update.token_budget is Some
                && update.token_budget->0 is Some && row.tokens_used >= update.token_budget->0->0;
            after.status == if limited {
                "budget_limited"@
            } else {
                row.status
            }
        }),
{
    lemma_status_names();
}

/// A request changes the goal that it is meant for and no other, and of that goal what it names
/// and nothing else: what it does not name stays, the usage, the goal's name and its beginning
/// stay in any case, and the instant of the change is kept. A request that names nothing changes
/// nothing.
pub proof fn requests_change_what_they_name(row: GoalRowView, update: GoalUpdate, now_ms: i64)
    ensures
        ({
            let (after, change) = goal_after_update(row, update, now_ms);
            let meant = update.expected_goal_id is None || update.expected_goal_id->0@
                == row.goal_id;
            let named = update.objective is Some || update.status is Some || update.token_budget
                is Some;
            &&& change == GoalChange::OtherGoal <==> !meant
            &&& change == GoalChange::Unchanged <==> meant && !named
            &&& change == GoalChange::Changed <==> meant && named
            &&& !(meant && named) ==> after == row
            &&& meant && named ==> {
                &&& after.objective == (if update.objective is Some {
                    update.objective->0@
                } else {
                    row.objective
                })
                &&& after.token_budget == (if update.token_budget is Some {
                    update.token_budget->0
                } else {
                    row.token_budget
                })
                &&& after.updated_at_ms == now_ms
            }
            &&& after.thread_id == row.thread_id
            &&& after.goal_id == row.goal_id
            &&& after.tokens_used == row.tokens_used
            &&& after.time_used_seconds == row.time_used_seconds
            &&& after.created_at_ms == row.created_at_ms
        }),
{
}

/// A goal that was paused or blocked, or has met the usage limit, can be made active again, and
/// any goal can be completed; asking twice for the same is asking once.
pub proof fn stopped_goals_can_go_on(
    row: GoalRowView,
    stop: GoalUpdate,
    resume: GoalUpdate,
    now_ms: i64,
    later_ms: i64,
)
    requires
        stop.expected_goal_id is None && resume.expected_goal_id is None,
        stop.token_budget is None && resume.token_budget is None,
        row.token_budget is None || row.tokens_used < row.token_budget->0,
        stop.status == Some(ThreadGoalStatus::Paused) || stop.status == Some(
            ThreadGoalStatus::Blocked,
        ) || stop.status == Some(ThreadGoalStatus::UsageLimited),
        resume.status == Some(ThreadGoalStatus::Active) || resume.status == Some(
            ThreadGoalStatus::Complete,
        ),
    ensures
        ({
            let stopped = goal_after_update(row, stop, now_ms).0;
            let again = goal_after_update(stopped, resume, later_ms);
            &&& again.1 == GoalChange::Changed
            &&& again.0.status == (if resume.status == Some(ThreadGoalStatus::Active) {
                "active"@
            } else {
                "complete"@
            })
            &&& goal_after_update(again.0, resume, later_ms).0 == again.0
        }),
{
    lemma_status_names();
    let stopped = goal_after_update(row, stop, now_ms).0;
    let again = goal_after_update(stopped, resume, later_ms).0;
    assert(goal_after_update(again, resume, later_ms).0 =~= again);
}

/// A goal that is set has the objective, the budget and the thread that were asked for, has used
/// nothing, begins now, and has the status that was asked for, unless that is to be active with a
/// budget that allows nothing.
pub proof fn new_goals_are_what_was_asked_for(
    thread_id: Seq<char>,
    objective: Seq<char>,
    status: ThreadGoalStatus,
    token_budget: Option<i64>,
    now: TimeView,
)
    ensures
        ({
            let row = new_row(thread_id, objective, status, token_budget, now);
            &&& row.thread_id == thread_id
            &&& row.objective == objective
            &&& row.token_budget == token_budget
            &&& row.tokens_used == 0
            &&& row.time_used_seconds == 0
            &&& row.created_at_ms == row.updated_at_ms
            &&& row.created_at_ms == millis_of(now) as i64
            &&& row.goal_id == thread_id + ":"@ + decimal(stamp_nanos(now))
            &&& row.status == (match status {
                ThreadGoalStatus::Active => if token_budget is Some && token_budget->0 <= 0 {
                    "budget_limited"@
                } else {
                    "active"@
                },
                ThreadGoalStatus::Paused => "paused"@,
                ThreadGoalStatus::Blocked => "blocked"@,
                ThreadGoalStatus::UsageLimited => "usage_limited"@,
                ThreadGoalStatus::BudgetLimited => "budget_limited"@,
                ThreadGoalStatus::Complete => "complete"@,
            })
        }),
{
}

/// What is stored of a goal is the goal: each member under its own name, the instants in
/// milliseconds.
pub proof fn goals_are_stored_member_by_member(goal: GoalView)
    ensures
        ({
            let row = row_of_goal(goal);
            &&& row.thread_id == goal.thread_id
            &&& row.goal_id == goal.goal_id
            &&& row.objective == goal.objective
            &&& row.token_budget == goal.token_budget
            &&& row.tokens_used == goal.tokens_used
            &&& row.time_used_seconds == goal.time_used_seconds
            &&& row.created_at_ms == millis_of(goal.created_at) as i64
            &&& row.updated_at_ms == millis_of(goal.updated_at) as i64
            &&& goal_of_row(row) matches Some(read) ==> read.goal_id == goal.goal_id
                && read.objective == goal.objective && read.status == goal.status
                && read.token_budget == goal.token_budget && read.tokens_used == goal.tokens_used
                && read.time_used_seconds == goal.time_used_seconds
        }),
{
    status_keys_come_back(goal.status, status_key(goal.status));
}

/// A goal that is stored is read member by member, where its thread is one, its status has a name
/// and its instants are in range; otherwise it is not read.
pub proof fn stored_goals_are_read_member_by_member(row: GoalRowView)
    ensures
        match goal_of_row(row) {
            Some(goal) => {
                &&& parsed_uuid(row.thread_id) == Ok::<Seq<char>, Seq<char>>(goal.thread_id)
                &&& goal.goal_id == row.goal_id
                &&& goal.objective == row.objective
                &&& status_key(goal.status) == row.status
                &&& goal.token_budget == row.token_budget
                &&& goal.tokens_used == row.tokens_used
                &&& goal.time_used_seconds == row.time_used_seconds
                &&& stored_time(row.created_at_ms as int) == Some(goal.created_at)
                &&& stored_time(row.updated_at_ms as int) == Some(goal.updated_at)
            },
            None => {
                ||| parsed_uuid(row.thread_id) is Err
                ||| forall|s: ThreadGoalStatus| row.status != #[trigger] status_key(s)
                ||| stored_time(row.created_at_ms as int) is None
                ||| stored_time(row.updated_at_ms as int) is None
            },
        },
{
    if let Some(goal) = goal_of_row(row) {
        status_keys_come_back(goal.status, row.status);
    }
    assert forall|s: ThreadGoalStatus| row.status == #[trigger] status_key(s) implies status_of_key(
        row.status,
    ) == Some(s) by {
        status_keys_come_back(s, row.status);
    }
}

/// A goal is stopped while it is active, and at the usage limit also while its budget limits it;
/// no other goal is.
pub proof fn goals_are_stopped_while_active(row: GoalRowView)
    ensures
        can_stop(row, ThreadGoalStatus::Paused) <==> row.status == "active"@,
        can_stop(row, ThreadGoalStatus::Blocked) <==> row.status == "active"@,
        can_stop(row, ThreadGoalStatus::Complete) <==> row.status == "active"@,
        can_stop(row, ThreadGoalStatus::BudgetLimited) <==> row.status == "active"@,
        can_stop(row, ThreadGoalStatus::UsageLimited) <==> row.status == "active"@ || row.status
            == "budget_limited"@,
{
    lemma_status_names();
}

/// Usage is counted for the goal that is meant, where its status is among those that are counted:
/// what was used grows by what is reported, and by nothing where that is negative. A goal whose
/// budget is thereby used up is limited by it: an active one always, and one that was stopped
/// where those are counted too.
pub proof fn usage_is_counted_exactly(
    row: GoalRowView,
    time_delta_seconds: int,
    token_delta: int,
    mode: GoalAccountingMode,
    expected_goal_id: Option<Seq<char>>,
    now_ms: i64,
)
    ensures
        ({
            let (after, outcome) = goal_after_usage(
                row,
                time_delta_seconds,
                token_delta,
                mode,
                expected_goal_id,
                now_ms,
            );
            let status = row.status;
            let counted = match mode {
                GoalAccountingMode::ActiveStatusOnly => status == "active"@,
                GoalAccountingMode::ActiveOnly => status == "active"@ || status
                    == "budget_limited"@,
                GoalAccountingMode::ActiveOrComplete => status == "active"@ || status
                    == "budget_limited"@ || status == "complete"@,
                GoalAccountingMode::ActiveOrStopped => status == "active"@ || status
                    == "paused"@ || status == "blocked"@ || status == "usage_limited"@ || status
                    == "budget_limited"@,
            };
            let meant = expected_goal_id is None || expected_goal_id->0 == row.goal_id;
            let wanted = (time_delta_seconds > 0 || token_delta > 0) && counted && meant;
            let tokens = row.tokens_used + if token_delta > 0 {
                token_delta
            } else {
                0
            };
            let time = row.time_used_seconds + if time_delta_seconds > 0 {
                time_delta_seconds
            } else {
                0
            };
            let fits = tokens <= i64::MAX && time <= i64::MAX;
            &&& outcome == GoalAccounting::Updated <==> wanted && fits
            &&& outcome == GoalAccounting::OutOfRange <==> wanted && !fits
            &&& outcome == GoalAccounting::Unchanged <==> !wanted
            &&& wanted && fits ==> {
                &&& after.tokens_used == tokens
                &&& after.time_used_seconds == time
                &&& after.updated_at_ms == now_ms
                &&& after.status == (if row.token_budget is Some && tokens >= row.token_budget->0
                    && (status == "active"@ || mode == GoalAccountingMode::ActiveOrStopped) {
                    "budget_limited"@
                } else {
                    status
                })
            }
            &&& !(wanted && fits) ==> after == row
        }),
{
    lemma_status_names();
}

/// Counting usage in two parts is counting it at once, as long as the goal's status is not changed
/// by the first part.
pub proof fn usage_adds_up(
    row: GoalRowView,
    first: int,
    second: int,
    mode: GoalAccountingMode,
    now_ms: i64,
)
    requires
        first > 0,
        second > 0,
        goal_after_usage(row, 0, first, mode, None, now_ms).1 == GoalAccounting::Updated,
        goal_after_usage(row, 0, first, mode, None, now_ms).0.status == row.status,
    ensures
        ({
            let once = goal_after_usage(row, 0, first + second, mode, None, now_ms);
            let half = goal_after_usage(row, 0, first, mode, None, now_ms).0;
            let twice = goal_after_usage(half, 0, second, mode, None, now_ms);
            &&& once.1 == twice.1
            &&& once.1 == GoalAccounting::Updated ==> once.0 == twice.0
        }),
{
    lemma_status_names();
}

} // verus!
