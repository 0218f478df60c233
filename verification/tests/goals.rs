use codex_remote::goal_flow::{FlowEvent, FlowStep, GoalFlow, GoalRequestKind, RolloutSearch};
use codex_remote::goal_requests::{
    begin_goal_request, goal_persist_plan, goal_service_error, goal_set_request,
    goal_storage_for_live_thread, live_thread_goal_storage_preference,
    parse_thread_id_for_request, rollout_needs_reconcile, thread_store_goal_error, GoalAccess,
    GoalObjectiveUpdate, GoalServiceError, GoalStorage, GoalStorageLookup, GoalStores,
    GoalTokenBudgetUpdate, KnownRollout, LiveThread, LiveThreadGoalStoragePreference,
    LookupAction, LookupEvent, PersistPlan, RequestError, RolloutRecord, ThreadGoalSetParams,
};
use codex_remote::goals::{
    account_thread_goal_usage, api_thread_goal_from_state, inherit_thread_goal_snapshot,
    insert_thread_goal, new_goal_id, pause_active_thread_goal, replace_thread_goal,
    replace_thread_goal_snapshot, status_after_budget_limit, thread_goal_from_row,
    update_active_thread_goal_status, update_thread_goal, usage_limit_active_thread_goal,
    GoalAccounting, GoalAccountingMode, GoalChange, GoalRow, GoalRowError, GoalUpdate,
    ThreadGoalStatus,
};
use codex_remote::store_error::ThreadStoreError;
use codex_remote::thread_id::ThreadId;
use codex_remote::time::{
    datetime_to_epoch_millis, epoch_millis_to_datetime, timestamp_nanos, Timestamp,
};

const THREAD: &str = "00000000-0000-0000-0000-00000000007b";
const START: i64 = 1_700_000_000;

fn thread_id() -> ThreadId {
    ThreadId::from_string(THREAD).expect("thread id")
}

fn at(seconds: i64) -> Timestamp {
    Timestamp::from_parts(seconds, 0).expect("instant")
}

fn goal(budget: Option<i64>) -> GoalRow {
    replace_thread_goal(
        &thread_id(),
        "win".to_string(),
        ThreadGoalStatus::Active,
        budget,
        at(START),
    )
}

fn update() -> GoalUpdate {
    GoalUpdate {
        objective: None,
        status: None,
        token_budget: None,
        expected_goal_id: None,
    }
}

#[test]
fn postgres_mode_prefers_postgres_over_local_state_db() {
    assert_eq!(
        live_thread_goal_storage_preference(/*postgres*/ true, /*has_state_db*/ true),
        Some(LiveThreadGoalStoragePreference::Postgres)
    );
}

#[test]
fn local_mode_uses_local_state_db_when_available() {
    assert_eq!(
        live_thread_goal_storage_preference(/*postgres*/ false, /*has_state_db*/ true),
        Some(LiveThreadGoalStoragePreference::Local)
    );
}

#[test]
fn local_mode_without_state_db_has_no_live_goal_store() {
    assert_eq!(live_thread_goal_storage_preference(false, false), None);
}

#[test]
fn ids_of_goals_tell_thread_and_instant() {
    assert_eq!(
        new_goal_id(&thread_id(), at(START)),
        format!("{THREAD}:1700000000000000000")
    );
    assert_eq!(timestamp_nanos(at(START)), 1_700_000_000_000_000_000);
}

#[test]
fn goals_are_stored_and_read_back() {
    let row = goal(Some(100));
    assert_eq!(row.status, "active");
    assert_eq!(row.created_at_ms, START * 1000);
    let goal = thread_goal_from_row(goal(Some(100))).expect("goal");
    assert_eq!(goal.status, ThreadGoalStatus::Active);
    assert_eq!(goal.created_at, at(START));
    assert_eq!(replace_thread_goal_snapshot(goal), row);
}

#[test]
fn unreadable_rows_are_refused() {
    let mut row = goal(None);
    row.thread_id = "nonsense".to_string();
    assert!(matches!(
        thread_goal_from_row(row),
        Err(GoalRowError::InvalidThreadId(_))
    ));
    let mut row = goal(None);
    row.status = "odd".to_string();
    assert!(matches!(
        thread_goal_from_row(row),
        Err(GoalRowError::UnknownStatus(_))
    ));
    let mut row = goal(None);
    row.created_at_ms = i64::MAX;
    assert!(matches!(
        thread_goal_from_row(row),
        Err(GoalRowError::InvalidTime(_))
    ));
}

#[test]
fn spent_budget_limits_a_goal() {
    assert_eq!(
        status_after_budget_limit(ThreadGoalStatus::Active, 100, Some(100)),
        ThreadGoalStatus::BudgetLimited
    );
    assert_eq!(
        status_after_budget_limit(ThreadGoalStatus::Active, 99, Some(100)),
        ThreadGoalStatus::Active
    );
    assert_eq!(
        status_after_budget_limit(ThreadGoalStatus::Paused, 100, Some(100)),
        ThreadGoalStatus::Paused
    );
}

#[test]
fn open_goals_are_not_replaced_by_inserting() {
    let open = goal(None);
    let insert = |existing: Option<&GoalRow>| {
        insert_thread_goal(
            existing,
            &thread_id(),
            "next".to_string(),
            ThreadGoalStatus::Active,
            None,
            at(START + 1),
        )
    };
    assert!(insert(Some(&open)).is_none());
    let mut done = goal(None);
    done.status = "complete".to_string();
    assert_eq!(insert(Some(&done)).expect("row").objective, "next");
    assert_eq!(insert(None).expect("row").objective, "next");
}

#[test]
fn updates_need_the_expected_goal() {
    let mut row = goal(None);
    let other = GoalUpdate {
        expected_goal_id: Some("other".to_string()),
        objective: Some("x".to_string()),
        ..update()
    };
    assert_eq!(
        update_thread_goal(&mut row, &other, at(START + 1)),
        GoalChange::OtherGoal
    );
    assert_eq!(row, goal(None));
    assert_eq!(
        update_thread_goal(&mut row, &update(), at(START + 1)),
        GoalChange::Unchanged
    );
    let change = GoalUpdate {
        objective: Some("x".to_string()),
        token_budget: Some(Some(5)),
        ..update()
    };
    assert_eq!(
        update_thread_goal(&mut row, &change, at(START + 1)),
        GoalChange::Changed
    );
    assert_eq!(row.objective, "x");
    assert_eq!(row.token_budget, Some(5));
    assert_eq!(row.updated_at_ms, (START + 1) * 1000);
}

#[test]
fn limited_goals_stay_limited_when_paused() {
    let mut row = goal(Some(10));
    row.status = "budget_limited".to_string();
    let pause = GoalUpdate {
        status: Some(ThreadGoalStatus::Paused),
        ..update()
    };
    update_thread_goal(&mut row, &pause, at(START + 1));
    assert_eq!(row.status, "budget_limited");
}

#[test]
fn active_goals_are_stopped() {
    let mut row = goal(None);
    assert!(pause_active_thread_goal(&mut row, at(START + 1)));
    assert_eq!(row.status, "paused");
    assert!(!pause_active_thread_goal(&mut row, at(START + 2)));
    let mut row = goal(None);
    row.status = "budget_limited".to_string();
    assert!(usage_limit_active_thread_goal(&mut row, at(START + 1)));
    assert_eq!(row.status, "usage_limited");
    let mut row = goal(None);
    assert!(update_active_thread_goal_status(
        &mut row,
        ThreadGoalStatus::Blocked,
        at(START + 1)
    ));
    assert_eq!(row.status, "blocked");
}

#[test]
fn usage_is_accounted() {
    let mut row = goal(Some(10));
    let account = |row: &mut GoalRow, tokens: i64, mode: GoalAccountingMode| {
        account_thread_goal_usage(row, 3, tokens, mode, None, at(START + 1))
    };
    assert_eq!(
        account(&mut row, 4, GoalAccountingMode::ActiveOnly),
        GoalAccounting::Updated
    );
    assert_eq!((row.tokens_used, row.time_used_seconds), (4, 3));
    assert_eq!(row.status, "active");
    assert_eq!(
        account(&mut row, 6, GoalAccountingMode::ActiveOnly),
        GoalAccounting::Updated
    );
    assert_eq!(row.status, "budget_limited");
    assert_eq!(
        account(&mut row, 1, GoalAccountingMode::ActiveStatusOnly),
        GoalAccounting::Unchanged
    );
    assert_eq!(
        account(&mut row, i64::MAX, GoalAccountingMode::ActiveOrStopped),
        GoalAccounting::OutOfRange
    );
    assert_eq!(row.tokens_used, 10);
    row.status = "complete".to_string();
    assert_eq!(
        account(&mut row, 1, GoalAccountingMode::ActiveOrComplete),
        GoalAccounting::Updated
    );
    assert_eq!(
        account_thread_goal_usage(
            &mut row,
            1,
            1,
            GoalAccountingMode::ActiveOrComplete,
            Some("other"),
            at(START + 2)
        ),
        GoalAccounting::Unchanged
    );
}

#[test]
fn forks_inherit_goals() {
    let target = "00000000-0000-0000-0000-0000000000ff";
    let inherited = inherit_thread_goal_snapshot(
        Some(thread_goal_from_row(goal(Some(5))).expect("goal")),
        true,
        ThreadId::from_string(target).expect("thread id"),
    )
    .expect("goal");
    assert_eq!(inherited.thread_id.as_str(), target);
    assert_eq!(inherited.objective, "win");
    assert!(inherit_thread_goal_snapshot(None, true, thread_id()).is_none());
    let api = api_thread_goal_from_state(inherited);
    assert_eq!(api.thread_id, target);
    assert_eq!(api.created_at, START);
}

#[test]
fn errors_of_stores_are_told() {
    assert_eq!(
        thread_store_goal_error(ThreadStoreError::ThreadNotFound {
            thread_id: thread_id()
        }),
        RequestError::InvalidRequest(format!("thread not found: {THREAD}"))
    );
    assert_eq!(
        thread_store_goal_error(ThreadStoreError::Unsupported {
            operation: "x".to_string()
        }),
        RequestError::Internal("thread store does not support x for goals".to_string())
    );
    assert_eq!(
        thread_store_goal_error(ThreadStoreError::InvalidRequest {
            message: "m".to_string()
        }),
        RequestError::Internal("m".to_string())
    );
    assert_eq!(
        goal_service_error(GoalServiceError::Internal("m".to_string())),
        RequestError::Internal("m".to_string())
    );
    assert_eq!(
        goal_service_error(GoalServiceError::InvalidRequest("m".to_string())),
        RequestError::InvalidRequest("m".to_string())
    );
}

#[test]
fn requests_name_a_thread() {
    assert_eq!(parse_thread_id_for_request(THREAD), Ok(thread_id()));
    assert!(matches!(
        parse_thread_id_for_request("nonsense"),
        Err(RequestError::InvalidRequest(message)) if message.starts_with("invalid thread id: ")
    ));
    assert_eq!(
        begin_goal_request(false, THREAD),
        Err(RequestError::InvalidRequest(
            "goals feature is disabled".to_string()
        ))
    );
    assert_eq!(begin_goal_request(true, THREAD), Ok(thread_id()));
}

fn stores(postgres: bool) -> GoalStores {
    GoalStores {
        postgres,
        has_goal_store: true,
        has_state_db: true,
    }
}

#[test]
fn live_threads_use_their_store() {
    assert_eq!(
        goal_storage_for_live_thread(stores(true), true),
        Some(GoalStorage::Postgres)
    );
    assert_eq!(
        goal_storage_for_live_thread(stores(false), true),
        Some(GoalStorage::ThreadState)
    );
    assert_eq!(
        goal_storage_for_live_thread(stores(false), false),
        None
    );
    assert!(!GoalStorage::Postgres.reconciles_local_rollout());
    assert!(GoalStorage::ServerState.reconciles_local_rollout());
}

#[test]
fn lookup_ends_with_a_store() {
    let (lookup, action) = GoalStorageLookup::begin(thread_id(), GoalAccess::Mutate, stores(true));
    assert_eq!(action, LookupAction::FindLiveThread);
    assert_eq!(
        lookup.next(LookupEvent::NotLive),
        LookupAction::ReadStoredThread {
            include_history: true
        }
    );
    assert_eq!(
        lookup.next(LookupEvent::StoredThread {
            is_thread_spawn: true,
            accepts_direct_input: false
        }),
        LookupAction::RefuseDirectInput
    );
    assert_eq!(
        lookup.next(LookupEvent::StoredThread {
            is_thread_spawn: false,
            accepts_direct_input: false
        }),
        LookupAction::Found(GoalStorage::Postgres)
    );
    assert_eq!(
        lookup.next(LookupEvent::Live(LiveThread {
            has_rollout_path: true,
            has_state_db: true
        })),
        LookupAction::CheckDirectInput
    );
}

#[test]
fn lookup_in_local_mode_reads_the_rollout() {
    let (lookup, _) = GoalStorageLookup::begin(thread_id(), GoalAccess::Read, stores(false));
    assert_eq!(
        lookup.next(LookupEvent::NotLive),
        LookupAction::FindRollout
    );
    assert_eq!(
        lookup.next(LookupEvent::RolloutPath { found: false }),
        LookupAction::Fail(RequestError::InvalidRequest(format!(
            "thread not found: {THREAD}"
        )))
    );
    assert_eq!(
        lookup.next(LookupEvent::RolloutPath { found: true }),
        LookupAction::Found(GoalStorage::ServerState)
    );
    assert_eq!(
        lookup.next(LookupEvent::RolloutPathFailed("io".to_string())),
        LookupAction::Fail(RequestError::Internal(format!(
            "failed to locate thread id {THREAD}: io"
        )))
    );
    assert_eq!(
        lookup.next(LookupEvent::RolloutUnreadable("io".to_string())),
        LookupAction::Fail(RequestError::Internal(
            "failed to read thread ownership: io".to_string()
        ))
    );
    let other = ThreadId::from_string("00000000-0000-0000-0000-0000000000ff").expect("thread id");
    assert_eq!(
        lookup.next(LookupEvent::SessionMeta {
            thread_id: other,
            is_thread_spawn: false
        }),
        LookupAction::Fail(RequestError::InvalidRequest(
            "thread metadata does not match requested id".to_string()
        ))
    );
    assert_eq!(
        lookup.next(LookupEvent::Live(LiveThread {
            has_rollout_path: false,
            has_state_db: true
        })),
        LookupAction::Fail(RequestError::InvalidRequest(format!(
            "ephemeral thread does not support goals: {THREAD}"
        )))
    );
}

#[test]
fn missing_stores_are_told() {
    let none = GoalStores {
        postgres: true,
        has_goal_store: false,
        has_state_db: false,
    };
    let (lookup, _) = GoalStorageLookup::begin(thread_id(), GoalAccess::Read, none);
    assert_eq!(
        lookup.next(LookupEvent::StoredThread {
            is_thread_spawn: false,
            accepts_direct_input: true
        }),
        LookupAction::Fail(RequestError::Internal(format!(
            "postgres goal store unavailable for thread goals: {THREAD}"
        )))
    );
    let none = GoalStores {
        postgres: false,
        ..none
    };
    let (lookup, _) = GoalStorageLookup::begin(thread_id(), GoalAccess::Read, none);
    assert_eq!(
        lookup.next(LookupEvent::RolloutPath { found: true }),
        LookupAction::Fail(RequestError::Internal(
            "sqlite state db unavailable for thread goals".to_string()
        ))
    );
}

#[test]
fn requests_to_set_a_goal_keep_what_they_do_not_name() {
    let request = goal_set_request(
        thread_id(),
        ThreadGoalSetParams {
            objective: Some("win".to_string()),
            status: None,
            token_budget: Some(None),
        },
        Some(Some(7)),
        Some(9),
    );
    assert_eq!(
        request.objective,
        GoalObjectiveUpdate::Replace("win".to_string())
    );
    assert_eq!(request.token_budget, GoalTokenBudgetUpdate::Replace(None));
    assert_eq!(request.max_goal_token_budget, Some(7));
    let request = goal_set_request(
        thread_id(),
        ThreadGoalSetParams {
            objective: None,
            status: Some(ThreadGoalStatus::Paused),
            token_budget: None,
        },
        None,
        Some(9),
    );
    assert_eq!(request.objective, GoalObjectiveUpdate::Keep);
    assert_eq!(request.token_budget, GoalTokenBudgetUpdate::Keep);
    assert_eq!(request.max_goal_token_budget, Some(9));
}

#[test]
fn goals_are_recorded_where_threads_are() {
    assert_eq!(
        goal_persist_plan(Some(RolloutRecord::Missing), GoalStorage::Postgres),
        PersistPlan::SettingsAndGoal
    );
    assert_eq!(
        goal_persist_plan(Some(RolloutRecord::Present), GoalStorage::Postgres),
        PersistPlan::Goal
    );
    assert_eq!(
        goal_persist_plan(None, GoalStorage::Postgres),
        PersistPlan::AppendToStore
    );
    assert_eq!(
        goal_persist_plan(None, GoalStorage::ServerState),
        PersistPlan::Nothing
    );
}

#[test]
fn rollouts_are_reconciled_once() {
    assert!(rollout_needs_reconcile(None, &thread_id()));
    assert!(!rollout_needs_reconcile(
        Some(KnownRollout {
            same_path: true,
            recorded_thread_id: Some(thread_id()),
        }),
        &thread_id()
    ));
    assert!(rollout_needs_reconcile(
        Some(KnownRollout {
            same_path: false,
            recorded_thread_id: Some(thread_id()),
        }),
        &thread_id()
    ));
}

#[test]
fn ids_of_threads_are_uuids() {
    assert_eq!(
        ThreadId::from_string("{00000000-0000-0000-0000-00000000007B}")
            .expect("thread id")
            .as_str(),
        THREAD
    );
    assert!(ThreadId::from_string("123").is_err());
    assert!(thread_id().same_as(&thread_id().duplicate()));
}

#[test]
fn instants_are_written_and_read() {
    let instant = Timestamp::from_parts(START, 120_000_000).expect("instant");
    let text = instant.text();
    assert_eq!(Timestamp::parse(&text), Some(instant));
    assert_eq!(
        Timestamp::parse("2023-11-14T22:13:20Z"),
        Timestamp::from_parts(START, 0)
    );
    assert_eq!(
        Timestamp::parse("2023-11-15T00:13:20+02:00"),
        Timestamp::from_parts(START, 0)
    );
    assert_eq!(Timestamp::parse("yesterday"), None);
    assert!(instant.is_after(&at(START)));
    assert_eq!((instant.seconds(), instant.nanos()), (START, 120_000_000));
    assert_eq!(Timestamp::from_parts(0, 2_000_000_000), None);
}

#[test]
fn milliseconds_and_seconds_are_told_apart() {
    assert_eq!(datetime_to_epoch_millis(at(START)), START * 1000);
    assert_eq!(epoch_millis_to_datetime(START * 1000), Ok(at(START)));
    assert_eq!(epoch_millis_to_datetime(START), Ok(at(START)));
    assert!(epoch_millis_to_datetime(i64::MAX).is_err());
}

fn steps(kind: GoalRequestKind, events: Vec<FlowEvent>) -> GoalFlow {
    let mut flow = GoalFlow::start(thread_id(), kind);
    for event in events {
        flow = flow.advance(event);
    }
    flow
}

#[test]
fn remote_goals_are_set_without_a_record() {
    let flow = steps(
        GoalRequestKind::Change,
        vec![
            FlowEvent::StorageFound(GoalStorage::Postgres),
            FlowEvent::GoalSet(None),
        ],
    );
    assert_eq!(flow.step, FlowStep::Persist(PersistPlan::AppendToStore));
    let flow = flow.advance(FlowEvent::Persisted {
        settings_changed: true,
    });
    assert_eq!(flow.step, FlowStep::Respond);
    let flow = flow.advance(FlowEvent::Responded);
    assert_eq!(flow.step, FlowStep::Announce);
    let flow = flow.advance(FlowEvent::Announced);
    assert_eq!(flow.step, FlowStep::ApplyEffects);
    assert_eq!(
        flow.advance(FlowEvent::EffectsApplied).step,
        FlowStep::Done
    );
}

#[test]
fn local_goals_are_set_in_line_with_the_record() {
    let found = || {
        vec![
            FlowEvent::StorageFound(GoalStorage::ServerState),
            FlowEvent::Rollout(RolloutSearch::Live { has_path: true }),
        ]
    };
    let flow = steps(GoalRequestKind::Change, found());
    assert_eq!(flow.step, FlowStep::ReadKnownRollout);
    let flow = flow.advance(FlowEvent::Known(None));
    assert_eq!(flow.step, FlowStep::ReconcileRollout);
    let flow = flow.advance(FlowEvent::Reconciled);
    assert_eq!(flow.step, FlowStep::AskService);
    let flow = flow.advance(FlowEvent::GoalSet(Some(RolloutRecord::Missing)));
    assert_eq!(flow.step, FlowStep::Persist(PersistPlan::SettingsAndGoal));
    let flow = flow.advance(FlowEvent::Persisted {
        settings_changed: true,
    });
    assert_eq!(flow.step, FlowStep::CatchUpSettings);
    assert_eq!(
        flow.advance(FlowEvent::SettingsWritten).step,
        FlowStep::Respond
    );
    let flow = steps(GoalRequestKind::Clear, found()).advance(FlowEvent::Known(Some(
        KnownRollout {
            same_path: true,
            recorded_thread_id: Some(thread_id()),
        },
    )));
    assert_eq!(flow.step, FlowStep::AskService);
}

#[test]
fn goals_that_were_not_there_are_not_announced() {
    let answered = |cleared: bool| {
        steps(
            GoalRequestKind::Clear,
            vec![
                FlowEvent::StorageFound(GoalStorage::Postgres),
                FlowEvent::GoalCleared(cleared),
                FlowEvent::Responded,
            ],
        )
        .step
    };
    assert_eq!(answered(true), FlowStep::Announce);
    assert_eq!(answered(false), FlowStep::Done);
    let read = steps(
        GoalRequestKind::Get,
        vec![
            FlowEvent::StorageFound(GoalStorage::ServerState),
            FlowEvent::GoalRead,
            FlowEvent::Responded,
        ],
    );
    assert_eq!(read.step, FlowStep::Done);
}

#[test]
fn requests_fail_with_what_went_wrong() {
    let flow = GoalFlow::start(thread_id(), GoalRequestKind::Get);
    assert_eq!(flow.step, FlowStep::FindStorage(GoalAccess::Read));
    let refused = || RequestError::InvalidRequest("no".to_string());
    assert_eq!(
        flow.advance(FlowEvent::StorageFailed(refused())).step,
        FlowStep::Fail(refused())
    );
    let after_search = |search: RolloutSearch| {
        steps(
            GoalRequestKind::Change,
            vec![
                FlowEvent::StorageFound(GoalStorage::ThreadState),
                FlowEvent::Rollout(search),
            ],
        )
        .step
    };
    assert_eq!(
        after_search(RolloutSearch::Live { has_path: false }),
        FlowStep::Fail(RequestError::InvalidRequest(format!(
            "ephemeral thread does not support goals: {THREAD}"
        )))
    );
    assert_eq!(
        after_search(RolloutSearch::OnDisk { found: false }),
        FlowStep::Fail(RequestError::InvalidRequest(format!(
            "thread not found: {THREAD}"
        )))
    );
    assert_eq!(
        after_search(RolloutSearch::Failed("io".to_string())),
        FlowStep::Fail(RequestError::Internal(format!(
            "failed to locate thread id {THREAD}: io"
        )))
    );
    let flow = steps(
        GoalRequestKind::Get,
        vec![
            FlowEvent::StorageFound(GoalStorage::Postgres),
            FlowEvent::ServiceFailed(GoalServiceError::Internal("down".to_string())),
        ],
    );
    assert_eq!(
        flow.step,
        FlowStep::Fail(RequestError::Internal("down".to_string()))
    );
    assert_eq!(
        flow.advance(FlowEvent::GoalRead).step,
        FlowStep::Fail(RequestError::Internal("down".to_string()))
    );
}
