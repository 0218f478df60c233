use codex_remote::migrations::{
    combine_lock_results, GateAction, LockAction, LockedMigration, MigrationGate,
};
use codex_remote::store_error::ThreadStoreError;

struct FakeDatabase {
    dirty_version: Option<i64>,
    lock_calls: usize,
    unlock_calls: usize,
}

impl FakeDatabase {
    fn new(dirty_version: Option<i64>) -> Self {
        FakeDatabase {
            dirty_version,
            lock_calls: 0,
            unlock_calls: 0,
        }
    }

    fn perform(&mut self, action: LockAction) -> Result<(), String> {
        match action {
            LockAction::Lock => {
                self.lock_calls += 1;
                Ok(())
            }
            LockAction::Migrate => match self.dirty_version {
                Some(version) => Err(format!(
                    "migration {version} is partially applied; fix and remove row from `_sqlx_migrations` table"
                )),
                None => Ok(()),
            },
            LockAction::Unlock => {
                self.unlock_calls += 1;
                Ok(())
            }
            LockAction::Done => panic!("nothing is left to be done"),
        }
    }
}

fn run(database: &mut FakeDatabase) -> Result<(), ThreadStoreError> {
    let mut work = LockedMigration::new();
    loop {
        let result = database.perform(work.next);
        let (next, end) = work.step(result);
        if let Some(end) = end {
            assert_eq!(next.next, LockAction::Done);
            return end;
        }
        work = next;
    }
}

#[test]
fn run_migrations_with_explicit_lock_releases_lock_after_success() {
    let mut conn = FakeDatabase::new(None);

    run(&mut conn).expect("migration should succeed");

    assert_eq!(conn.lock_calls, 1);
    assert_eq!(conn.unlock_calls, 1);
}

#[test]
fn run_migrations_with_explicit_lock_releases_lock_after_migration_error() {
    let mut conn = FakeDatabase::new(Some(7));

    let error = run(&mut conn).expect_err("dirty migration should fail");

    assert!(matches!(
        error,
        ThreadStoreError::Internal { message }
            if message.contains("migration 7 is partially applied")
    ));
    assert_eq!(conn.lock_calls, 1);
    assert_eq!(conn.unlock_calls, 1);
}

#[test]
fn lock_that_cannot_be_taken_ends_the_work() {
    let (work, end) = LockedMigration::new().step(Err("refused".to_string()));
    assert_eq!(work.next, LockAction::Done);
    assert_eq!(
        end,
        Some(Err(ThreadStoreError::Internal {
            message: "refused".to_string()
        }))
    );
}

#[test]
fn both_failures_are_told() {
    let internal = |message: &str| {
        Err(ThreadStoreError::Internal {
            message: message.to_string(),
        })
    };
    assert_eq!(
        combine_lock_results(Ok(()), Err("u".to_string())),
        internal("failed to release migration advisory lock: u")
    );
    assert_eq!(
        combine_lock_results(Err("m".to_string()), Err("u".to_string())),
        internal("m; failed to release migration advisory lock: u")
    );
}

#[test]
fn one_store_migrates_for_all() {
    let mut gate = MigrationGate::new();
    assert_eq!(gate.enter(), GateAction::StartAndWait);
    assert_eq!(gate.enter(), GateAction::Wait);
    gate.finish(Ok(()));
    assert_eq!(gate.enter(), GateAction::Proceed);
    assert_eq!(gate.enter(), GateAction::Proceed);
}

#[test]
fn failure_is_told_once_and_tried_again() {
    let mut gate = MigrationGate::new();
    assert_eq!(gate.enter(), GateAction::StartAndWait);
    gate.finish(Err("no route".to_string()));
    assert_eq!(
        gate.enter(),
        GateAction::Fail("failed to apply remote SQL migrations: no route".to_string())
    );
    assert_eq!(gate.enter(), GateAction::StartAndWait);
}
