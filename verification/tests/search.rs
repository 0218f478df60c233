use codex_remote::search_budget::{
    limit_error, slot_result, SearchBudget, SlotAttempt, MAX_BYTES, SEARCH_MILLIS,
};
use codex_remote::store_error::ThreadStoreError;

#[test]
fn cumulative_text_budget_includes_metadata_and_all_items() {
    let mut budget = SearchBudget::new(0);
    budget.consume_bytes(1024, 0).expect("metadata");
    budget.consume_bytes(MAX_BYTES - 1024, 0).expect("exact limit");
    assert_eq!(budget.remaining_bytes(), 0);
    assert!(budget.consume_bytes(1, 0).is_err());
}

#[test]
fn budget_names_the_limit_that_was_met() {
    let mut budget = SearchBudget::new(100);
    assert_eq!(budget.remaining_millis(100), 5_000);
    assert!(budget.check(100 + SEARCH_MILLIS - 1).is_ok());
    let late = budget.check(100 + SEARCH_MILLIS).expect_err("deadline");
    assert!(matches!(
        late,
        ThreadStoreError::InvalidRequest { message } if message
            == "thread/searchOccurrences exceeded 5 second deadline or request cancellation; search coverage is incomplete"
    ));
    let full = budget.consume_bytes(MAX_BYTES + 1, 100).expect_err("text");
    assert_eq!(full, limit_error("16 MiB of text"));
    assert_eq!(budget.remaining_bytes(), 0);
}

#[test]
fn cancelled_budget_stays_cancelled() {
    let mut budget = SearchBudget::new(0);
    budget.cancel();
    assert!(budget.check(0).is_err());
    assert!(budget.consume_bytes(1, 0).is_err());
    assert_eq!(budget.remaining_bytes(), MAX_BYTES);
    assert!(matches!(
        budget.query_error("interrupted", 0),
        ThreadStoreError::InvalidRequest { .. }
    ));
}

#[test]
fn every_text_counts_though_it_is_refused() {
    let mut budget = SearchBudget::new(0);
    assert!(budget.consume_bytes(MAX_BYTES - 10, 0).is_ok());
    assert!(budget.consume_bytes(11, 0).is_err());
    assert!(budget.consume_bytes(1, 0).is_err());
    assert_eq!(budget.bytes, MAX_BYTES + 2);
    assert_eq!(budget.remaining_bytes(), 0);
}

#[test]
fn query_errors_are_passed_on_in_time() {
    let budget = SearchBudget::new(0);
    assert!(matches!(
        budget.query_error("disk", 0),
        ThreadStoreError::Internal { message }
            if message == "thread/searchOccurrences database query failed: disk"
    ));
}

#[test]
fn count_of_bytes_wraps_and_is_refused() {
    let mut budget = SearchBudget::new(0);
    assert!(budget.consume_bytes(usize::MAX, 0).is_err());
    assert!(budget.consume_bytes(2, 0).is_err());
    assert_eq!(budget.bytes, 1);
}

#[test]
fn slots_are_given_once() {
    assert_eq!(slot_result(SlotAttempt::Acquired), Ok(()));
    assert!(matches!(
        slot_result(SlotAttempt::Busy),
        Err(ThreadStoreError::Conflict { .. })
    ));
    assert!(matches!(
        slot_result(SlotAttempt::OpenFailed("x".to_string())),
        Err(ThreadStoreError::Internal { message })
            if message == "failed to open workspace body search lock: x"
    ));
    assert!(matches!(
        slot_result(SlotAttempt::LockFailed("x".to_string())),
        Err(ThreadStoreError::Internal { message })
            if message == "failed to lock workspace body search: x"
    ));
}
