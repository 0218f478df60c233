//! The limits of a search in the texts of threads.

use vstd::prelude::*;

use crate::store_error::{StoreErrorView, ThreadStoreError};
use crate::text;

verus! {

/// How many threads a search looks at.
pub const MAX_CANDIDATES: usize = 10_000;

/// How many bytes of text a search reads.
pub const MAX_BYTES: usize = 16_777_216;

/// How many milliseconds a search takes.
pub const SEARCH_MILLIS: u64 = 5_000;

/// What a search may still use: time, text, and the patience of whoever asked. Time is counted
/// in milliseconds on a clock that does not go back. There is one budget for a search, which all
/// its workers share; it cannot be copied.
#[derive(Debug, PartialEq, Eq, Structural)]
pub struct SearchBudget {
    pub deadline: u64,
    pub cancelled: bool,
    pub bytes: usize,
}

/// What is said of a search that ran into a limit.
pub open spec fn limit_view(limit: Seq<char>) -> StoreErrorView {
    StoreErrorView::InvalidRequest(
        "thread/searchOccurrences exceeded "@ + limit + "; search coverage is incomplete"@,
    )
}

/// What is said of a search that ran into a limit.
pub fn limit_error(limit: &str) -> (r: ThreadStoreError)
    ensures
        r@ == limit_view(limit@),
{
    ThreadStoreError::InvalidRequest {
        message: text::concat3(
            "thread/searchOccurrences exceeded ",
            limit,
            "; search coverage is incomplete",
        ),
    }
}

/// The search has no time left, or nobody waits for it.
pub open spec fn is_over(budget: SearchBudget, now: u64) -> bool {
    budget.cancelled || now >= budget.deadline
}

/// What is said of a search that took too long or was given up.
pub open spec fn deadline_view() -> StoreErrorView {
    limit_view("5 second deadline or request cancellation"@)
}

/// What is said of text that is too much, or comes too late.
pub open spec fn refusal(budget: SearchBudget, bytes: usize, now: u64) -> Option<StoreErrorView> {
    if is_over(budget, now) {
        Some(deadline_view())
    } else if budget.bytes + bytes > MAX_BYTES {
        Some(limit_view("16 MiB of text"@))
    } else {
        None
    }
}

/// The budget after text was read. The count starts anew where it does not fit its type.
pub open spec fn after_reading(budget: SearchBudget, bytes: usize, now: u64) -> SearchBudget {
    if is_over(budget, now) {
        budget
    } else {
        SearchBudget { bytes: budget.bytes.wrapping_add(bytes), ..budget }
    }
}

/// The budget of a search that was given up.
pub open spec fn given_up(budget: SearchBudget) -> SearchBudget {
    SearchBudget { cancelled: true, ..budget }
}

/// The bytes of text that may still be read.
pub open spec fn bytes_left(budget: SearchBudget) -> int {
    if budget.bytes < MAX_BYTES {
        MAX_BYTES - budget.bytes
    } else {
        0
    }
}

impl SearchBudget {
    /// The budget of a search that begins now.
    pub fn new(now: u64) -> (r: SearchBudget)
        requires
            now + SEARCH_MILLIS <= u64::MAX,
        ensures
            r == (SearchBudget {
                deadline: (now + SEARCH_MILLIS) as u64,
                cancelled: false,
                bytes: 0,
            }),
    {
        SearchBudget { deadline: now + SEARCH_MILLIS, cancelled: false, bytes: 0 }
    }

    /// Refuses to go on with a search that is over.
    pub fn check(&self, now: u64) -> (r: Result<(), ThreadStoreError>)
        ensures
            match r {
                Ok(_) => !is_over(*self, now),
                Err(e) => is_over(*self, now) && e@ == deadline_view(),
            },
    {
        if self.cancelled || now >= self.deadline {
            return Err(limit_error("5 second deadline or request cancellation"));
        }
        Ok(())
    }

    /// Gives the search up.
    pub fn cancel(&mut self)
        ensures
            *final(self) == given_up(*old(self)),
    {
        self.cancelled = true;
    }

    /// The bytes of text that may still be read.
    pub fn remaining_bytes(&self) -> (r: usize)
        ensures
            r == bytes_left(*self),
    {
        if self.bytes < MAX_BYTES {
            MAX_BYTES - self.bytes
        } else {
            0
        }
    }

    /// Counts text that was read. Text beyond the limit is counted and refused; once the search is
    /// over nothing is counted.
    pub fn consume_bytes(&mut self, bytes: usize, now: u64) -> (r: Result<(), ThreadStoreError>)
        ensures
            match r {
                Ok(_) => refusal(*old(self), bytes, now) is None,
                Err(e) => refusal(*old(self), bytes, now) == Some(e@),
            },
            *final(self) == after_reading(*old(self), bytes, now),
    {
        match self.check(now) {
            Ok(_) => {},
            Err(e) => return Err(e),
        }
        let previous: usize = self.bytes;
        self.bytes = previous.wrapping_add(bytes);
        if previous > MAX_BYTES || bytes > MAX_BYTES - previous {
            return Err(limit_error("16 MiB of text"));
        }
        Ok(())
    }

    /// What is said of a query that failed: that the search is over, where it is, and else what
    /// the database says.
    pub fn query_error(&self, error: &str, now: u64) -> (r: ThreadStoreError)
        ensures
            r@ == if is_over(*self, now) {
                deadline_view()
            } else {
                StoreErrorView::Internal(
                    "thread/searchOccurrences database query failed: "@ + error@,
                )
            },
    {
        match self.check(now) {
            Ok(_) => ThreadStoreError::Internal {
                message: text::concat2("thread/searchOccurrences database query failed: ", error),
            },
            Err(e) => e,
        }
    }

    /// The milliseconds that the search still has.
    pub fn remaining_millis(&self, now: u64) -> (r: u64)
        ensures
            r == if now < self.deadline {
                self.deadline - now
            } else {
                0
            },
    {
        if now < self.deadline {
            self.deadline - now
        } else {
            0
        }
    }
}

/// How the lock that lets one search at a time run in a workspace was met.
#[derive(Debug)]
pub enum SlotAttempt {
    Acquired,
    /// Another search holds it.
    Busy,
    /// The file of the lock cannot be opened.
    OpenFailed(String),
    /// The lock cannot be taken.
    LockFailed(String),
}

/// Whether a search may run, or what is said of why it may not.
pub fn slot_result(attempt: SlotAttempt) -> (r: Result<(), ThreadStoreError>)
    ensures
        match (attempt, r) {
            (SlotAttempt::Acquired, Ok(_)) => true,
            (SlotAttempt::Busy, Err(e)) => e@ == StoreErrorView::Conflict(
                "thread/searchOccurrences is busy in this workspace; retry later"@,
            ),
            (SlotAttempt::OpenFailed(err), Err(e)) => e@ == StoreErrorView::Internal(
                "failed to open workspace body search lock: "@ + err@,
            ),
            (SlotAttempt::LockFailed(err), Err(e)) => e@ == StoreErrorView::Internal(
                "failed to lock workspace body search: "@ + err@,
            ),
            _ => false,
        },
{
    match attempt {
        SlotAttempt::Acquired => Ok(()),
        SlotAttempt::Busy => Err(
            ThreadStoreError::Conflict {
                message: text::owned(
                    "thread/searchOccurrences is busy in this workspace; retry later",
                ),
            },
        ),
        SlotAttempt::OpenFailed(err) => Err(
            ThreadStoreError::Internal {
                message: text::concat2(
                    "failed to open workspace body search lock: ",
                    err.as_str(),
                ),
            },
        ),
        SlotAttempt::LockFailed(err) => Err(
            ThreadStoreError::Internal {
                message: text::concat2("failed to lock workspace body search: ", err.as_str()),
            },
        ),
    }
}

// ---------------------------------------------------------------------------------------------
// Laws
// ---------------------------------------------------------------------------------------------

/// A search that is over stays over: time does not go back, and what is given up is not taken up
/// again.
pub proof fn searches_stay_over(budget: SearchBudget, now: u64, later: u64, bytes: usize)
    requires
        is_over(budget, now),
        later >= now,
    ensures
        is_over(budget, later),
        is_over(given_up(budget), later),
        is_over(after_reading(budget, bytes, now), later),
{
}

/// A search that is given up is over at once and for good, whatever is tried: giving it up again
/// changes nothing, no text is accepted or counted, and the bytes that are left stay the same.
pub proof fn what_is_given_up_stays_so(budget: SearchBudget, now: u64, bytes: usize)
    ensures
        is_over(given_up(budget), now),
        given_up(given_up(budget)) == given_up(budget),
        refusal(given_up(budget), bytes, now) == Some(deadline_view()),
        after_reading(given_up(budget), bytes, now) == given_up(budget),
        bytes_left(given_up(budget)) == bytes_left(budget),
{
}

/// The bytes of some texts together.
pub open spec fn total(sizes: Seq<usize>) -> int
    decreases sizes.len(),
{
    if sizes.len() == 0 {
        0
    } else {
        total(sizes.drop_last()) + sizes.last()
    }
}

/// The budget after some texts were read, each at its time.
pub open spec fn after_texts(
    budget: SearchBudget,
    sizes: Seq<usize>,
    times: Seq<u64>,
) -> SearchBudget
    decreases sizes.len(),
{
    if sizes.len() == 0 {
        budget
    } else {
        after_reading(
            after_texts(budget, sizes.drop_last(), times),
            sizes.last(),
            times[sizes.len() - 1],
        )
    }
}

/// None of some texts is refused when they are read one after the other, each at its time.
pub open spec fn all_accepted(budget: SearchBudget, sizes: Seq<usize>, times: Seq<u64>) -> bool
    decreases sizes.len(),
{
    sizes.len() == 0 || {
        &&& all_accepted(budget, sizes.drop_last(), times)
        &&& refusal(
            after_texts(budget, sizes.drop_last(), times),
            sizes.last(),
            times[sizes.len() - 1],
        ) is None
    }
}

/// The search was not given up, and every text comes before its deadline.
pub open spec fn all_in_time(budget: SearchBudget, sizes: Seq<usize>, times: Seq<u64>) -> bool {
    &&& !budget.cancelled
    &&& sizes.len() <= times.len()
    &&& forall|i: int| 0 <= i < sizes.len() ==> #[trigger] times[i] < budget.deadline
}

proof fn lemma_total_is_positive(sizes: Seq<usize>)
    ensures
        total(sizes) >= 0,
    decreases sizes.len(),
{
    if sizes.len() > 0 {
        lemma_total_is_positive(sizes.drop_last());
    }
}

proof fn lemma_texts_are_counted(budget: SearchBudget, sizes: Seq<usize>, times: Seq<u64>)
    requires
        all_in_time(budget, sizes, times),
        budget.bytes + total(sizes) <= usize::MAX,
    ensures
        after_texts(budget, sizes, times) == (SearchBudget {
            bytes: (budget.bytes + total(sizes)) as usize,
            ..budget
        }),
    decreases sizes.len(),
{
    lemma_total_is_positive(sizes);
    if sizes.len() > 0 {
        lemma_total_is_positive(sizes.drop_last());
        lemma_texts_are_counted(budget, sizes.drop_last(), times);
    }
}

/// Every text counts, whether or not it was refused. So of texts that are read one after the
/// other, in time, the last is accepted exactly where all of them together stay within the limit,
/// and is otherwise refused for the limit's sake; and what is left is what they leave of it.
/// This holds while the count fits its type.
pub proof fn every_text_counts(budget: SearchBudget, sizes: Seq<usize>, times: Seq<u64>)
    requires
        all_in_time(budget, sizes, times),
        budget.bytes + total(sizes) <= usize::MAX,
        sizes.len() > 0,
    ensures
        refusal(
            after_texts(budget, sizes.drop_last(), times),
            sizes.last(),
            times[sizes.len() - 1],
        ) == if budget.bytes + total(sizes) <= MAX_BYTES {
            None
        } else {
            Some(limit_view("16 MiB of text"@))
        },
        bytes_left(after_texts(budget, sizes, times)) == if budget.bytes + total(sizes)
            <= MAX_BYTES {
            MAX_BYTES - budget.bytes - total(sizes)
        } else {
            0
        },
{
    lemma_total_is_positive(sizes.drop_last());
    lemma_texts_are_counted(budget, sizes.drop_last(), times);
    lemma_texts_are_counted(budget, sizes, times);
}

/// The limit holds for all texts together: in time, they are all accepted exactly where they stay
/// within it, whatever pieces they come in.
pub proof fn the_limit_holds_for_all_texts(
    budget: SearchBudget,
    sizes: Seq<usize>,
    times: Seq<u64>,
)
    requires
        all_in_time(budget, sizes, times),
        budget.bytes <= MAX_BYTES,
    ensures
        all_accepted(budget, sizes, times) == (budget.bytes + total(sizes) <= MAX_BYTES),
    decreases sizes.len(),
{
    if sizes.len() > 0 {
        let before = sizes.drop_last();
        lemma_total_is_positive(before);
        the_limit_holds_for_all_texts(budget, before, times);
        if budget.bytes + total(before) <= MAX_BYTES {
            lemma_texts_are_counted(budget, before, times);
        }
    }
}

/// A search may take five seconds, look at ten thousand threads and read 16 MiB.
pub proof fn searches_have_their_limits()
    ensures
        SEARCH_MILLIS == 5_000,
        MAX_CANDIDATES == 10_000,
        MAX_BYTES == 16 * 1024 * 1024,
{
}

/// A search is over from its deadline on, and not before, unless it was given up.
pub proof fn searches_end_at_their_deadline(budget: SearchBudget, now: u64)
    ensures
        now >= budget.deadline ==> is_over(budget, now),
        budget.cancelled ==> is_over(budget, now),
        !budget.cancelled && now < budget.deadline ==> !is_over(budget, now),
        given_up(budget).cancelled,
        given_up(budget).deadline == budget.deadline,
        given_up(budget).bytes == budget.bytes,
{
}

/// What is said of a refusal names the limit: the deadline comes before the amount of text.
pub proof fn refusals_name_the_limit(budget: SearchBudget, bytes: usize, now: u64)
    ensures
        ({
            let said = refusal(budget, bytes, now);
            let late = budget.cancelled || now >= budget.deadline;
            &&& late ==> said == Some(
                StoreErrorView::InvalidRequest(
                    "thread/searchOccurrences exceeded "@
                        + "5 second deadline or request cancellation"@
                        + "; search coverage is incomplete"@,
                ),
            )
            &&& !late && budget.bytes + bytes > 16 * 1024 * 1024 ==> said == Some(
                StoreErrorView::InvalidRequest(
                    "thread/searchOccurrences exceeded "@ + "16 MiB of text"@
                        + "; search coverage is incomplete"@,
                ),
            )
            &&& !late && budget.bytes + bytes <= 16 * 1024 * 1024 ==> said is None
        }),
{
}

/// Text that is read in time is counted, and nothing else changes; text that comes too late is
/// not. What is left is what was not counted, and never less than nothing.
pub proof fn text_is_counted_in_time(budget: SearchBudget, bytes: usize, now: u64)
    ensures
        ({
            let after = after_reading(budget, bytes, now);
            let late = budget.cancelled || now >= budget.deadline;
            &&& late ==> after == budget
            &&& !late && budget.bytes + bytes <= usize::MAX ==> after.bytes == budget.bytes + bytes
            &&& after.deadline == budget.deadline
            &&& after.cancelled == budget.cancelled
            &&& budget.bytes <= 16 * 1024 * 1024 ==> bytes_left(budget) + budget.bytes == 16 * 1024
                * 1024
            &&& budget.bytes > 16 * 1024 * 1024 ==> bytes_left(budget) == 0
        }),
{
}

} // verus!
