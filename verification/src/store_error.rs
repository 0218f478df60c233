//! What can go wrong in a thread store.

use vstd::prelude::*;

use crate::text;
use crate::thread_id::ThreadId;

verus! {

/// Why a thread store did not do what was asked.
#[derive(Debug, PartialEq, Eq)]
pub enum ThreadStoreError {
    ThreadNotFound { thread_id: ThreadId },
    InvalidRequest { message: String },
    Conflict { message: String },
    Internal { message: String },
    Unsupported { operation: String },
}

/// What an error says.
pub enum StoreErrorView {
    ThreadNotFound(Seq<char>),
    InvalidRequest(Seq<char>),
    Conflict(Seq<char>),
    Internal(Seq<char>),
    Unsupported(Seq<char>),
}

impl View for ThreadStoreError {
    type V = StoreErrorView;

    open spec fn view(&self) -> StoreErrorView {
        match *self {
            ThreadStoreError::ThreadNotFound { thread_id } => StoreErrorView::ThreadNotFound(
                thread_id@,
            ),
            ThreadStoreError::InvalidRequest { message } => StoreErrorView::InvalidRequest(
                message@,
            ),
            ThreadStoreError::Conflict { message } => StoreErrorView::Conflict(message@),
            ThreadStoreError::Internal { message } => StoreErrorView::Internal(message@),
            ThreadStoreError::Unsupported { operation } => StoreErrorView::Unsupported(operation@),
        }
    }
}

/// A request that cannot be met as it is.
pub fn invalid_request(message: &str) -> (r: ThreadStoreError)
    ensures
        r@ == StoreErrorView::InvalidRequest(message@),
{
    ThreadStoreError::InvalidRequest { message: text::owned(message) }
}

/// A failure inside the store.
pub fn internal_error(message: &str) -> (r: ThreadStoreError)
    ensures
        r@ == StoreErrorView::Internal(message@),
{
    ThreadStoreError::Internal { message: text::owned(message) }
}

} // verus!
