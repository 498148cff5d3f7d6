//! Failures the store and the remote authority report.

use vstd::prelude::*;
use vstd::string::StringExecFns;

verus! {

/// Why the store refused an operation. A refused operation leaves the store
/// exactly as it was.
#[derive(Clone, Copy, Debug, PartialEq, Eq, Structural)]
pub enum StoreError {
    /// A sale with the same idempotency key is already queued.
    DuplicateIdempotencyKey,
    /// A constraint of the store would not hold any more.
    TransactionFailure,
}

/// Why the remote authority did not take a sale.
#[derive(Debug, PartialEq, Eq)]
pub enum RemoteError {
    /// The authority examined the sale and refused it.
    RemoteRejection(String),
    /// The authority could not be reached.
    RemoteUnreachable(String),
}

/// The text that a store failure is reported with.
pub open spec fn store_error_text(e: StoreError) -> Seq<char> {
    match e {
        StoreError::DuplicateIdempotencyKey => "duplicate idempotency key"@,
        StoreError::TransactionFailure => "transaction failure"@,
    }
}

impl StoreError {
    /// A short description of the failure.
    pub fn message(&self) -> (r: String)
        ensures
            r@ == store_error_text(*self),
    {
        match self {
            StoreError::DuplicateIdempotencyKey => String::from_str("duplicate idempotency key"),
            StoreError::TransactionFailure => String::from_str("transaction failure"),
        }
    }
}

impl RemoteError {
    /// The explanation that came with the failure.
    pub open spec fn text(&self) -> String {
        match self {
            RemoteError::RemoteRejection(m) => *m,
            RemoteError::RemoteUnreachable(m) => *m,
        }
    }

    /// Takes the explanation out of the failure.
    pub fn into_message(self) -> (r: String)
        ensures
            r == self.text(),
    {
        match self {
            RemoteError::RemoteRejection(m) => m,
            RemoteError::RemoteUnreachable(m) => m,
        }
    }
}

} // verus!
