//! What can go wrong while one request is served.

use vstd::prelude::*;

verus! {

/// Why the store did not carry out an operation.
#[derive(Clone, Copy, Debug, PartialEq, Eq, Structural)]
pub enum StoreError {
    /// The store could not be reached, or the connection to it was lost.
    Unavailable,
    /// The store refused the statement: a constraint does not hold.
    Rejected,
}

impl StoreError {
    /// The kind of a failure: `Rejected` where the store itself answered
    /// with an error, `Unavailable` where no answer came.
    pub fn of_failure(answered: bool) -> (r: StoreError)
        ensures
            r == (if answered {
                StoreError::Rejected
            } else {
                StoreError::Unavailable
            }),
    {
        if answered {
            StoreError::Rejected
        } else {
            StoreError::Unavailable
        }
    }
}

/// Why a request did not end in a successful response. Each of these is
/// answered on the connection that the request came in on.
#[derive(Clone, Copy, Debug, PartialEq, Eq, Structural)]
pub enum ServiceError {
    /// The bytes are no HTTP request: there is no complete head, the request
    /// line or a header line cannot be read, or the request is too large.
    MalformedRequest,
    /// The request is well framed, but its body is not the JSON payload that
    /// the operation needs.
    BadRequest,
    /// No operation stands under this method and path, or the user that the
    /// operation is about does not exist.
    NotFound,
    /// The store failed.
    Store(StoreError),
}

} // verus!
