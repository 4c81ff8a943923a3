//! The failures that the service tells its callers about.

use vstd::prelude::*;

verus! {

/// What went wrong with a request.
#[derive(Clone, Debug)]
pub enum ServiceError {
    /// The API key is missing or wrong.
    Unauthenticated,
    /// No link has the requested identifier.
    NotFound,
    /// The target URL does not parse.
    InvalidInput,
    /// Every identifier tried while creating a link was taken.
    RetriesExhausted,
    /// An operation on the store did not finish in its time.
    Timeout,
    /// The store failed, with its message.
    BackendFailure(String),
}

/// The HTTP status that a failure is reported with.
pub open spec fn status_of(e: ServiceError) -> u16 {
    match e {
        ServiceError::Unauthenticated => 401,
        ServiceError::NotFound => 404,
        ServiceError::InvalidInput => 409,
        _ => 500,
    }
}

impl ServiceError {
    pub fn status_code(&self) -> (r: u16)
        ensures
            r == status_of(*self),
    {
        match self {
            ServiceError::Unauthenticated => 401,
            ServiceError::NotFound => 404,
            ServiceError::InvalidInput => 409,
            _ => 500,
        }
    }
}

/// An internal failure as the client sees it: status 500 and the message.
pub fn internal_error(message: String) -> (r: (u16, String))
    ensures
        r.0 == 500,
        r.1@ == message@,
{
    (500, message)
}

} // verus!
