//! Validation of target URLs and of what a store call under a deadline came to.

use vstd::prelude::*;
use crate::error::ServiceError;
use crate::models::LinkTarget;
use crate::protocol::StoreError;
use crate::timed::Timed;

verus! {

/// What `url::Url::parse` makes of `s`: the serialised URL, or nothing
/// where `s` is no valid URL.
pub uninterp spec fn parsed_url(s: Seq<char>) -> Option<Seq<char>>;

/// Relies on `url::Url::parse` and `String::from(Url)`: the URL in its
/// serialised form, or `None` where parsing fails; the result depends on the
/// text alone.
#[verifier::external_body]
fn parse_url(s: &str) -> (r: Option<String>)
    ensures
        match r {
            Some(u) => parsed_url(s@) == Some(u@),
            None => parsed_url(s@) is None,
        },
{
    match url::Url::parse(s) {
        Ok(u) => Some(String::from(u)),
        Err(_) => None,
    }
}

/// The URL to store for a request's target: its serialised form, or
/// `InvalidInput` where it does not parse.
pub fn validate_target(target: &LinkTarget) -> (r: Result<String, ServiceError>)
    ensures
        match parsed_url(target.target_url@) {
            Some(u) => r matches Ok(s) && s@ == u,
            None => r matches Err(ServiceError::InvalidInput),
        },
{
    match parse_url(target.target_url.as_str()) {
        Some(u) => Ok(u),
        None => Err(ServiceError::InvalidInput),
    }
}

/// The message with which exhausted identifier retries reach the client.
pub const RETRIES_EXHAUSTED_MESSAGE: &'static str = "too many attempts to create a link";

/// What a store call under a deadline gives the client: its value; the
/// store's failure, with exhausted retries reported as a backend failure
/// too; or `Timeout`.
pub fn settle<T>(t: Timed<Result<T, StoreError>>) -> (r: Result<T, ServiceError>)
    ensures
        match t {
            Timed::Completed(Ok(v)) => r == Ok::<T, ServiceError>(v),
            Timed::Completed(Err(StoreError::Backend(m))) => r == Err::<T, ServiceError>(
                ServiceError::BackendFailure(m),
            ),
            Timed::Completed(Err(StoreError::RetriesExhausted)) => r matches Err(
                ServiceError::BackendFailure(m),
            ) && m@ == RETRIES_EXHAUSTED_MESSAGE@,
            Timed::Failed(m) => r == Err::<T, ServiceError>(ServiceError::BackendFailure(m)),
            Timed::TimedOut => r == Err::<T, ServiceError>(ServiceError::Timeout),
        },
{
    match t {
        Timed::Completed(Ok(v)) => Ok(v),
        Timed::Completed(Err(StoreError::Backend(m))) => Err(ServiceError::BackendFailure(m)),
        Timed::Completed(Err(StoreError::RetriesExhausted)) => Err(
            ServiceError::BackendFailure(RETRIES_EXHAUSTED_MESSAGE.to_owned()),
        ),
        Timed::Failed(m) => Err(ServiceError::BackendFailure(m)),
        Timed::TimedOut => Err(ServiceError::Timeout),
    }
}

} // verus!
