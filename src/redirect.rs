//! The redirect path: record a statistic, best effort, then look the link up.
//! The statistic's outcome never changes what the client gets.

use vstd::prelude::*;
use crate::error::ServiceError;
use crate::models::Link;
use crate::timed::Timed;

verus! {

/// The `Cache-Control` value sent with a redirect: five minutes, and as long
/// again to serve a stale answer while revalidating or on an error.
pub const DEFAULT_CACHE_CONTROL_HEADER_VALUE: &'static str =
    "public, max-age=300, s-maxage=300, stale-while-revalidate=300, stale-if-error=300";

/// Where a redirect goes, or why there is none, given how the statistic
/// write and the link fetch came out.
pub open spec fn redirect_decision(statistic: Timed<()>, fetched: Timed<Option<Link>>) -> Result<
    String,
    ServiceError,
> {
    match fetched {
        Timed::Completed(Some(link)) => Ok(link.target_url),
        Timed::Completed(None) => Err(ServiceError::NotFound),
        Timed::Failed(message) => Err(ServiceError::BackendFailure(message)),
        Timed::TimedOut => Err(ServiceError::Timeout),
    }
}

/// Decides a redirect: the location is the stored target; a missing link is
/// `NotFound`; a failed or late fetch is an internal failure. The statistic's
/// outcome is only for the log.
pub fn redirect_target(statistic: Timed<()>, fetched: Timed<Option<Link>>) -> (r: Result<
    String,
    ServiceError,
>)
    ensures
        r == redirect_decision(statistic, fetched),
{
    match fetched {
        Timed::Completed(Some(link)) => Ok(link.target_url),
        Timed::Completed(None) => Err(ServiceError::NotFound),
        Timed::Failed(message) => Err(ServiceError::BackendFailure(message)),
        Timed::TimedOut => Err(ServiceError::Timeout),
    }
}

/// A failed or late statistic write leaves the redirect as it would be had
/// the write succeeded: the same location for a link that was found.
pub proof fn lemma_statistic_failure_keeps_redirect(
    statistic: Timed<()>,
    fetched: Timed<Option<Link>>,
    link: Link,
)
    ensures
        redirect_decision(statistic, fetched) == redirect_decision(Timed::Completed(()), fetched),
        redirect_decision(statistic, Timed::Completed(Some(link))) == Ok::<String, ServiceError>(
            link.target_url,
        ),
{
}

/// A link fetch that misses its deadline fails the request as a timeout,
/// reported with status 500, whatever became of the statistic write.
pub proof fn lemma_fetch_timeout_fails_redirect(statistic: Timed<()>)
    ensures
        redirect_decision(statistic, Timed::TimedOut) == Err::<String, ServiceError>(
            ServiceError::Timeout,
        ),
        crate::error::status_of(ServiceError::Timeout) == 500,
{
}

} // verus!
