//! Classification of what one upstream call produced.
use vstd::prelude::*;
use crate::retry::AttemptOutcome;

verus! {

pub enum UpstreamError {
    /// No answer: network failure or timeout. The caller may retry.
    Transient,
    /// The provider answered with a structured error, passed on verbatim.
    Rejected { status: u16, body: String },
}

/// Sorts out one upstream exchange: without an HTTP status (network failure
/// or timeout) it is transient; a 2xx status carries the response body; any
/// other status is the provider's refusal.
pub fn classify_upstream(status: Option<u16>, body: String) -> (r: Result<String, UpstreamError>)
    ensures
        status is None ==> r matches Err(UpstreamError::Transient),
        status is Some && 200 <= status->Some_0 < 300 ==> r == Ok::<String, UpstreamError>(body),
        status is Some && !(200 <= status->Some_0 < 300) ==> (r matches Err(
            UpstreamError::Rejected { status: t, body: b },
        ) && t == status->Some_0 && b == body),
{
    match status {
        None => Err(UpstreamError::Transient),
        Some(s) => if 200 <= s && s < 300 {
            Ok(body)
        } else {
            Err(UpstreamError::Rejected { status: s, body })
        },
    }
}

/// The retry policy's view of an upstream exchange.
pub fn attempt_outcome(r: &Result<String, UpstreamError>) -> (o: AttemptOutcome)
    ensures
        o == (match r {
            Ok(_) => AttemptOutcome::Success,
            Err(UpstreamError::Transient) => AttemptOutcome::Transient,
            Err(UpstreamError::Rejected { .. }) => AttemptOutcome::Rejected,
        }),
{
    match r {
        Ok(_) => AttemptOutcome::Success,
        Err(UpstreamError::Transient) => AttemptOutcome::Transient,
        Err(UpstreamError::Rejected { .. }) => AttemptOutcome::Rejected,
    }
}

} // verus!
