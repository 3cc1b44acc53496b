//! Request-level resource limits.
use vstd::prelude::*;
use crate::error::EngineError;

verus! {

/// Request-level resource limits.
#[derive(Debug, Clone, Copy)]
pub struct ResourceGuard {
    /// Maximum request body size in bytes.
    pub max_request_bytes: usize,
    /// Per-request timeout in milliseconds.
    pub request_timeout_ms: u64,
    /// Maximum concurrent requests (backpressure).
    pub max_concurrent: usize,
}

impl Default for ResourceGuard {
    /// 10 MiB bodies, 30 s timeout, 100 concurrent requests.
    fn default() -> (g: ResourceGuard)
        ensures
            g.max_request_bytes == 10 * 1024 * 1024,
            g.request_timeout_ms == 30_000,
            g.max_concurrent == 100,
    {
        ResourceGuard { max_request_bytes: 10 * 1024 * 1024, request_timeout_ms: 30_000, max_concurrent: 100 }
    }
}

/// The size rule: a zero limit admits nothing; a known length must not
/// exceed the limit; an unknown length is admitted.
pub open spec fn size_ok(content_length: Option<u64>, max_bytes: usize) -> bool {
    if max_bytes == 0 {
        false
    } else {
        match content_length {
            Some(len) => len <= max_bytes,
            None => true,
        }
    }
}

/// Whether a request body is within the size limit.
pub fn validate_request_size(content_length: Option<u64>, max_bytes: usize) -> (ok: bool)
    ensures
        ok == size_ok(content_length, max_bytes),
{
    if max_bytes == 0 {
        return false;
    }
    match content_length {
        Some(len) => len as u128 <= max_bytes as u128,
        None => true,
    }
}

/// How long to let a guarded computation run: `None` when the timeout is
/// zero (the computation is refused outright), otherwise the milliseconds.
pub fn timeout_budget(timeout_ms: u64) -> (b: Option<u64>)
    ensures
        b == (if timeout_ms == 0 { None } else { Some(timeout_ms) }),
{
    if timeout_ms == 0 { None } else { Some(timeout_ms) }
}

/// The outcome of a guarded computation: its own result when it finished
/// within the budget (`Some`), a timeout error otherwise.
pub fn timeout_outcome<T>(finished: Option<Result<T, EngineError>>) -> (r: Result<T, EngineError>)
    ensures
        finished matches Some(x) ==> r == x,
        finished is None ==> r matches Err(EngineError::Timeout),
{
    match finished {
        Some(x) => x,
        None => Err(EngineError::Timeout),
    }
}

/// Law: the size rule is monotone: a body admitted at one length is
/// admitted at every smaller length, and a refused length refuses every
/// larger one.
pub proof fn law_size_monotone(shorter: u64, longer: u64, max_bytes: usize)
    requires
        shorter <= longer,
    ensures
        size_ok(Some(longer), max_bytes) ==> size_ok(Some(shorter), max_bytes),
        !size_ok(Some(shorter), max_bytes) ==> !size_ok(Some(longer), max_bytes),
{
}

/// Law: a zero limit refuses every request, even one of unknown size;
/// otherwise a request of unknown size is admitted.
pub proof fn law_zero_limit_refuses_all(content_length: Option<u64>)
    ensures
        !size_ok(content_length, 0),
        size_ok(None, 1),
{
}

} // verus!
