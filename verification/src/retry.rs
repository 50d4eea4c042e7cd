//! Retry decisions for transient RPC errors.
//!
//! The async driver that sleeps and re-issues calls lives with the host;
//! the decisions — which status codes are transient, how backoff grows,
//! where jitter may land — are verified here.

use vstd::prelude::*;

verus! {

/// The status code of a finished RPC, mirroring the gRPC code set.
#[derive(Debug, Clone, Copy, PartialEq, Eq, Structural)]
pub enum GrpcCode {
    Okay,
    Cancelled,
    Unknown,
    InvalidArgument,
    DeadlineExceeded,
    NotFound,
    AlreadyExists,
    PermissionDenied,
    ResourceExhausted,
    FailedPrecondition,
    Aborted,
    OutOfRange,
    Unimplemented,
    Internal,
    Unavailable,
    DataLoss,
    Unauthenticated,
}

/// Only these codes mark an error worth retrying; every other failure is
/// permanent and is returned immediately.
pub open spec fn retryable(code: GrpcCode) -> bool {
    code is Unavailable || code is DeadlineExceeded || code is Internal
}

pub fn is_retryable(code: GrpcCode) -> (r: bool)
    ensures
        r == retryable(code),
{
    matches!(code, GrpcCode::Unavailable | GrpcCode::DeadlineExceeded | GrpcCode::Internal)
}

/// The stable label attached to retry metrics for each code.
pub open spec fn code_label(code: GrpcCode) -> Seq<char> {
    match code {
        GrpcCode::Okay => "ok"@,
        GrpcCode::Cancelled => "cancelled"@,
        GrpcCode::Unknown => "unknown"@,
        GrpcCode::InvalidArgument => "invalid_argument"@,
        GrpcCode::DeadlineExceeded => "deadline_exceeded"@,
        GrpcCode::NotFound => "not_found"@,
        GrpcCode::AlreadyExists => "already_exists"@,
        GrpcCode::PermissionDenied => "permission_denied"@,
        GrpcCode::ResourceExhausted => "resource_exhausted"@,
        GrpcCode::FailedPrecondition => "failed_precondition"@,
        GrpcCode::Aborted => "aborted"@,
        GrpcCode::OutOfRange => "out_of_range"@,
        GrpcCode::Unimplemented => "unimplemented"@,
        GrpcCode::Internal => "internal"@,
        GrpcCode::Unavailable => "unavailable"@,
        GrpcCode::DataLoss => "data_loss"@,
        GrpcCode::Unauthenticated => "unauthenticated"@,
    }
}

pub fn code_as_str(code: GrpcCode) -> (r: &'static str)
    ensures
        r@ == code_label(code),
{
    match code {
        GrpcCode::Okay => "ok",
        GrpcCode::Cancelled => "cancelled",
        GrpcCode::Unknown => "unknown",
        GrpcCode::InvalidArgument => "invalid_argument",
        GrpcCode::DeadlineExceeded => "deadline_exceeded",
        GrpcCode::NotFound => "not_found",
        GrpcCode::AlreadyExists => "already_exists",
        GrpcCode::PermissionDenied => "permission_denied",
        GrpcCode::ResourceExhausted => "resource_exhausted",
        GrpcCode::FailedPrecondition => "failed_precondition",
        GrpcCode::Aborted => "aborted",
        GrpcCode::OutOfRange => "out_of_range",
        GrpcCode::Unimplemented => "unimplemented",
        GrpcCode::Internal => "internal",
        GrpcCode::Unavailable => "unavailable",
        GrpcCode::DataLoss => "data_loss",
        GrpcCode::Unauthenticated => "unauthenticated",
    }
}

/// Bounds on retrying: how many retries, where backoff starts, where it is
/// capped.
#[derive(Debug, Clone, Copy)]
pub struct RetryConfig {
    /// Maximum retry attempts after the first call; zero means no retries.
    pub max_retries: u32,
    /// Backoff before the first retry, in milliseconds.
    pub initial_backoff_ms: u64,
    /// Cap on the exponentially growing backoff, in milliseconds.
    pub max_backoff_ms: u64,
}

/// Whether a failed attempt is followed by another: only while attempts
/// remain and only for a transient code.
pub fn should_retry(config: &RetryConfig, attempt: u32, code: GrpcCode) -> (r: bool)
    ensures
        r == (attempt < config.max_retries && retryable(code)),
{
    attempt < config.max_retries && is_retryable(code)
}

/// The sleep before a retry: half the current delay plus a random draw of
/// at most that half, so the sleep lands in [delay/2, delay].
pub fn jittered_delay_ms(delay_ms: u64, draw: u64) -> (r: u64)
    requires
        draw <= delay_ms / 2,
    ensures
        r == delay_ms / 2 + draw,
        delay_ms / 2 <= r <= delay_ms,
{
    delay_ms / 2 + draw
}

/// The next delay: doubled, capped at the configured maximum.
pub fn next_backoff_ms(delay_ms: u64, config: &RetryConfig) -> (r: u64)
    ensures
        r as int == (if 2 * (delay_ms as int) < config.max_backoff_ms as int {
            2 * (delay_ms as int)
        } else {
            config.max_backoff_ms as int
        }),
{
    match delay_ms.checked_mul(2) {
        Some(d) => if d < config.max_backoff_ms {
            d
        } else {
            config.max_backoff_ms
        },
        None => config.max_backoff_ms,
    }
}

} // verus!
