//! Error taxonomy of the request-serving core.
//!
//! Invalid and unverifiable credentials are collapsed into one caller-facing
//! error shape; the true cause is preserved internally for telemetry through
//! the canonical log's error-code field.

use vstd::prelude::*;

verus! {

/// Typed errors surfaced by the core to the request handler.
#[derive(Debug, Clone, PartialEq, Eq)]
pub enum FlagError {
    /// The supplied credential does not resolve to any team, or could not be
    /// verified. Collapses "not found" and transient backend failures so that
    /// callers cannot distinguish them.
    TokenValidationError,
    /// No credential was supplied with the request.
    NoTokenError,
    /// The request was rejected by rate limiting.
    RateLimited,
    /// No cache tier and no fallback loader could satisfy the lookup.
    BackendUnavailable,
    /// A cache hit or loader result could not be parsed into the expected
    /// entity.
    SerializationError,
    /// A generic internal error with a diagnostic message.
    Internal(String),
}

impl FlagError {
    /// The HTTP-status-like code attached to the canonical log for this error.
    pub open spec fn status_code_spec(&self) -> u16 {
        match self {
            FlagError::TokenValidationError => 401,
            FlagError::NoTokenError => 401,
            FlagError::RateLimited => 429,
            FlagError::BackendUnavailable => 503,
            FlagError::SerializationError => 500,
            FlagError::Internal(_) => 500,
        }
    }

    /// The stable short error-code string attached to the canonical log.
    pub open spec fn error_code_spec(&self) -> Seq<char> {
        match self {
            FlagError::TokenValidationError => "invalid_token"@,
            FlagError::NoTokenError => "missing_token"@,
            FlagError::RateLimited => "rate_limited"@,
            FlagError::BackendUnavailable => "backend_unavailable"@,
            FlagError::SerializationError => "serialization_error"@,
            FlagError::Internal(_) => "internal_error"@,
        }
    }

    /// Whether this error means "no team matches the credential", the only
    /// failure class allowed to populate the negative cache.
    pub open spec fn is_token_not_found_spec(&self) -> bool {
        self is TokenValidationError
    }

    pub fn status_code(&self) -> (r: u16)
        ensures
            r == self.status_code_spec(),
    {
        match self {
            FlagError::TokenValidationError => 401,
            FlagError::NoTokenError => 401,
            FlagError::RateLimited => 429,
            FlagError::BackendUnavailable => 503,
            FlagError::SerializationError => 500,
            FlagError::Internal(_) => 500,
        }
    }

    pub fn error_code(&self) -> (r: &'static str)
        ensures
            r@ == self.error_code_spec(),
    {
        match self {
            FlagError::TokenValidationError => "invalid_token",
            FlagError::NoTokenError => "missing_token",
            FlagError::RateLimited => "rate_limited",
            FlagError::BackendUnavailable => "backend_unavailable",
            FlagError::SerializationError => "serialization_error",
            FlagError::Internal(_) => "internal_error",
        }
    }

    pub fn is_token_not_found(&self) -> (r: bool)
        ensures
            r == self.is_token_not_found_spec(),
    {
        matches!(self, FlagError::TokenValidationError)
    }
}

} // verus!
