//! Request-serving core of a feature-flag evaluation service.
//!
//! The crate covers two tightly coupled pieces:
//!
//! * a tiered read-through cache orchestrator ([`flag_service::FlagService`])
//!   that resolves a caller-supplied credential to a team and a team to its
//!   flag set, guarded by a negative cache of known-invalid credentials
//!   ([`negative_cache::NegativeCache`]); and
//! * a per-request telemetry accumulator
//!   ([`canonical_log::FlagsCanonicalLogLine`]) that collects counters from
//!   both the async request task and a parallel evaluation pool, merging pool
//!   fragments back into one record that is emitted once per request.
//!
//! Ambient storage (task-locals, thread-locals) is modelled by an explicit
//! scope context ([`canonical_log::LogScopes`]); the contracts state the
//! precedence and merge rules, which are the actual interface, independent of
//! the storage mechanism a host binds them to.

mod clock;

pub mod app_metrics;
pub mod canonical_log;
pub mod errors;
pub mod flag_service;
pub mod frame;
pub mod metrics_sink;
pub mod negative_cache;
pub mod rate_limiter;
pub mod retry;
pub mod source_bundle;
pub mod storage;
pub mod strutil;

pub use errors::FlagError;
