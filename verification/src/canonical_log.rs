//! Per-request canonical log line and its two propagation scopes.
//!
//! One request owns one [`FlagsCanonicalLogLine`]; code reaches it through a
//! scope context ([`LogScopes`]) with two slots: the task slot, bound to the
//! async request task, and the pool slot, bound to one parallel-evaluation
//! worker invocation. [`with_canonical_log`] applies a mutation with the
//! task slot taking precedence, and is a silent no-op outside both scopes —
//! telemetry is best-effort. Pool fragments are merged back by
//! [`FlagsCanonicalLogLine::merge_rayon_delta`], which sums counters, ORs
//! booleans, and never touches request-identity fields.

use vstd::prelude::*;
use vstd::string::StrSliceExecFns;

use crate::clock::now_millis;
use crate::errors::FlagError;
use crate::metrics_sink::{HistogramEvent, MetricsSink, FLAG_DB_OPERATIONS_PER_REQUEST};

verus! {

/// Free-text fields are truncated to this many characters at emission.
pub const USER_AGENT_MAX_CHARS: usize = 512;

/// Truncate a string to a maximum number of characters (not bytes), so a
/// multi-byte character is never split mid-sequence.
pub fn truncate_chars(s: &str, max_chars: usize) -> (r: &str)
    ensures
        s@.len() <= max_chars ==> r@ == s@,
        s@.len() > max_chars ==> r@ == s@.take(max_chars as int),
{
    let len = s.unicode_len();
    if len <= max_chars {
        s
    } else {
        s.substring_char(0, max_chars)
    }
}

/// Accumulates data throughout one request lifecycle for canonical logging:
/// a single comprehensive record emitted at request completion.
///
/// Request-identity fields (`request_id` through `anon_distinct_id`, the
/// timings, `http_status`, `error_code`) are set once by the owning task and
/// never touched by a pool merge. Evaluation-counter fields may be
/// contributed from either concurrency domain and are merged by summing and
/// ORing.
#[derive(Debug, Clone, PartialEq)]
pub struct FlagsCanonicalLogLine {
    // Request identification
    pub request_id: u128,
    pub ip: String,
    /// Milliseconds since the Unix epoch when the log was created.
    pub start_ms: i64,
    // Request metadata
    pub user_agent: Option<String>,
    pub lib: Option<&'static str>,
    pub lib_version: Option<String>,
    pub api_version: Option<String>,
    // Populated during authentication
    pub team_id: Option<i32>,
    pub distinct_id: Option<String>,
    pub device_id: Option<String>,
    pub anon_distinct_id: Option<String>,
    // Populated during flag evaluation
    pub flags_evaluated: usize,
    pub flags_experience_continuity: usize,
    pub flags_device_id_bucketing: usize,
    pub flags_disabled: bool,
    pub quota_limited: bool,
    pub flags_cache_source: Option<&'static str>,
    // Deep evaluation metrics
    pub db_property_fetches: usize,
    pub person_queries: usize,
    pub group_queries: usize,
    pub static_cohort_queries: usize,
    pub person_query_time_ms: u64,
    pub group_query_time_ms: u64,
    pub cohort_query_time_ms: u64,
    pub property_cache_hits: usize,
    pub property_cache_misses: usize,
    pub person_properties_not_cached: bool,
    pub group_properties_not_cached: bool,
    pub cohorts_evaluated: usize,
    pub flags_errored: usize,
    pub dependency_graph_errors: usize,
    pub hash_key_override_status: Option<&'static str>,
    // Rate limiting
    pub rate_limited: bool,
    // Cache sources
    pub team_cache_source: Option<&'static str>,
    // Outcome
    pub http_status: u16,
    pub error_code: Option<&'static str>,
}

/// All fields at their zero values: empty identity, zeroed counters, status
/// 200. Pool fragments start in exactly this state.
pub open spec fn is_default_log(l: FlagsCanonicalLogLine) -> bool {
    &&& l.request_id == 0
    &&& l.ip@ == Seq::<char>::empty()
    &&& l.start_ms == 0
    &&& l.user_agent is None
    &&& l.lib is None
    &&& l.lib_version is None
    &&& l.api_version is None
    &&& l.team_id is None
    &&& l.distinct_id is None
    &&& l.device_id is None
    &&& l.anon_distinct_id is None
    &&& l.flags_evaluated == 0
    &&& l.flags_experience_continuity == 0
    &&& l.flags_device_id_bucketing == 0
    &&& !l.flags_disabled
    &&& !l.quota_limited
    &&& l.flags_cache_source is None
    &&& l.db_property_fetches == 0
    &&& l.person_queries == 0
    &&& l.group_queries == 0
    &&& l.static_cohort_queries == 0
    &&& l.person_query_time_ms == 0
    &&& l.group_query_time_ms == 0
    &&& l.cohort_query_time_ms == 0
    &&& l.property_cache_hits == 0
    &&& l.property_cache_misses == 0
    &&& !l.person_properties_not_cached
    &&& !l.group_properties_not_cached
    &&& l.cohorts_evaluated == 0
    &&& l.flags_errored == 0
    &&& l.dependency_graph_errors == 0
    &&& l.hash_key_override_status is None
    &&& !l.rate_limited
    &&& l.team_cache_source is None
    &&& l.http_status == 200
    &&& l.error_code is None
}

impl Default for FlagsCanonicalLogLine {
    fn default() -> (r: Self)
        ensures
            is_default_log(r),
    {
        FlagsCanonicalLogLine {
            request_id: 0,
            ip: String::new(),
            start_ms: 0,
            user_agent: None,
            lib: None,
            lib_version: None,
            api_version: None,
            team_id: None,
            distinct_id: None,
            device_id: None,
            anon_distinct_id: None,
            flags_evaluated: 0,
            flags_experience_continuity: 0,
            flags_device_id_bucketing: 0,
            flags_disabled: false,
            quota_limited: false,
            flags_cache_source: None,
            db_property_fetches: 0,
            person_queries: 0,
            group_queries: 0,
            static_cohort_queries: 0,
            person_query_time_ms: 0,
            group_query_time_ms: 0,
            cohort_query_time_ms: 0,
            property_cache_hits: 0,
            property_cache_misses: 0,
            person_properties_not_cached: false,
            group_properties_not_cached: false,
            cohorts_evaluated: 0,
            flags_errored: 0,
            dependency_graph_errors: 0,
            hash_key_override_status: None,
            rate_limited: false,
            team_cache_source: None,
            http_status: 200,
            error_code: None,
        }
    }
}

/// The structured record produced by [`FlagsCanonicalLogLine::emit`]: the
/// log line with its free text already truncated, plus the elapsed time.
/// The host renders it to its structured log sink.
#[derive(Debug, Clone, PartialEq)]
pub struct CanonicalRecord {
    pub line: FlagsCanonicalLogLine,
    pub duration_ms: u64,
}

/// The two optional strings hold the same characters, or are both absent.
pub open spec fn opt_string_like(a: Option<String>, b: Option<String>) -> bool {
    match (a, b) {
        (Some(x), Some(y)) => x@ == y@,
        (None, None) => true,
        _ => false,
    }
}

/// How an emitted line relates to the log it came from: the same characters
/// in every field, except that `user_agent` is truncated to
/// [`USER_AGENT_MAX_CHARS`] characters.
pub open spec fn emitted_line_ok(source: FlagsCanonicalLogLine, line: FlagsCanonicalLogLine) -> bool {
    &&& line.request_id == source.request_id
    &&& line.ip@ == source.ip@
    &&& line.start_ms == source.start_ms
    &&& line.lib == source.lib
    &&& opt_string_like(line.lib_version, source.lib_version)
    &&& opt_string_like(line.api_version, source.api_version)
    &&& line.team_id == source.team_id
    &&& opt_string_like(line.distinct_id, source.distinct_id)
    &&& opt_string_like(line.device_id, source.device_id)
    &&& opt_string_like(line.anon_distinct_id, source.anon_distinct_id)
    &&& line.flags_evaluated == source.flags_evaluated
    &&& line.flags_experience_continuity == source.flags_experience_continuity
    &&& line.flags_device_id_bucketing == source.flags_device_id_bucketing
    &&& line.flags_disabled == source.flags_disabled
    &&& line.quota_limited == source.quota_limited
    &&& line.flags_cache_source == source.flags_cache_source
    &&& line.db_property_fetches == source.db_property_fetches
    &&& line.person_queries == source.person_queries
    &&& line.group_queries == source.group_queries
    &&& line.static_cohort_queries == source.static_cohort_queries
    &&& line.person_query_time_ms == source.person_query_time_ms
    &&& line.group_query_time_ms == source.group_query_time_ms
    &&& line.cohort_query_time_ms == source.cohort_query_time_ms
    &&& line.property_cache_hits == source.property_cache_hits
    &&& line.property_cache_misses == source.property_cache_misses
    &&& line.person_properties_not_cached == source.person_properties_not_cached
    &&& line.group_properties_not_cached == source.group_properties_not_cached
    &&& line.cohorts_evaluated == source.cohorts_evaluated
    &&& line.flags_errored == source.flags_errored
    &&& line.dependency_graph_errors == source.dependency_graph_errors
    &&& line.hash_key_override_status == source.hash_key_override_status
    &&& line.rate_limited == source.rate_limited
    &&& line.team_cache_source == source.team_cache_source
    &&& line.http_status == source.http_status
    &&& line.error_code == source.error_code
    &&& match (source.user_agent, line.user_agent) {
        (Some(ua), Some(t)) => if ua@.len() <= USER_AGENT_MAX_CHARS {
            t@ == ua@
        } else {
            t@ == ua@.take(USER_AGENT_MAX_CHARS as int)
        },
        (None, None) => true,
        _ => false,
    }
}

/// Elapsed milliseconds between two clock readings, clamped to `u64`.
pub open spec fn duration_spec(start_ms: i64, now_ms: i64) -> u64 {
    if now_ms <= start_ms {
        0u64
    } else if now_ms - start_ms > u64::MAX {
        u64::MAX
    } else {
        (now_ms - start_ms) as u64
    }
}

impl FlagsCanonicalLogLine {
    /// A fresh log for one request, with the start time read from the clock.
    pub fn new(request_id: u128, ip: String) -> (r: Self)
        ensures
            r.request_id == request_id,
            r.ip@ == ip@,
            r.user_agent is None,
            r.lib is None,
            r.lib_version is None,
            r.api_version is None,
            r.team_id is None,
            r.distinct_id is None,
            r.device_id is None,
            r.anon_distinct_id is None,
            r.flags_evaluated == 0,
            r.flags_experience_continuity == 0,
            r.flags_device_id_bucketing == 0,
            !r.flags_disabled,
            !r.quota_limited,
            r.flags_cache_source is None,
            r.db_property_fetches == 0,
            r.person_queries == 0,
            r.group_queries == 0,
            r.static_cohort_queries == 0,
            r.person_query_time_ms == 0,
            r.group_query_time_ms == 0,
            r.cohort_query_time_ms == 0,
            r.property_cache_hits == 0,
            r.property_cache_misses == 0,
            !r.person_properties_not_cached,
            !r.group_properties_not_cached,
            r.cohorts_evaluated == 0,
            r.flags_errored == 0,
            r.dependency_graph_errors == 0,
            r.hash_key_override_status is None,
            !r.rate_limited,
            r.team_cache_source is None,
            r.http_status == 200,
            r.error_code is None,
    {
        let start_ms = now_millis();
        let mut r = FlagsCanonicalLogLine::default();
        r.request_id = request_id;
        r.ip = ip;
        r.start_ms = start_ms;
        r
    }

    /// Render the record as of the given clock reading: every field of the
    /// log, with `user_agent` truncated and the elapsed time computed.
    pub fn emit_at(&self, now_ms: i64) -> (r: CanonicalRecord)
        ensures
            emitted_line_ok(*self, r.line),
            r.duration_ms == duration_spec(self.start_ms, now_ms),
    {
        let duration_ms: u64 = if now_ms <= self.start_ms {
            0
        } else {
            let diff: i128 = (now_ms as i128) - (self.start_ms as i128);
            if diff > u64::MAX as i128 {
                u64::MAX
            } else {
                diff as u64
            }
        };
        let user_agent: Option<String> = match &self.user_agent {
            Some(ua) => Some(truncate_chars(ua.as_str(), USER_AGENT_MAX_CHARS).to_owned()),
            None => None,
        };
        let mut line = self.clone_fields();
        line.user_agent = user_agent;
        CanonicalRecord { line, duration_ms }
    }

    /// The terminal operation: render the record with the elapsed time read
    /// from the clock. Safe to call on a log with no identity fields set.
    pub fn emit(&self) -> (r: CanonicalRecord)
        ensures
            emitted_line_ok(*self, r.line),
    {
        let now_ms = now_millis();
        self.emit_at(now_ms)
    }

    /// A field-for-field copy with a known contract (a derived clone says
    /// nothing about its result).
    pub fn clone_fields(&self) -> (r: Self)
        ensures
            (r == FlagsCanonicalLogLine { ip: r.ip, user_agent: r.user_agent, lib_version: r.lib_version, api_version: r.api_version, distinct_id: r.distinct_id, device_id: r.device_id, anon_distinct_id: r.anon_distinct_id, ..*self }),
            r.ip@ == self.ip@,
            (match (r.user_agent, self.user_agent) {
                (Some(a), Some(b)) => a@ == b@,
                (None, None) => true,
                _ => false,
            }),
            (match (r.lib_version, self.lib_version) {
                (Some(a), Some(b)) => a@ == b@,
                (None, None) => true,
                _ => false,
            }),
            (match (r.api_version, self.api_version) {
                (Some(a), Some(b)) => a@ == b@,
                (None, None) => true,
                _ => false,
            }),
            (match (r.distinct_id, self.distinct_id) {
                (Some(a), Some(b)) => a@ == b@,
                (None, None) => true,
                _ => false,
            }),
            (match (r.device_id, self.device_id) {
                (Some(a), Some(b)) => a@ == b@,
                (None, None) => true,
                _ => false,
            }),
            (match (r.anon_distinct_id, self.anon_distinct_id) {
                (Some(a), Some(b)) => a@ == b@,
                (None, None) => true,
                _ => false,
            }),
    {
        FlagsCanonicalLogLine {
            request_id: self.request_id,
            ip: clone_string(&self.ip),
            start_ms: self.start_ms,
            user_agent: clone_opt_string(&self.user_agent),
            lib: self.lib,
            lib_version: clone_opt_string(&self.lib_version),
            api_version: clone_opt_string(&self.api_version),
            team_id: self.team_id,
            distinct_id: clone_opt_string(&self.distinct_id),
            device_id: clone_opt_string(&self.device_id),
            anon_distinct_id: clone_opt_string(&self.anon_distinct_id),
            flags_evaluated: self.flags_evaluated,
            flags_experience_continuity: self.flags_experience_continuity,
            flags_device_id_bucketing: self.flags_device_id_bucketing,
            flags_disabled: self.flags_disabled,
            quota_limited: self.quota_limited,
            flags_cache_source: self.flags_cache_source,
            db_property_fetches: self.db_property_fetches,
            person_queries: self.person_queries,
            group_queries: self.group_queries,
            static_cohort_queries: self.static_cohort_queries,
            person_query_time_ms: self.person_query_time_ms,
            group_query_time_ms: self.group_query_time_ms,
            cohort_query_time_ms: self.cohort_query_time_ms,
            property_cache_hits: self.property_cache_hits,
            property_cache_misses: self.property_cache_misses,
            person_properties_not_cached: self.person_properties_not_cached,
            group_properties_not_cached: self.group_properties_not_cached,
            cohorts_evaluated: self.cohorts_evaluated,
            flags_errored: self.flags_errored,
            dependency_graph_errors: self.dependency_graph_errors,
            hash_key_override_status: self.hash_key_override_status,
            rate_limited: self.rate_limited,
            team_cache_source: self.team_cache_source,
            http_status: self.http_status,
            error_code: self.error_code,
        }
    }

    /// Observe the per-request database-operation counts into the metrics
    /// sink: one histogram event per operation kind with a nonzero count.
    pub fn emit_db_operations_metrics(&self, metrics: &mut MetricsSink)
        ensures
            final(metrics).histograms@ == old(metrics).histograms@ + self.db_ops_events(),
            final(metrics).counters == old(metrics).counters,
    {
        let ghost before = metrics.histograms@;
        if self.person_queries > 0 {
            metrics.observe(HistogramEvent {
                name: FLAG_DB_OPERATIONS_PER_REQUEST,
                team_id: self.team_id,
                operation: "person_query",
                count: self.person_queries as u64,
            });
        }
        if self.group_queries > 0 {
            metrics.observe(HistogramEvent {
                name: FLAG_DB_OPERATIONS_PER_REQUEST,
                team_id: self.team_id,
                operation: "group_query",
                count: self.group_queries as u64,
            });
        }
        if self.static_cohort_queries > 0 {
            metrics.observe(HistogramEvent {
                name: FLAG_DB_OPERATIONS_PER_REQUEST,
                team_id: self.team_id,
                operation: "cohort_query",
                count: self.static_cohort_queries as u64,
            });
        }
        assert(metrics.histograms@ =~= before + self.db_ops_events());
    }

    /// The histogram events that `emit_db_operations_metrics` appends.
    pub open spec fn db_ops_events(self) -> Seq<HistogramEvent> {
        let person: Seq<HistogramEvent> = if self.person_queries > 0 {
            seq![
                HistogramEvent {
                    name: FLAG_DB_OPERATIONS_PER_REQUEST,
                    team_id: self.team_id,
                    operation: "person_query",
                    count: self.person_queries as u64,
                },
            ]
        } else {
            Seq::empty()
        };
        let group: Seq<HistogramEvent> = if self.group_queries > 0 {
            seq![
                HistogramEvent {
                    name: FLAG_DB_OPERATIONS_PER_REQUEST,
                    team_id: self.team_id,
                    operation: "group_query",
                    count: self.group_queries as u64,
                },
            ]
        } else {
            Seq::empty()
        };
        let cohort: Seq<HistogramEvent> = if self.static_cohort_queries > 0 {
            seq![
                HistogramEvent {
                    name: FLAG_DB_OPERATIONS_PER_REQUEST,
                    team_id: self.team_id,
                    operation: "cohort_query",
                    count: self.static_cohort_queries as u64,
                },
            ]
        } else {
            Seq::empty()
        };
        person + group + cohort
    }

    /// The log with `delta`'s evaluation counters folded in: counters
    /// summed, booleans ORed, and every other field taken from `self`.
    pub open spec fn merge_spec(self, delta: FlagsCanonicalLogLine) -> FlagsCanonicalLogLine {
        FlagsCanonicalLogLine {
            flags_device_id_bucketing: (self.flags_device_id_bucketing
                + delta.flags_device_id_bucketing) as usize,
            cohorts_evaluated: (self.cohorts_evaluated + delta.cohorts_evaluated) as usize,
            property_cache_hits: (self.property_cache_hits + delta.property_cache_hits) as usize,
            property_cache_misses: (self.property_cache_misses
                + delta.property_cache_misses) as usize,
            person_properties_not_cached: self.person_properties_not_cached
                || delta.person_properties_not_cached,
            group_properties_not_cached: self.group_properties_not_cached
                || delta.group_properties_not_cached,
            ..self
        }
    }

    /// Merge evaluation counters accumulated on a pool worker back into this
    /// log. Only evaluation-counter fields are merged; request-identity
    /// fields on `delta` are ignored by construction, so a merge can never
    /// overwrite them, whatever the fragment holds.
    pub fn merge_rayon_delta(&mut self, delta: &FlagsCanonicalLogLine)
        requires
            old(self).flags_device_id_bucketing + delta.flags_device_id_bucketing <= usize::MAX,
            old(self).cohorts_evaluated + delta.cohorts_evaluated <= usize::MAX,
            old(self).property_cache_hits + delta.property_cache_hits <= usize::MAX,
            old(self).property_cache_misses + delta.property_cache_misses <= usize::MAX,
        ensures
            *final(self) == old(self).merge_spec(*delta),
            final(self).request_id == old(self).request_id,
            final(self).team_id == old(self).team_id,
            final(self).ip == old(self).ip,
            final(self).flags_evaluated == old(self).flags_evaluated,
            final(self).http_status == old(self).http_status,
    {
        self.flags_device_id_bucketing = self.flags_device_id_bucketing
            + delta.flags_device_id_bucketing;
        self.cohorts_evaluated = self.cohorts_evaluated + delta.cohorts_evaluated;
        self.property_cache_hits = self.property_cache_hits + delta.property_cache_hits;
        self.property_cache_misses = self.property_cache_misses + delta.property_cache_misses;
        self.person_properties_not_cached = self.person_properties_not_cached
            || delta.person_properties_not_cached;
        self.group_properties_not_cached = self.group_properties_not_cached
            || delta.group_properties_not_cached;
    }

    /// Populate the error fields from a typed error without emitting.
    pub fn set_error(&mut self, error: &FlagError)
        ensures
            (*final(self) == FlagsCanonicalLogLine {
                http_status: final(self).http_status,
                error_code: final(self).error_code,
                ..*old(self)
            }),
            final(self).http_status == error.status_code_spec(),
            (final(self).error_code matches Some(c) && c@ == error.error_code_spec()),
    {
        self.http_status = error.status_code();
        self.error_code = Some(error.error_code());
    }

    /// Populate the error fields from a typed error and render the record.
    pub fn emit_for_error(&mut self, error: &FlagError) -> (r: CanonicalRecord)
        ensures
            (*final(self) == FlagsCanonicalLogLine {
                http_status: final(self).http_status,
                error_code: final(self).error_code,
                ..*old(self)
            }),
            final(self).http_status == error.status_code_spec(),
            (final(self).error_code matches Some(c) && c@ == error.error_code_spec()),
            emitted_line_ok(*final(self), r.line),
    {
        self.set_error(error);
        self.emit()
    }
}

/// A `String` copy whose contract says the characters are kept.
fn clone_string(s: &String) -> (r: String)
    ensures
        r@ == s@,
{
    s.as_str().to_owned()
}

/// An `Option<String>` copy whose contract says the characters are kept.
fn clone_opt_string(s: &Option<String>) -> (r: Option<String>)
    ensures
        match (r, s) {
            (Some(a), Some(b)) => a@ == b@,
            (None, None) => true,
            _ => false,
        },
{
    match s {
        Some(v) => Some(v.as_str().to_owned()),
        None => None,
    }
}

/// The two scope slots a request's code can reach a canonical log through.
///
/// The task slot models task-scoped storage: it is populated for the
/// duration of one scoped run and always takes precedence. The pool slot
/// models thread-scoped storage on a parallel-evaluation worker, reachable
/// only when no task scope is active.
#[derive(Debug, Clone, PartialEq)]
pub struct LogScopes {
    pub task_slot: Option<FlagsCanonicalLogLine>,
    pub pool_slot: Option<FlagsCanonicalLogLine>,
}

impl LogScopes {
    /// A context with neither scope active.
    pub fn new() -> (r: Self)
        ensures
            r.task_slot is None,
            r.pool_slot is None,
    {
        LogScopes { task_slot: None, pool_slot: None }
    }
}

/// Apply a mutation to the canonical log in scope, if any: the task slot if
/// one is active, else the pool slot, else silently nothing. Code outside
/// any scope must never panic or error — telemetry is best-effort.
pub fn with_canonical_log<F: FnOnce(FlagsCanonicalLogLine) -> FlagsCanonicalLogLine>(
    scopes: &mut LogScopes,
    f: F,
)
    requires
        (old(scopes).task_slot is Some ==> call_requires(f, (old(scopes).task_slot->Some_0,))),
        (old(scopes).task_slot is None && old(scopes).pool_slot is Some ==> call_requires(
            f,
            (old(scopes).pool_slot->Some_0,),
        )),
    ensures
        (match old(scopes).task_slot {
            Some(l) => {
                &&& final(scopes).pool_slot == old(scopes).pool_slot
                &&& final(scopes).task_slot matches Some(l2) && call_ensures(f, (l,), l2)
            },
            None => match old(scopes).pool_slot {
                Some(l) => {
                    &&& final(scopes).task_slot is None
                    &&& final(scopes).pool_slot matches Some(l2) && call_ensures(f, (l,), l2)
                },
                None => *final(scopes) == *old(scopes),
            },
        }),
{
    let task = self_take(&mut scopes.task_slot);
    match task {
        Some(l) => {
            scopes.task_slot = Some(f(l));
        },
        None => {
            let pool = self_take(&mut scopes.pool_slot);
            match pool {
                Some(l) => {
                    scopes.pool_slot = Some(f(l));
                },
                None => {},
            }
        },
    }
}

/// `Option::take` under a contract: removes and returns the held value.
fn self_take(slot: &mut Option<FlagsCanonicalLogLine>) -> (r: Option<FlagsCanonicalLogLine>)
    ensures
        r == *old(slot),
        final(slot).is_none(),
{
    slot.take()
}

/// How recording a cache-source label relates the scope context before and
/// after: the log in scope — task slot first, else pool slot — has its
/// `team_cache_source` set to the label and nothing else changed; with no
/// scope active, nothing changes.
pub open spec fn scopes_with_team_source_view(s0: LogScopes, s1: LogScopes, label: Seq<char>) -> bool {
    match s0.task_slot {
        Some(l0) => {
            &&& s1.pool_slot == s0.pool_slot
            &&& match s1.task_slot {
                Some(l1) => l1 == FlagsCanonicalLogLine {
                    team_cache_source: l1.team_cache_source,
                    ..l0
                } && (match l1.team_cache_source {
                    Some(c) => c@ == label,
                    None => false,
                }),
                None => false,
            }
        },
        None => match s0.pool_slot {
            Some(l0) => {
                &&& s1.task_slot is None
                &&& match s1.pool_slot {
                    Some(l1) => l1 == FlagsCanonicalLogLine {
                        team_cache_source: l1.team_cache_source,
                        ..l0
                    } && (match l1.team_cache_source {
                        Some(c) => c@ == label,
                        None => false,
                    }),
                    None => false,
                }
            },
            None => s1 == s0,
        },
    }
}

/// Record where team metadata came from on the canonical log in scope, task
/// scope first, silently nowhere when no scope is active.
pub fn record_team_cache_source(scopes: &mut LogScopes, label: &'static str)
    ensures
        scopes_with_team_source_view(*old(scopes), *final(scopes), label@),
{
    match &mut scopes.task_slot {
        Some(l) => {
            l.team_cache_source = Some(label);
        },
        None => {
            match &mut scopes.pool_slot {
                Some(l) => {
                    l.team_cache_source = Some(label);
                },
                None => {},
            }
        },
    }
}

/// Install a fresh, zeroed log fragment in the pool slot, replacing any
/// previous fragment, so an invocation always starts from zero. The host's
/// worker wrapper must clear the slot again on every exit path, including a
/// panic of the evaluation it guards.
pub fn install_rayon_canonical_log(scopes: &mut LogScopes)
    ensures
        final(scopes).task_slot == old(scopes).task_slot,
        (final(scopes).pool_slot matches Some(l) && is_default_log(l)),
{
    scopes.pool_slot = Some(FlagsCanonicalLogLine::default());
}

/// Remove and return the pool fragment, if one is installed. A second call
/// returns nothing: the fragment is consumed exactly once.
pub fn take_rayon_canonical_log(scopes: &mut LogScopes) -> (r: Option<FlagsCanonicalLogLine>)
    ensures
        r == old(scopes).pool_slot,
        final(scopes).pool_slot is None,
        final(scopes).task_slot == old(scopes).task_slot,
{
    self_take(&mut scopes.pool_slot)
}

/// Run `f` with `log` installed in the task slot, then extract the
/// accumulated log and restore the outer task scope unchanged. Starting an
/// inner run fully shadows the outer scope and the outer record is untouched
/// by inner mutations, whatever `f` does to the context it is handed.
pub fn run_with_canonical_log<T, F: FnOnce(LogScopes) -> (T, LogScopes)>(
    scopes: LogScopes,
    log: FlagsCanonicalLogLine,
    f: F,
) -> (r: (T, FlagsCanonicalLogLine, LogScopes))
    requires
        call_requires(f, (LogScopes { task_slot: Some(log), pool_slot: scopes.pool_slot },)),
    ensures
        (exists|mid: LogScopes|
            {
                &&& #[trigger] call_ensures(
                    f,
                    (LogScopes { task_slot: Some(log), pool_slot: scopes.pool_slot },),
                    (r.0, mid),
                )
                &&& match mid.task_slot {
                    Some(l) => r.1 == l,
                    None => is_default_log(r.1),
                }
                &&& r.2.pool_slot == mid.pool_slot
            }),
        r.2.task_slot == scopes.task_slot,
{
    let LogScopes { task_slot: outer_task, pool_slot: outer_pool } = scopes;
    let installed = LogScopes { task_slot: Some(log), pool_slot: outer_pool };
    let (value, mid) = f(installed);
    let ghost mid_ghost = mid;
    let LogScopes { task_slot: mid_task, pool_slot: mid_pool } = mid;
    let out_log = match mid_task {
        Some(l) => l,
        None => FlagsCanonicalLogLine::default(),
    };
    let restored = LogScopes { task_slot: outer_task, pool_slot: mid_pool };
    let r = (value, out_log, restored);
    proof {
        assert(call_ensures(
            f,
            (LogScopes { task_slot: Some(log), pool_slot: scopes.pool_slot },),
            (r.0, mid_ghost),
        ));
    }
    r
}

/// The pool fragment protocol round-trips exactly the mutation applied
/// between install and take: installing yields a zeroed fragment, a scoped
/// mutation lands on it when no task scope is active, the first take returns
/// the mutated fragment, and a second take returns nothing.
pub proof fn lemma_pool_fragment_round_trip(
    s: LogScopes,
    fresh: FlagsCanonicalLogLine,
    m: spec_fn(FlagsCanonicalLogLine) -> FlagsCanonicalLogLine,
)
    requires
        s.task_slot is None,
        is_default_log(fresh),
    ensures
        ({
            let installed = LogScopes { pool_slot: Some(fresh), ..s };
            let mutated = LogScopes { pool_slot: Some(m(fresh)), ..installed };
            let first_take = mutated.pool_slot;
            let after_first = LogScopes { pool_slot: None, ..mutated };
            &&& installed.pool_slot matches Some(l) && is_default_log(l)
            &&& first_take == Some(m(fresh))
            &&& after_first.pool_slot is None
        }),
{
}

/// Merging pool fragments is insensitive to the order in which they are
/// applied: counters sum and booleans OR, so any interleaving of deltas
/// yields the same record.
pub proof fn lemma_merge_commutative(
    a: FlagsCanonicalLogLine,
    d1: FlagsCanonicalLogLine,
    d2: FlagsCanonicalLogLine,
)
    requires
        a.flags_device_id_bucketing + d1.flags_device_id_bucketing
            + d2.flags_device_id_bucketing <= usize::MAX,
        a.cohorts_evaluated + d1.cohorts_evaluated + d2.cohorts_evaluated <= usize::MAX,
        a.property_cache_hits + d1.property_cache_hits + d2.property_cache_hits <= usize::MAX,
        a.property_cache_misses + d1.property_cache_misses + d2.property_cache_misses
            <= usize::MAX,
    ensures
        a.merge_spec(d1).merge_spec(d2) == a.merge_spec(d2).merge_spec(d1),
{
}

/// Merging fragments is associative: folding two deltas into a log one
/// after the other equals folding in their combined delta, so fragments
/// may be pre-combined or applied as they arrive.
pub proof fn lemma_merge_associative(
    a: FlagsCanonicalLogLine,
    d1: FlagsCanonicalLogLine,
    d2: FlagsCanonicalLogLine,
)
    requires
        a.flags_device_id_bucketing + d1.flags_device_id_bucketing
            + d2.flags_device_id_bucketing <= usize::MAX,
        a.cohorts_evaluated + d1.cohorts_evaluated + d2.cohorts_evaluated <= usize::MAX,
        a.property_cache_hits + d1.property_cache_hits + d2.property_cache_hits <= usize::MAX,
        a.property_cache_misses + d1.property_cache_misses + d2.property_cache_misses
            <= usize::MAX,
    ensures
        a.merge_spec(d1).merge_spec(d2) == a.merge_spec(d1.merge_spec(d2)),
{
}

/// Merging a fragment with all counters zero and all booleans false leaves
/// the log unchanged: a worker that recorded nothing contributes nothing.
pub proof fn lemma_merge_zero_delta(a: FlagsCanonicalLogLine, d: FlagsCanonicalLogLine)
    requires
        d.flags_device_id_bucketing == 0,
        d.cohorts_evaluated == 0,
        d.property_cache_hits == 0,
        d.property_cache_misses == 0,
        !d.person_properties_not_cached,
        !d.group_properties_not_cached,
    ensures
        a.merge_spec(d) == a,
{
}

} // verus!
