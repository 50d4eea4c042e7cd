//! The tiered read-through cache orchestrator.
//!
//! [`FlagService`] resolves a caller-supplied credential to a team and a
//! team to its flag set. The tiered cache itself is an external
//! collaborator: a caller hands each lookup in as a closure that tries the
//! cache tiers and the fallback loader and reports which tier satisfied the
//! request. The orchestrator owns the consistency rules around that lookup:
//! the negative-cache short circuit, the single most important rule that
//! only an authoritative not-found ever populates the negative cache, the
//! collapse of every failure into one caller-facing error, and the
//! telemetry recorded along the way.

use vstd::prelude::*;

use crate::canonical_log::{record_team_cache_source, scopes_with_team_source_view, LogScopes};
use crate::errors::FlagError;
use crate::metrics_sink::{
    counter_event_is, MetricsSink, TEAM_CACHE_HIT_COUNTER, TEAM_NEGATIVE_CACHE_HIT_COUNTER,
    TOKEN_VALIDATION_ERRORS_COUNTER,
};
use crate::negative_cache::NegativeCache;

verus! {

/// Numeric identity of a tenant.
pub type TeamId = i32;

/// A tenant: fetched, never created, by this core.
#[derive(Debug, Clone, PartialEq)]
pub struct Team {
    pub id: TeamId,
    /// The credential that authenticates the team.
    pub api_token: String,
    pub name: String,
}

/// One flag definition, scoped to one team.
#[derive(Debug, Clone, PartialEq)]
pub struct FeatureFlag {
    pub id: i32,
    pub team_id: TeamId,
    pub name: Option<String>,
    pub key: String,
    pub deleted: bool,
    pub active: bool,
}

/// The ordered flag definitions of one team.
#[derive(Debug, Clone, PartialEq)]
pub struct FeatureFlagList {
    pub flags: Vec<FeatureFlag>,
}

/// Which tier ultimately satisfied a lookup: the fast tier, the secondary
/// tier, or the fallback loader against the primary store.
#[derive(Debug, Clone, Copy, PartialEq, Eq, Structural)]
pub enum CacheSource {
    Redis,
    S3,
    Fallback,
}

impl CacheSource {
    /// The label attached to the canonical log for this source.
    pub open spec fn log_label_view(self) -> Seq<char> {
        match self {
            CacheSource::Redis => "redis"@,
            CacheSource::S3 => "s3"@,
            CacheSource::Fallback => "fallback"@,
        }
    }

    pub fn as_log_str(&self) -> (r: &'static str)
        ensures
            r@ == self.log_label_view(),
    {
        match self {
            CacheSource::Redis => "redis",
            CacheSource::S3 => "s3",
            CacheSource::Fallback => "fallback",
        }
    }
}

/// Why a tiered lookup produced no value. Only `NotFound` is authoritative
/// — the key definitely resolves to nothing; the other two may be
/// transient.
#[derive(Debug, Clone, Copy, PartialEq, Eq, Structural)]
pub enum LookupFailure {
    /// The authoritative store answered: no such entity.
    NotFound,
    /// No tier and no fallback loader could be reached.
    BackendUnavailable,
    /// A cache hit or loader result could not be parsed.
    SerializationError,
}

/// What a tiered team lookup hands back.
pub type TeamLookup = Result<(Team, CacheSource), LookupFailure>;

/// What a tiered flag-set lookup hands back.
pub type FlagsLookup = Result<(FeatureFlagList, CacheSource), LookupFailure>;

/// Result of fetching feature flags, including cache source information.
#[derive(Debug, Clone, PartialEq)]
pub struct FlagResult {
    pub flag_list: FeatureFlagList,
    pub cache_source: CacheSource,
}

/// The caller-facing error for a failed team lookup.
pub open spec fn team_failure_error(f: LookupFailure) -> FlagError {
    match f {
        LookupFailure::NotFound => FlagError::TokenValidationError,
        LookupFailure::BackendUnavailable => FlagError::BackendUnavailable,
        LookupFailure::SerializationError => FlagError::SerializationError,
    }
}

/// The caller-facing error for a failed flag-set lookup: an exhausted
/// lookup means no backend could serve the request.
pub open spec fn flags_failure_error(f: LookupFailure) -> FlagError {
    match f {
        LookupFailure::NotFound => FlagError::BackendUnavailable,
        LookupFailure::BackendUnavailable => FlagError::BackendUnavailable,
        LookupFailure::SerializationError => FlagError::SerializationError,
    }
}

/// What a flag-set fetch returns for each possible lookup outcome.
pub open spec fn flags_lookup_spec(out: FlagsLookup) -> Result<FlagResult, FlagError> {
    match out {
        Ok((flags, source)) => Ok(FlagResult { flag_list: flags, cache_source: source }),
        Err(f) => Err(flags_failure_error(f)),
    }
}

/// The metrics appended by a team lookup that produced a value: one
/// cache-hit counter, labelled `true` unless the fallback loader was used.
pub open spec fn team_hit_counter_appended(m0: MetricsSink, m1: MetricsSink, source: CacheSource) -> bool {
    &&& m1.histograms == m0.histograms
    &&& m1.counters@.len() == m0.counters@.len() + 1
    &&& m1.counters@.take(m0.counters@.len() as int) == m0.counters@
    &&& counter_event_is(
        m1.counters@.last(),
        TEAM_CACHE_HIT_COUNTER@,
        Some(
            (
                "cache_hit"@,
                if source is Fallback {
                    "false"@
                } else {
                    "true"@
                },
            ),
        ),
        1,
    )
}

/// The metrics appended when a credential is served from the negative
/// cache: a negative-cache hit and a validation error, in that order.
pub open spec fn negative_hit_metrics(m0: MetricsSink, m1: MetricsSink) -> bool {
    &&& m1.histograms == m0.histograms
    &&& m1.counters@.len() == m0.counters@.len() + 2
    &&& m1.counters@.take(m0.counters@.len() as int) == m0.counters@
    &&& counter_event_is(
        m1.counters@[m0.counters@.len() as int],
        TEAM_NEGATIVE_CACHE_HIT_COUNTER@,
        None,
        1,
    )
    &&& counter_event_is(
        m1.counters@[m0.counters@.len() as int + 1],
        TOKEN_VALIDATION_ERRORS_COUNTER@,
        Some(("reason"@, "token_not_found"@)),
        1,
    )
}

/// The metrics appended when a credential is found invalid by the backend:
/// one validation-error counter.
pub open spec fn token_not_found_counter_appended(m0: MetricsSink, m1: MetricsSink) -> bool {
    &&& m1.histograms == m0.histograms
    &&& m1.counters@.len() == m0.counters@.len() + 1
    &&& m1.counters@.take(m0.counters@.len() as int) == m0.counters@
    &&& counter_event_is(
        m1.counters@.last(),
        TOKEN_VALIDATION_ERRORS_COUNTER@,
        Some(("reason"@, "token_not_found"@)),
        1,
    )
}

/// How a team fetch relates its lookup outcome to its result, the scope
/// context and the metrics: a value is returned as-is with its source
/// recorded and counted; a failure maps to its typed error with nothing
/// else touched.
pub open spec fn team_lookup_post(
    out: TeamLookup,
    r: Result<Team, FlagError>,
    s0: LogScopes,
    s1: LogScopes,
    m0: MetricsSink,
    m1: MetricsSink,
) -> bool {
    match out {
        Ok((team, source)) => {
            &&& r == Ok::<Team, FlagError>(team)
            &&& scopes_with_team_source_view(s0, s1, source.log_label_view())
            &&& team_hit_counter_appended(m0, m1, source)
        },
        Err(f) => {
            &&& r == Err::<Team, FlagError>(team_failure_error(f))
            &&& s1 == s0
            &&& m1 == m0
        },
    }
}

/// What a failed credential resolution does to the negative cache and the
/// metrics: an authoritative not-found — and only that — caches the token
/// and counts a validation error; a transient failure changes nothing.
pub open spec fn verify_failure_post(
    f: LookupFailure,
    token: Seq<char>,
    now_ms: i64,
    c0: NegativeCache,
    c1: NegativeCache,
    m0: MetricsSink,
    m1: MetricsSink,
) -> bool {
    if f is NotFound {
        &&& c1.spec_has(token)
        &&& (now_ms < i64::MAX ==> c1.spec_contains(token, now_ms))
        &&& (forall|t: Seq<char>| #[trigger] c1.spec_has(t) ==> t == token || c0.spec_has(t))
        &&& token_not_found_counter_appended(m0, m1)
    } else {
        &&& c1 == c0
        &&& m1 == m0
    }
}

/// How credential resolution relates its lookup outcome to everything it
/// touches, on the path where the negative cache did not answer.
pub open spec fn verify_post(
    out: TeamLookup,
    token: Seq<char>,
    now_ms: i64,
    r: Result<Team, FlagError>,
    c0: NegativeCache,
    c1: NegativeCache,
    s0: LogScopes,
    s1: LogScopes,
    m0: MetricsSink,
    m1: MetricsSink,
) -> bool {
    match out {
        Ok((team, source)) => {
            &&& r == Ok::<Team, FlagError>(team)
            &&& c1 == c0
            &&& scopes_with_team_source_view(s0, s1, source.log_label_view())
            &&& team_hit_counter_appended(m0, m1, source)
        },
        Err(f) => {
            &&& r == Err::<Team, FlagError>(FlagError::TokenValidationError)
            &&& s1 == s0
            &&& verify_failure_post(f, token, now_ms, c0, c1, m0, m1)
        },
    }
}

/// How the credential-echoing entry point relates its lookup outcome to
/// everything it touches, on the path where the negative cache did not
/// answer: the same effects as full resolution, with the token echoed back
/// in place of the team.
pub open spec fn verify_token_post(
    out: TeamLookup,
    token: Seq<char>,
    now_ms: i64,
    r: Result<String, FlagError>,
    c0: NegativeCache,
    c1: NegativeCache,
    s0: LogScopes,
    s1: LogScopes,
    m0: MetricsSink,
    m1: MetricsSink,
) -> bool {
    match out {
        Ok((team, source)) => {
            &&& r matches Ok(s) && s@ == token
            &&& c1 == c0
            &&& scopes_with_team_source_view(s0, s1, source.log_label_view())
            &&& team_hit_counter_appended(m0, m1, source)
        },
        Err(f) => {
            &&& r == Err::<String, FlagError>(FlagError::TokenValidationError)
            &&& s1 == s0
            &&& verify_failure_post(f, token, now_ms, c0, c1, m0, m1)
        },
    }
}

/// Service layer for credential resolution and flag-set fetching.
///
/// Owns the negative cache of invalid credentials. The tiered cache readers
/// and the primary-store fallback loaders are external collaborators: each
/// call takes the lookup as a closure invoked at most once.
pub struct FlagService {
    team_negative_cache: NegativeCache,
}

impl FlagService {
    /// The negative cache as the contracts see it.
    pub closed spec fn negative(self) -> NegativeCache {
        self.team_negative_cache
    }

    pub open spec fn wf(self) -> bool {
        self.negative().wf()
    }

    pub fn new(team_negative_cache: NegativeCache) -> (r: Self)
        requires
            team_negative_cache.wf(),
        ensures
            r.wf(),
            r.negative() == team_negative_cache,
    {
        FlagService { team_negative_cache }
    }

    /// Whether a credential is currently cached as invalid, at the given
    /// instant.
    pub fn negative_cache_contains_at(&self, token: &str, now_ms: i64) -> (r: bool)
        ensures
            r == self.negative().spec_contains(token@, now_ms),
    {
        self.team_negative_cache.contains_at(token, now_ms)
    }

    /// Whether a credential has an entry in the negative cache, live or
    /// expired.
    pub fn negative_cache_has(&self, token: &str) -> (r: bool)
        ensures
            r ==> self.negative().spec_has(token@),
            !self.negative().spec_has(token@) ==> !r,
    {
        self.team_negative_cache.contains(token)
    }

    /// Fetch the team for a credential from the tiered cache or, on a total
    /// miss, the primary store — both behind the `reader` closure. On
    /// success the cache source is recorded on the canonical log in scope
    /// and a cache-hit counter is emitted; on failure the typed error
    /// propagates untouched.
    pub fn get_team_from_cache_or_pg<F: FnOnce() -> TeamLookup>(
        &self,
        token: &str,
        reader: F,
        scopes: &mut LogScopes,
        metrics: &mut MetricsSink,
    ) -> (r: Result<Team, FlagError>)
        requires
            call_requires(reader, ()),
        ensures
            (exists|out: TeamLookup|
                #[trigger] call_ensures(reader, (), out) && team_lookup_post(
                    out,
                    r,
                    *old(scopes),
                    *final(scopes),
                    *old(metrics),
                    *final(metrics),
                )),
    {
        let out = reader();
        let ghost gout = out;
        match out {
            Ok((team, source)) => {
                let label = source.as_log_str();
                record_team_cache_source(scopes, label);
                let hit_label: &'static str = if matches!(source, CacheSource::Fallback) {
                    "false"
                } else {
                    "true"
                };
                metrics.inc(TEAM_CACHE_HIT_COUNTER, Some(("cache_hit", hit_label)), 1);
                let r: Result<Team, FlagError> = Ok(team);
                proof {
                    assert(metrics.counters@.take(old(metrics).counters@.len() as int)
                        =~= old(metrics).counters@);
                    assert(team_lookup_post(gout, r, *old(scopes), *scopes, *old(metrics), *metrics));
                }
                r
            },
            Err(f) => {
                let r: Result<Team, FlagError> = match f {
                    LookupFailure::NotFound => Err(FlagError::TokenValidationError),
                    LookupFailure::BackendUnavailable => Err(FlagError::BackendUnavailable),
                    LookupFailure::SerializationError => Err(FlagError::SerializationError),
                };
                proof {
                    assert(team_lookup_post(gout, r, *old(scopes), *scopes, *old(metrics), *metrics));
                }
                r
            },
        }
    }

    /// Resolve a credential to its team.
    ///
    /// A credential cached as invalid is rejected at once, with zero
    /// backend work. Otherwise the tiered lookup runs; an authoritative
    /// not-found — and only that — populates the negative cache. Every
    /// failure surfaces as the same caller-facing error, so callers cannot
    /// distinguish a bad credential from a backend outage; the true cause
    /// stays in telemetry.
    pub fn verify_token_and_get_team<F: FnOnce() -> TeamLookup>(
        &mut self,
        token: &str,
        reader: F,
        scopes: &mut LogScopes,
        metrics: &mut MetricsSink,
        now_ms: i64,
    ) -> (r: Result<Team, FlagError>)
        requires
            old(self).wf(),
            call_requires(reader, ()),
        ensures
            final(self).wf(),
            (old(self).negative().spec_contains(token@, now_ms) ==> {
                &&& r == Err::<Team, FlagError>(FlagError::TokenValidationError)
                &&& *final(self) == *old(self)
                &&& scopes_with_team_source_view(
                    *old(scopes),
                    *final(scopes),
                    "negative_cache"@,
                )
                &&& negative_hit_metrics(*old(metrics), *final(metrics))
            }),
            (!old(self).negative().spec_contains(token@, now_ms) ==> (exists|out: TeamLookup|
                #[trigger] call_ensures(reader, (), out) && verify_post(
                    out,
                    token@,
                    now_ms,
                    r,
                    old(self).negative(),
                    final(self).negative(),
                    *old(scopes),
                    *final(scopes),
                    *old(metrics),
                    *final(metrics),
                ))),
            (forall|t: Seq<char>|
                #[trigger] final(self).negative().spec_has(t) ==> t == token@ || old(
                    self,
                ).negative().spec_has(t)),
            (r is Ok ==> *final(self) == *old(self)),
    {
        if self.team_negative_cache.contains_at(token, now_ms) {
            record_team_cache_source(scopes, "negative_cache");
            metrics.inc(TEAM_NEGATIVE_CACHE_HIT_COUNTER, None, 1);
            metrics.inc(TOKEN_VALIDATION_ERRORS_COUNTER, Some(("reason", "token_not_found")), 1);
            proof {
                assert(metrics.counters@.take(old(metrics).counters@.len() as int)
                    =~= old(metrics).counters@);
                assert(negative_hit_metrics(*old(metrics), *metrics));
            }
            return Err(FlagError::TokenValidationError);
        }
        let ghost s0 = *scopes;
        let ghost m0 = *metrics;
        let ghost c0 = self.negative();
        let inner = self.get_team_from_cache_or_pg(token, reader, scopes, metrics);
        let ghost s1 = *scopes;
        let ghost m1 = *metrics;
        let ghost gout = choose|out: TeamLookup|
            call_ensures(reader, (), out) && team_lookup_post(out, inner, s0, s1, m0, m1);
        match inner {
            Ok(team) => {
                let r: Result<Team, FlagError> = Ok(team);
                proof {
                    assert(verify_post(
                        gout,
                        token@,
                        now_ms,
                        r,
                        c0,
                        self.negative(),
                        s0,
                        *scopes,
                        m0,
                        *metrics,
                    ));
                }
                r
            },
            Err(e) => {
                if e.is_token_not_found() {
                    self.team_negative_cache.insert_at(token.to_owned(), now_ms);
                    metrics.inc(
                        TOKEN_VALIDATION_ERRORS_COUNTER,
                        Some(("reason", "token_not_found")),
                        1,
                    );
                    proof {
                        assert(metrics.counters@.take(m0.counters@.len() as int)
                            =~= m0.counters@);
                    }
                }
                let r: Result<Team, FlagError> = Err(FlagError::TokenValidationError);
                proof {
                    assert(verify_post(
                        gout,
                        token@,
                        now_ms,
                        r,
                        c0,
                        self.negative(),
                        s0,
                        *scopes,
                        m0,
                        *metrics,
                    ));
                }
                r
            },
        }
    }

    /// Deprecated entry point kept for callers that only need the
    /// credential echoed back: resolves the credential exactly as
    /// `verify_token_and_get_team` does — same negative-cache short
    /// circuit, same cache population rule, same telemetry — and returns
    /// the credential in place of the team.
    pub fn verify_token<F: FnOnce() -> TeamLookup>(
        &mut self,
        token: &str,
        reader: F,
        scopes: &mut LogScopes,
        metrics: &mut MetricsSink,
        now_ms: i64,
    ) -> (r: Result<String, FlagError>)
        requires
            old(self).wf(),
            call_requires(reader, ()),
        ensures
            final(self).wf(),
            (old(self).negative().spec_contains(token@, now_ms) ==> {
                &&& r == Err::<String, FlagError>(FlagError::TokenValidationError)
                &&& *final(self) == *old(self)
                &&& scopes_with_team_source_view(
                    *old(scopes),
                    *final(scopes),
                    "negative_cache"@,
                )
                &&& negative_hit_metrics(*old(metrics), *final(metrics))
            }),
            (!old(self).negative().spec_contains(token@, now_ms) ==> (exists|out: TeamLookup|
                #[trigger] call_ensures(reader, (), out) && verify_token_post(
                    out,
                    token@,
                    now_ms,
                    r,
                    old(self).negative(),
                    final(self).negative(),
                    *old(scopes),
                    *final(scopes),
                    *old(metrics),
                    *final(metrics),
                ))),
            (forall|t: Seq<char>|
                #[trigger] final(self).negative().spec_has(t) ==> t == token@ || old(
                    self,
                ).negative().spec_has(t)),
            (r is Ok ==> *final(self) == *old(self)),
    {
        let ghost c0 = self.negative();
        let ghost s0 = *scopes;
        let ghost m0 = *metrics;
        let inner = self.verify_token_and_get_team(token, reader, scopes, metrics, now_ms);
        match inner {
            Ok(_) => {
                let r: Result<String, FlagError> = Ok(token.to_owned());
                proof {
                    if !c0.spec_contains(token@, now_ms) {
                        let gout = choose|out: TeamLookup|
                            call_ensures(reader, (), out) && verify_post(
                                out,
                                token@,
                                now_ms,
                                inner,
                                c0,
                                self.negative(),
                                s0,
                                *scopes,
                                m0,
                                *metrics,
                            );
                        assert(verify_token_post(
                            gout,
                            token@,
                            now_ms,
                            r,
                            c0,
                            self.negative(),
                            s0,
                            *scopes,
                            m0,
                            *metrics,
                        ));
                    }
                }
                r
            },
            Err(_) => {
                let r: Result<String, FlagError> = Err(FlagError::TokenValidationError);
                proof {
                    if !c0.spec_contains(token@, now_ms) {
                        let gout = choose|out: TeamLookup|
                            call_ensures(reader, (), out) && verify_post(
                                out,
                                token@,
                                now_ms,
                                inner,
                                c0,
                                self.negative(),
                                s0,
                                *scopes,
                                m0,
                                *metrics,
                            );
                        assert(verify_token_post(
                            gout,
                            token@,
                            now_ms,
                            r,
                            c0,
                            self.negative(),
                            s0,
                            *scopes,
                            m0,
                            *metrics,
                        ));
                    }
                }
                r
            },
        }
    }

    /// The flag-set fetch result for a given lookup outcome: a value
    /// becomes a [`FlagResult`] carrying its cache source; a failure maps
    /// to its typed error. No cache write is attempted on any path: this
    /// core is strictly read-only toward the cache tiers.
    pub fn flag_result_of_lookup(out: FlagsLookup) -> (r: Result<FlagResult, FlagError>)
        ensures
            r == flags_lookup_spec(out),
    {
        match out {
            Ok((flags, source)) => Ok(FlagResult { flag_list: flags, cache_source: source }),
            Err(f) => {
                match f {
                    LookupFailure::NotFound => Err(FlagError::BackendUnavailable),
                    LookupFailure::BackendUnavailable => Err(FlagError::BackendUnavailable),
                    LookupFailure::SerializationError => Err(FlagError::SerializationError),
                }
            },
        }
    }

    /// Fetch the flag set for a team from the tiered cache or, on a total
    /// miss, the primary store — both behind the `reader` closure. There is
    /// no negative cache here: flag sets are keyed by trusted internal team
    /// id, not by an external, possibly-adversarial credential.
    ///
    /// Telemetry for this path sits at its boundaries: the tiered reader
    /// emits its own per-tier metrics for every scenario, and the request
    /// handler sets the log's `flags_cache_source` directly from the
    /// returned [`FlagResult`] — it is not merged through a scope.
    #[allow(unused_variables)]
    pub fn get_flags_from_cache_or_pg<F: FnOnce() -> FlagsLookup>(
        &self,
        team_id: TeamId,
        reader: F,
    ) -> (r: Result<FlagResult, FlagError>)
        requires
            call_requires(reader, ()),
        ensures
            (exists|out: FlagsLookup|
                #[trigger] call_ensures(reader, (), out) && r == flags_lookup_spec(out)),
    {
        let out = reader();
        let ghost gout = out;
        let r = Self::flag_result_of_lookup(out);
        proof {
            assert(call_ensures(reader, (), gout) && r == flags_lookup_spec(gout));
        }
        r
    }
}

} // verus!
