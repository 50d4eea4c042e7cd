use std::cell::Cell;

use feature_flags::canonical_log::{FlagsCanonicalLogLine, LogScopes};
use feature_flags::errors::FlagError;
use feature_flags::flag_service::{
    CacheSource, FeatureFlag, FeatureFlagList, FlagService, LookupFailure, Team,
};
use feature_flags::metrics_sink::MetricsSink;
use feature_flags::negative_cache::NegativeCache;
use uuid::Uuid;

fn team(id: i32, token: &str) -> Team {
    Team { id, api_token: token.to_string(), name: "Test Team".to_string() }
}

const NOW: i64 = 1_700_000_000_000;

#[test]
fn test_verify_token_and_get_team() {
    let mut flag_service = FlagService::new(NegativeCache::new(100, 300));
    let mut scopes = LogScopes::new();
    let mut metrics = MetricsSink::new();

    // Test valid token returns the team
    let result = flag_service.verify_token_and_get_team(
        "valid_token",
        || Ok((team(1, "valid_token"), CacheSource::Redis)),
        &mut scopes,
        &mut metrics,
        NOW,
    );
    assert!(result.is_ok());
    assert_eq!(result.unwrap().api_token, "valid_token");

    // Test invalid token
    let result = flag_service.verify_token_and_get_team(
        "invalid_token",
        || Err(LookupFailure::NotFound),
        &mut scopes,
        &mut metrics,
        NOW,
    );
    assert!(matches!(result, Err(FlagError::TokenValidationError)));
}

#[test]
fn test_get_team_from_cache_or_pg() {
    let flag_service = FlagService::new(NegativeCache::new(100, 300));
    let mut scopes = LogScopes::new();
    let mut metrics = MetricsSink::new();

    // Test fetching from a fast cache tier
    let result = flag_service.get_team_from_cache_or_pg(
        "token_a",
        || Ok((team(42, "token_a"), CacheSource::Redis)),
        &mut scopes,
        &mut metrics,
    );
    assert!(result.is_ok());
    assert_eq!(result.unwrap().id, 42);
    let last = metrics.counters.last().unwrap();
    assert_eq!(last.name, "flags_team_cache_hit_total");
    assert_eq!(last.label, Some(("cache_hit", "true")));
}

#[test]
fn test_get_team_from_pg_fallback() {
    let flag_service = FlagService::new(NegativeCache::new(100, 300));
    let mut scopes = LogScopes::new();
    let mut metrics = MetricsSink::new();

    // Cache tiers miss; the fallback loader serves the team
    let result = flag_service.get_team_from_cache_or_pg(
        "token_b",
        || Ok((team(7, "token_b"), CacheSource::Fallback)),
        &mut scopes,
        &mut metrics,
    );
    assert!(result.is_ok());
    assert_eq!(result.unwrap().id, 7);
    let last = metrics.counters.last().unwrap();
    assert_eq!(last.label, Some(("cache_hit", "false")));
}

#[test]
fn test_negative_cache_returns_error_for_cached_invalid_token() {
    let mut negative_cache = NegativeCache::new(100, 300);
    negative_cache.insert_at("known_bad_token".to_string(), NOW);

    let mut flag_service = FlagService::new(negative_cache);
    let mut scopes = LogScopes::new();
    let mut metrics = MetricsSink::new();

    let result = flag_service.verify_token_and_get_team(
        "known_bad_token",
        || panic!("the lookup must not run for a negatively cached token"),
        &mut scopes,
        &mut metrics,
        NOW,
    );
    assert!(matches!(result, Err(FlagError::TokenValidationError)));
}

#[test]
fn test_negative_cache_populated_on_invalid_token() {
    let negative_cache = NegativeCache::new(100, 300);
    assert!(!negative_cache.contains_at("nonexistent_token", NOW));

    let mut flag_service = FlagService::new(negative_cache);
    let mut scopes = LogScopes::new();
    let mut metrics = MetricsSink::new();

    // First call should fail and populate the negative cache
    let result = flag_service.verify_token_and_get_team(
        "nonexistent_token",
        || Err(LookupFailure::NotFound),
        &mut scopes,
        &mut metrics,
        NOW,
    );
    assert!(matches!(result, Err(FlagError::TokenValidationError)));
    assert!(flag_service.negative_cache_contains_at("nonexistent_token", NOW));
}

#[test]
fn test_negative_cache_does_not_affect_valid_tokens() {
    let mut flag_service = FlagService::new(NegativeCache::new(100, 300));
    let mut scopes = LogScopes::new();
    let mut metrics = MetricsSink::new();

    // Valid token should succeed and not be added to the negative cache
    let result = flag_service.verify_token_and_get_team(
        "good_token",
        || Ok((team(3, "good_token"), CacheSource::S3)),
        &mut scopes,
        &mut metrics,
        NOW,
    );
    assert!(result.is_ok());
    assert!(!flag_service.negative_cache_has("good_token"));
}

#[test]
fn test_negative_cache_not_populated_on_backend_unavailable() {
    // A connectivity failure for token "x" must not poison the cache.
    let mut flag_service = FlagService::new(NegativeCache::new(100, 300));
    let mut scopes = LogScopes::new();
    let mut metrics = MetricsSink::new();

    let result = flag_service.verify_token_and_get_team(
        "x",
        || Err(LookupFailure::BackendUnavailable),
        &mut scopes,
        &mut metrics,
        NOW,
    );
    assert!(matches!(result, Err(FlagError::TokenValidationError)));
    assert!(!flag_service.negative_cache_has("x"));
}

#[test]
fn test_negative_cache_not_populated_on_serialization_error() {
    let mut flag_service = FlagService::new(NegativeCache::new(100, 300));
    let mut scopes = LogScopes::new();
    let mut metrics = MetricsSink::new();

    let result = flag_service.verify_token_and_get_team(
        "y",
        || Err(LookupFailure::SerializationError),
        &mut scopes,
        &mut metrics,
        NOW,
    );
    assert!(matches!(result, Err(FlagError::TokenValidationError)));
    assert!(!flag_service.negative_cache_has("y"));
}

#[test]
fn test_valid_token_never_negatively_cached_over_many_calls() {
    // However often resolution runs, a credential whose lookups succeed or
    // fail only transiently never enters the negative cache.
    let mut flag_service = FlagService::new(NegativeCache::new(100, 300));
    let mut scopes = LogScopes::new();
    let mut metrics = MetricsSink::new();
    for round in 0..20 {
        let outcome: fn() -> Result<(Team, CacheSource), LookupFailure> = match round % 3 {
            0 => || Ok((Team { id: 8, api_token: "keeper".to_string(), name: String::new() }, CacheSource::Redis)),
            1 => || Err(LookupFailure::BackendUnavailable),
            _ => || Err(LookupFailure::SerializationError),
        };
        let _ = flag_service.verify_token_and_get_team(
            "keeper",
            outcome,
            &mut scopes,
            &mut metrics,
            NOW + round,
        );
        assert!(!flag_service.negative_cache_has("keeper"));
    }
}

#[test]
fn test_second_call_for_invalid_token_skips_backends() {
    let mut flag_service = FlagService::new(NegativeCache::new(100, 300));
    let mut scopes = LogScopes::new();
    let mut metrics = MetricsSink::new();
    let calls = Cell::new(0u32);

    // First call: misses the negative cache, runs the lookup, fails,
    // populates the negative cache
    let result = flag_service.verify_token_and_get_team(
        "bad_token",
        || {
            calls.set(calls.get() + 1);
            Err(LookupFailure::NotFound)
        },
        &mut scopes,
        &mut metrics,
        NOW,
    );
    assert!(matches!(result, Err(FlagError::TokenValidationError)));
    assert!(flag_service.negative_cache_contains_at("bad_token", NOW));
    let calls_after_first = calls.get();
    assert!(calls_after_first > 0, "First call should have run the lookup");

    // Second call: served from the negative cache, the lookup never runs
    let result = flag_service.verify_token_and_get_team(
        "bad_token",
        || {
            calls.set(calls.get() + 1);
            Err(LookupFailure::NotFound)
        },
        &mut scopes,
        &mut metrics,
        NOW,
    );
    assert!(matches!(result, Err(FlagError::TokenValidationError)));
    assert_eq!(
        calls_after_first,
        calls.get(),
        "Second call should not run the lookup (served from negative cache)"
    );
}

#[test]
fn test_negative_cache_entry_expires() {
    let mut cache = NegativeCache::new(100, 300);
    cache.insert_at("stale".to_string(), NOW);
    assert!(cache.contains_at("stale", NOW));
    // 300 seconds later the entry has aged out
    assert!(!cache.contains_at("stale", NOW + 300_000));
}

#[test]
fn test_negative_cache_capacity_is_bounded() {
    let mut cache = NegativeCache::new(2, 300);
    cache.insert_at("a".to_string(), NOW);
    cache.insert_at("b".to_string(), NOW);
    cache.insert_at("c".to_string(), NOW);
    // the oldest entry was evicted to stay within capacity
    assert!(!cache.contains_at("a", NOW));
    assert!(cache.contains_at("b", NOW));
    assert!(cache.contains_at("c", NOW));
}

#[test]
fn test_get_flags_from_hypercache() {
    let flag_service = FlagService::new(NegativeCache::new(100, 300));
    let flags = FeatureFlagList {
        flags: vec![
            FeatureFlag {
                id: 1,
                team_id: 5,
                name: Some("Beta Feature".to_string()),
                key: "beta_feature".to_string(),
                deleted: false,
                active: true,
            },
            FeatureFlag {
                id: 2,
                team_id: 5,
                name: Some("New User Interface".to_string()),
                key: "new_ui".to_string(),
                deleted: false,
                active: false,
            },
        ],
    };
    let served = flags.clone();
    let result = flag_service.get_flags_from_cache_or_pg(5, || Ok((served, CacheSource::Redis)));
    assert!(result.is_ok());
    let flag_result = result.unwrap();
    assert!(!matches!(flag_result.cache_source, CacheSource::Fallback));
    assert_eq!(flag_result.flag_list.flags.len(), flags.flags.len());
    let beta = flag_result.flag_list.flags.iter().find(|f| f.key == "beta_feature").unwrap();
    assert!(beta.active);
    let new_ui = flag_result.flag_list.flags.iter().find(|f| f.key == "new_ui").unwrap();
    assert!(!new_ui.active);
}

#[test]
fn test_get_flags_falls_back_to_pg_on_hypercache_miss() {
    let flag_service = FlagService::new(NegativeCache::new(100, 300));
    let result = flag_service.get_flags_from_cache_or_pg(9, || {
        Ok((FeatureFlagList { flags: Vec::new() }, CacheSource::Fallback))
    });
    assert!(result.is_ok());
    let flag_result = result.unwrap();
    assert!(matches!(flag_result.cache_source, CacheSource::Fallback));
}

#[test]
fn test_get_flags_error_propagates() {
    let flag_service = FlagService::new(NegativeCache::new(100, 300));
    let result = flag_service.get_flags_from_cache_or_pg(9, || Err(LookupFailure::BackendUnavailable));
    assert!(matches!(result, Err(FlagError::BackendUnavailable)));
    let result = flag_service.get_flags_from_cache_or_pg(9, || Err(LookupFailure::SerializationError));
    assert!(matches!(result, Err(FlagError::SerializationError)));
}

#[test]
fn test_verify_token_echoes_token() {
    let mut flag_service = FlagService::new(NegativeCache::new(100, 300));
    let mut scopes = LogScopes::new();
    let mut metrics = MetricsSink::new();
    let result = flag_service.verify_token(
        "tok",
        || Ok((team(1, "tok"), CacheSource::Redis)),
        &mut scopes,
        &mut metrics,
        NOW,
    );
    assert_eq!(result.unwrap(), "tok");
}

#[test]
fn test_verify_token_matches_full_resolution() {
    let mut flag_service = FlagService::new(NegativeCache::new(100, 300));
    let mut scopes = LogScopes::new();
    let mut metrics = MetricsSink::new();

    // An authoritative not-found populates the cache exactly as the full
    // resolution path does
    let r = flag_service.verify_token(
        "gone",
        || Err(LookupFailure::NotFound),
        &mut scopes,
        &mut metrics,
        NOW,
    );
    assert!(matches!(r, Err(FlagError::TokenValidationError)));
    assert!(flag_service.negative_cache_contains_at("gone", NOW));

    // and the second call is served from the negative cache with no lookup
    let r = flag_service.verify_token(
        "gone",
        || panic!("no lookup on a negative-cache hit"),
        &mut scopes,
        &mut metrics,
        NOW,
    );
    assert!(matches!(r, Err(FlagError::TokenValidationError)));

    // a transient failure changes nothing
    let r = flag_service.verify_token(
        "flaky",
        || Err(LookupFailure::BackendUnavailable),
        &mut scopes,
        &mut metrics,
        NOW,
    );
    assert!(matches!(r, Err(FlagError::TokenValidationError)));
    assert!(!flag_service.negative_cache_has("flaky"));
}

#[test]
fn test_end_to_end_fallback_records_source_and_counter() {
    // Both fast tiers miss, the fallback loader returns the tenant: the
    // canonical log's cache-source field holds the fallback label and the
    // cache_hit=false counter is incremented by one.
    let request_id = Uuid::new_v4().as_u128();
    let log = FlagsCanonicalLogLine::new(request_id, "10.0.0.1".to_string());
    let mut scopes = LogScopes::new();
    scopes.task_slot = Some(log);
    let mut metrics = MetricsSink::new();
    let mut flag_service = FlagService::new(NegativeCache::new(100, 300));

    let counters_before = metrics.counters.len();
    let result = flag_service.verify_token_and_get_team(
        "fresh_token",
        || Ok((team(11, "fresh_token"), CacheSource::Fallback)),
        &mut scopes,
        &mut metrics,
        NOW,
    );
    assert!(result.is_ok());

    let task_log = scopes.task_slot.as_ref().unwrap();
    assert_eq!(task_log.team_cache_source, Some("fallback"));
    assert_eq!(metrics.counters.len(), counters_before + 1);
    let counter = metrics.counters.last().unwrap();
    assert_eq!(counter.name, "flags_team_cache_hit_total");
    assert_eq!(counter.label, Some(("cache_hit", "false")));
    assert_eq!(counter.amount, 1);
}

#[test]
fn test_negative_cache_hit_records_source_label() {
    let mut cache = NegativeCache::new(100, 300);
    cache.insert_at("bad".to_string(), NOW);
    let mut flag_service = FlagService::new(cache);
    let mut scopes = LogScopes::new();
    scopes.task_slot = Some(FlagsCanonicalLogLine::new(Uuid::new_v4().as_u128(), "ip".to_string()));
    let mut metrics = MetricsSink::new();

    let result = flag_service.verify_token_and_get_team(
        "bad",
        || panic!("no lookup on a negative-cache hit"),
        &mut scopes,
        &mut metrics,
        NOW,
    );
    assert!(result.is_err());
    assert_eq!(scopes.task_slot.as_ref().unwrap().team_cache_source, Some("negative_cache"));
    assert_eq!(metrics.counters.len(), 2);
    assert_eq!(metrics.counters[0].name, "flags_team_negative_cache_hit_total");
    assert_eq!(metrics.counters[1].name, "flags_token_validation_errors_total");
    assert_eq!(metrics.counters[1].label, Some(("reason", "token_not_found")));
}

#[test]
fn test_error_codes_are_stable() {
    assert_eq!(FlagError::TokenValidationError.error_code(), "invalid_token");
    assert_eq!(FlagError::TokenValidationError.status_code(), 401);
    assert_eq!(FlagError::NoTokenError.error_code(), "missing_token");
    assert_eq!(FlagError::RateLimited.status_code(), 429);
    assert_eq!(FlagError::BackendUnavailable.status_code(), 503);
    assert_eq!(FlagError::SerializationError.error_code(), "serialization_error");
    assert_eq!(FlagError::Internal("boom".to_string()).status_code(), 500);
}
