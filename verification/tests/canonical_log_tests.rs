use feature_flags::canonical_log::{
    install_rayon_canonical_log, run_with_canonical_log, take_rayon_canonical_log, truncate_chars,
    with_canonical_log, FlagsCanonicalLogLine, LogScopes,
};
use feature_flags::errors::FlagError;
use feature_flags::metrics_sink::MetricsSink;
use uuid::Uuid;

#[test]
fn test_new_creates_with_defaults() {
    let request_id = Uuid::new_v4().as_u128();
    let log = FlagsCanonicalLogLine::new(request_id, "192.168.1.1".to_string());

    assert_eq!(log.request_id, request_id);
    assert_eq!(log.ip, "192.168.1.1");
    assert!(log.user_agent.is_none());
    assert!(log.lib.is_none());
    assert!(log.lib_version.is_none());
    assert!(log.api_version.is_none());
    assert!(log.team_id.is_none());
    assert!(log.distinct_id.is_none());
    assert!(log.device_id.is_none());
    assert!(log.anon_distinct_id.is_none());
    assert_eq!(log.flags_evaluated, 0);
    assert_eq!(log.flags_experience_continuity, 0);
    assert_eq!(log.flags_device_id_bucketing, 0);
    assert!(!log.flags_disabled);
    assert!(!log.quota_limited);
    assert!(log.flags_cache_source.is_none());
    assert_eq!(log.db_property_fetches, 0);
    assert_eq!(log.person_queries, 0);
    assert_eq!(log.group_queries, 0);
    assert_eq!(log.static_cohort_queries, 0);
    assert_eq!(log.property_cache_hits, 0);
    assert_eq!(log.property_cache_misses, 0);
    assert!(!log.person_properties_not_cached);
    assert!(!log.group_properties_not_cached);
    assert_eq!(log.cohorts_evaluated, 0);
    assert_eq!(log.flags_errored, 0);
    assert_eq!(log.dependency_graph_errors, 0);
    assert!(log.hash_key_override_status.is_none());
    assert!(!log.rate_limited);
    assert!(log.team_cache_source.is_none());
    assert_eq!(log.http_status, 200);
    assert!(log.error_code.is_none());
}

#[test]
fn test_emit_does_not_panic() {
    let log = FlagsCanonicalLogLine::new(Uuid::new_v4().as_u128(), "10.0.0.1".to_string());
    log.emit();
}

#[test]
fn test_emit_with_all_fields_populated() {
    let mut log = FlagsCanonicalLogLine::new(Uuid::new_v4().as_u128(), "10.0.0.1".to_string());
    log.user_agent = Some("posthog-python/1.0.0".to_string());
    log.lib = Some("posthog-python");
    log.lib_version = Some("1.0.0".to_string());
    log.api_version = Some("3".to_string());
    log.team_id = Some(123);
    log.distinct_id = Some("user_abc".to_string());
    log.device_id = Some("device_123".to_string());
    log.flags_evaluated = 10;
    log.flags_experience_continuity = 2;
    log.flags_device_id_bucketing = 3;
    log.flags_disabled = false;
    log.quota_limited = true;
    log.flags_cache_source = Some("redis");
    log.db_property_fetches = 3;
    log.property_cache_hits = 5;
    log.property_cache_misses = 2;
    log.cohorts_evaluated = 4;
    log.flags_errored = 1;
    log.hash_key_override_status = Some("found");
    log.rate_limited = false;
    log.team_cache_source = Some("redis");
    log.http_status = 200;
    let record = log.emit();
    assert_eq!(record.line.team_id, Some(123));
    assert_eq!(record.line.user_agent.as_deref(), Some("posthog-python/1.0.0"));
}

#[test]
fn test_emit_with_error() {
    let mut log = FlagsCanonicalLogLine::new(Uuid::new_v4().as_u128(), "10.0.0.1".to_string());
    log.http_status = 429;
    log.rate_limited = true;
    log.error_code = Some("rate_limited");
    let record = log.emit();
    assert_eq!(record.line.http_status, 429);
    assert_eq!(record.line.error_code, Some("rate_limited"));
}

#[test]
fn test_with_canonical_log_no_ops_outside_scope() {
    // Should not panic when called outside a scope
    let mut scopes = LogScopes::new();
    with_canonical_log(&mut scopes, |mut log| {
        log.team_id = Some(123);
        log
    });
}

#[test]
fn test_run_with_canonical_log_provides_access() {
    let log = FlagsCanonicalLogLine::new(Uuid::new_v4().as_u128(), "10.0.0.1".to_string());

    let (result, final_log, _scopes) = run_with_canonical_log(LogScopes::new(), log, |mut s| {
        with_canonical_log(&mut s, |mut l| {
            l.team_id = Some(456);
            l
        });
        with_canonical_log(&mut s, |mut l| {
            l.flags_evaluated = 10;
            l
        });
        with_canonical_log(&mut s, |mut l| {
            l.property_cache_hits += 1;
            l
        });
        with_canonical_log(&mut s, |mut l| {
            l.property_cache_hits += 1;
            l
        });
        ("done", s)
    });

    assert_eq!(result, "done");
    assert_eq!(final_log.team_id, Some(456));
    assert_eq!(final_log.flags_evaluated, 10);
    assert_eq!(final_log.property_cache_hits, 2);
}

#[test]
fn test_run_with_canonical_log_returns_modified_log() {
    let log = FlagsCanonicalLogLine::new(Uuid::new_v4().as_u128(), "10.0.0.1".to_string());

    let (_, final_log, _scopes) = run_with_canonical_log(LogScopes::new(), log, |mut s| {
        with_canonical_log(&mut s, |mut l| {
            l.db_property_fetches = 3;
            l.cohorts_evaluated = 5;
            l.hash_key_override_status = Some("found");
            l
        });
        ((), s)
    });

    assert_eq!(final_log.db_property_fetches, 3);
    assert_eq!(final_log.cohorts_evaluated, 5);
    assert_eq!(final_log.hash_key_override_status, Some("found"));
}

#[test]
fn test_dependency_graph_errors_is_tracked() {
    let log = FlagsCanonicalLogLine::new(Uuid::new_v4().as_u128(), "10.0.0.1".to_string());

    let graph_errors_count = 2;
    let (_, final_log, _scopes) = run_with_canonical_log(LogScopes::new(), log, |mut s| {
        with_canonical_log(&mut s, |mut l| {
            l.dependency_graph_errors = graph_errors_count;
            l
        });
        ((), s)
    });

    assert_eq!(
        final_log.dependency_graph_errors, graph_errors_count,
        "dependency_graph_errors should track the count of graph construction errors"
    );
}

#[test]
fn test_clone_creates_independent_copy() {
    let mut log = FlagsCanonicalLogLine::new(Uuid::new_v4().as_u128(), "10.0.0.1".to_string());
    log.team_id = Some(123);

    let mut cloned = log.clone();
    cloned.team_id = Some(456);

    // Ensure original is unmodified
    assert_eq!(log.team_id, Some(123));
    assert_eq!(cloned.team_id, Some(456));
}

#[test]
fn test_concurrent_requests_are_isolated() {
    // Each request owns its own scope context and log; mutations made in
    // one scoped run never reach another.
    let mut outcomes = Vec::new();
    for i in 0..10usize {
        let log = FlagsCanonicalLogLine::new(Uuid::new_v4().as_u128(), format!("10.0.0.{i}"));
        let (_, final_log, _scopes) = run_with_canonical_log(LogScopes::new(), log, |mut s| {
            with_canonical_log(&mut s, |mut l| {
                l.team_id = Some(i as i32);
                l
            });
            with_canonical_log(&mut s, |mut l| {
                l.flags_evaluated = i;
                l
            });
            with_canonical_log(&mut s, |mut l| {
                l.property_cache_hits = i * 2;
                l
            });
            ((), s)
        });
        outcomes.push((i, final_log.team_id, final_log.flags_evaluated, final_log.property_cache_hits));
    }
    for (i, team_id, flags_evaluated, cache_hits) in outcomes {
        assert_eq!(team_id, Some(i as i32), "team_id should match task index");
        assert_eq!(flags_evaluated, i, "flags_evaluated should match task index");
        assert_eq!(cache_hits, i * 2, "property_cache_hits should match task index * 2");
    }
}

#[test]
fn test_nested_scopes_are_independent() {
    let outer_log = FlagsCanonicalLogLine::new(Uuid::new_v4().as_u128(), "outer".to_string());

    let (_, outer_final, _scopes) = run_with_canonical_log(LogScopes::new(), outer_log, |mut s| {
        with_canonical_log(&mut s, |mut l| {
            l.team_id = Some(1);
            l
        });

        // Start a nested scope with different values
        let inner_log = FlagsCanonicalLogLine::new(Uuid::new_v4().as_u128(), "inner".to_string());
        let (_, inner_final, mut s) = run_with_canonical_log(s, inner_log, |mut inner_s| {
            with_canonical_log(&mut inner_s, |mut l| {
                l.team_id = Some(2);
                l
            });
            ((), inner_s)
        });

        // Inner scope should have its own values
        assert_eq!(inner_final.team_id, Some(2));
        assert_eq!(inner_final.ip, "inner");

        // After inner scope ends, we should still be in outer scope
        with_canonical_log(&mut s, |mut l| {
            l.flags_evaluated = 100;
            l
        });
        ((), s)
    });

    assert_eq!(outer_final.team_id, Some(1));
    assert_eq!(outer_final.flags_evaluated, 100);
    assert_eq!(outer_final.ip, "outer");
}

#[test]
fn test_with_canonical_log_outside_scope_is_safe() {
    // Call with_canonical_log outside any scope - should no-op without panic
    let mut stray = LogScopes::new();
    with_canonical_log(&mut stray, |mut l| {
        l.team_id = Some(999);
        l
    });

    // Now run a proper scope and verify the outside call had no effect
    let log = FlagsCanonicalLogLine::new(Uuid::new_v4().as_u128(), "test".to_string());
    let (_, final_log, _scopes) = run_with_canonical_log(LogScopes::new(), log, |s| ((), s));

    assert!(final_log.team_id.is_none());
}

#[test]
fn test_set_error_populates_fields() {
    let cases: Vec<(FlagError, u16, &'static str)> = vec![
        (FlagError::TokenValidationError, 401, "invalid_token"),
        (FlagError::NoTokenError, 401, "missing_token"),
        (FlagError::RateLimited, 429, "rate_limited"),
        (FlagError::BackendUnavailable, 503, "backend_unavailable"),
        (FlagError::SerializationError, 500, "serialization_error"),
        (FlagError::Internal("test".to_string()), 500, "internal_error"),
    ];
    for (error, expected_status, expected_code) in cases {
        let mut log = FlagsCanonicalLogLine::new(Uuid::new_v4().as_u128(), "10.0.0.1".to_string());
        log.set_error(&error);
        assert_eq!(log.http_status, expected_status, "http_status mismatch for {error:?}");
        assert_eq!(log.error_code, Some(expected_code), "error_code mismatch for {error:?}");
    }
}

#[test]
fn test_emit_for_error_sets_error_and_emits() {
    let mut log = FlagsCanonicalLogLine::new(Uuid::new_v4().as_u128(), "10.0.0.1".to_string());
    let error = FlagError::NoTokenError;

    log.emit_for_error(&error);

    assert_eq!(log.http_status, 401);
    assert_eq!(log.error_code, Some("missing_token"));
}

#[test]
fn test_hash_key_override_status_skipped_in_scope() {
    let log = FlagsCanonicalLogLine::new(Uuid::new_v4().as_u128(), "10.0.0.1".to_string());
    let (_, final_log, _scopes) = run_with_canonical_log(LogScopes::new(), log, |mut s| {
        with_canonical_log(&mut s, |mut l| {
            l.hash_key_override_status = Some("skipped");
            l
        });
        ((), s)
    });
    assert_eq!(final_log.hash_key_override_status, Some("skipped"));
}

#[test]
fn test_hash_key_override_status_error_in_scope() {
    let log = FlagsCanonicalLogLine::new(Uuid::new_v4().as_u128(), "10.0.0.1".to_string());
    let (_, final_log, _scopes) = run_with_canonical_log(LogScopes::new(), log, |mut s| {
        with_canonical_log(&mut s, |mut l| {
            l.hash_key_override_status = Some("error");
            l
        });
        ((), s)
    });
    assert_eq!(final_log.hash_key_override_status, Some("error"));
}

#[test]
fn test_hash_key_override_status_empty_in_scope() {
    let log = FlagsCanonicalLogLine::new(Uuid::new_v4().as_u128(), "10.0.0.1".to_string());
    let (_, final_log, _scopes) = run_with_canonical_log(LogScopes::new(), log, |mut s| {
        with_canonical_log(&mut s, |mut l| {
            l.hash_key_override_status = Some("empty");
            l
        });
        ((), s)
    });
    assert_eq!(final_log.hash_key_override_status, Some("empty"));
}

#[test]
fn test_merge_rayon_delta_from_zero() {
    let cases: Vec<(
        Vec<(usize, usize, usize, usize, bool, bool)>,
        (usize, usize, usize, usize, bool, bool),
    )> = vec![
        (vec![(3, 5, 10, 2, true, false)], (3, 5, 10, 2, true, false)),
        (
            vec![(1, 2, 3, 1, false, false), (2, 3, 7, 4, false, true)],
            (3, 5, 10, 5, false, true),
        ),
        (vec![(0, 0, 0, 0, false, false)], (0, 0, 0, 0, false, false)),
        (
            vec![(0, 0, 0, 0, true, false), (0, 0, 0, 0, false, true)],
            (0, 0, 0, 0, true, true),
        ),
    ];
    for (deltas, expected) in cases {
        let mut log = FlagsCanonicalLogLine::default();
        for (device_id, cohorts, hits, misses, person, group) in deltas {
            let mut delta = FlagsCanonicalLogLine::default();
            delta.flags_device_id_bucketing = device_id;
            delta.cohorts_evaluated = cohorts;
            delta.property_cache_hits = hits;
            delta.property_cache_misses = misses;
            delta.person_properties_not_cached = person;
            delta.group_properties_not_cached = group;
            log.merge_rayon_delta(&delta);
        }
        assert_eq!(log.flags_device_id_bucketing, expected.0);
        assert_eq!(log.cohorts_evaluated, expected.1);
        assert_eq!(log.property_cache_hits, expected.2);
        assert_eq!(log.property_cache_misses, expected.3);
        assert_eq!(log.person_properties_not_cached, expected.4);
        assert_eq!(log.group_properties_not_cached, expected.5);
    }
}

#[test]
fn test_merge_into_preexisting_counters() {
    let mut log = FlagsCanonicalLogLine::default();
    log.property_cache_hits = 10;
    log.property_cache_misses = 5;
    log.cohorts_evaluated = 3;
    log.flags_device_id_bucketing = 2;
    log.person_properties_not_cached = true;
    log.group_properties_not_cached = false;

    let mut delta = FlagsCanonicalLogLine::default();
    delta.property_cache_hits = 7;
    delta.property_cache_misses = 3;
    delta.cohorts_evaluated = 2;
    delta.flags_device_id_bucketing = 1;
    delta.person_properties_not_cached = false;
    delta.group_properties_not_cached = true;

    log.merge_rayon_delta(&delta);

    assert_eq!(log.property_cache_hits, 17);
    assert_eq!(log.property_cache_misses, 8);
    assert_eq!(log.cohorts_evaluated, 5);
    assert_eq!(log.flags_device_id_bucketing, 3);
    assert!(log.person_properties_not_cached);
    assert!(log.group_properties_not_cached);
}

#[test]
fn test_merge_does_not_touch_request_fields() {
    let mut log = FlagsCanonicalLogLine::new(Uuid::new_v4().as_u128(), "10.0.0.1".to_string());
    log.team_id = Some(123);
    log.flags_evaluated = 50;

    let mut delta = FlagsCanonicalLogLine::default();
    delta.team_id = Some(999);
    delta.flags_evaluated = 42;
    delta.property_cache_hits = 5;

    log.merge_rayon_delta(&delta);

    // Request-level fields are unchanged
    assert_eq!(log.team_id, Some(123));
    assert_eq!(log.flags_evaluated, 50);
    // Evaluation counter is merged
    assert_eq!(log.property_cache_hits, 5);
}

#[test]
fn test_install_and_take_round_trip() {
    let mut scopes = LogScopes::new();
    install_rayon_canonical_log(&mut scopes);

    with_canonical_log(&mut scopes, |mut log| {
        log.property_cache_hits = 7;
        log.cohorts_evaluated = 3;
        log
    });

    let delta = take_rayon_canonical_log(&mut scopes);
    assert!(delta.is_some());
    let delta = delta.unwrap();
    assert_eq!(delta.property_cache_hits, 7);
    assert_eq!(delta.cohorts_evaluated, 3);
}

#[test]
fn test_take_without_install_returns_none() {
    let mut scopes = LogScopes::new();
    drop(take_rayon_canonical_log(&mut scopes));
    assert!(take_rayon_canonical_log(&mut scopes).is_none());
}

#[test]
fn test_take_clears_the_thread_local() {
    let mut scopes = LogScopes::new();
    install_rayon_canonical_log(&mut scopes);
    with_canonical_log(&mut scopes, |mut log| {
        log.property_cache_hits = 1;
        log
    });

    let first = take_rayon_canonical_log(&mut scopes);
    assert!(first.is_some());

    let second = take_rayon_canonical_log(&mut scopes);
    assert!(second.is_none());
}

#[test]
fn test_install_replaces_previous() {
    let mut scopes = LogScopes::new();
    install_rayon_canonical_log(&mut scopes);
    with_canonical_log(&mut scopes, |mut log| {
        log.property_cache_hits = 99;
        log
    });

    // Re-install should reset
    install_rayon_canonical_log(&mut scopes);
    let delta = take_rayon_canonical_log(&mut scopes).unwrap();
    assert_eq!(delta.property_cache_hits, 0);
}

#[test]
fn test_with_canonical_log_noop_without_either_scope() {
    let mut scopes = LogScopes::new();
    drop(take_rayon_canonical_log(&mut scopes));

    // Outside both scopes: should no-op without panic
    with_canonical_log(&mut scopes, |mut log| {
        log.team_id = Some(123);
        log
    });
    assert!(scopes.task_slot.is_none());
    assert!(scopes.pool_slot.is_none());
}

#[test]
fn test_tokio_scope_takes_precedence_over_thread_local() {
    // Install a pool-slot fragment
    let mut scopes = LogScopes::new();
    install_rayon_canonical_log(&mut scopes);

    // Run inside a task scope
    let log = FlagsCanonicalLogLine::new(Uuid::new_v4().as_u128(), "10.0.0.1".to_string());
    let (_, final_log, mut scopes) = run_with_canonical_log(scopes, log, |mut s| {
        with_canonical_log(&mut s, |mut l| {
            l.property_cache_hits = 42;
            l
        });
        ((), s)
    });

    // The task scope should have received the update
    assert_eq!(final_log.property_cache_hits, 42);

    // The pool fragment should be untouched
    let rayon_delta = take_rayon_canonical_log(&mut scopes).unwrap();
    assert_eq!(rayon_delta.property_cache_hits, 0);
}

#[test]
fn test_rayon_threads_are_isolated() {
    // Each pool-worker invocation owns its own scope context; counters
    // recorded in one never show in another.
    let mut scopes_a = LogScopes::new();
    let mut scopes_b = LogScopes::new();

    install_rayon_canonical_log(&mut scopes_a);
    install_rayon_canonical_log(&mut scopes_b);

    with_canonical_log(&mut scopes_a, |mut log| {
        log.property_cache_hits = 111;
        log
    });
    with_canonical_log(&mut scopes_b, |mut log| {
        log.property_cache_hits = 222;
        log
    });

    let delta_a = take_rayon_canonical_log(&mut scopes_a).unwrap();
    let delta_b = take_rayon_canonical_log(&mut scopes_b).unwrap();
    assert_eq!(delta_a.property_cache_hits, 111);
    assert_eq!(delta_b.property_cache_hits, 222);
}

#[test]
fn test_truncate_chars() {
    let cases: Vec<(&str, usize, &str)> = vec![
        ("", 10, ""),
        ("hello", 10, "hello"),
        ("hello", 5, "hello"),
        ("hello", 3, "hel"),
        ("hello", 0, ""),
        // Multibyte UTF-8: emojis are 4 bytes each but 1 character
        ("🎉🎊🎁", 3, "🎉🎊🎁"),
        ("🎉🎊🎁", 2, "🎉🎊"),
        ("🙂🙂🙂", 2, "🙂🙂"),
        ("hello🎉world", 6, "hello🎉"),
        // Mixed ASCII and multibyte
        ("café", 4, "café"),
        ("café", 3, "caf"),
        ("💩abc", 2, "💩a"),
    ];
    for (input, max_chars, expected) in cases {
        assert_eq!(truncate_chars(input, max_chars), expected);
    }
}

#[test]
fn test_truncate_chars_long_input() {
    let long_input = "a".repeat(2000);
    let truncated = truncate_chars(&long_input, 512);
    assert_eq!(truncated.len(), 512);
    assert_eq!(truncated.chars().count(), 512);
}

#[test]
fn test_emit_truncates_user_agent_by_characters() {
    // A multi-byte user agent truncated at the character limit keeps whole
    // characters: 600 two-byte characters become exactly 512 characters.
    let mut log = FlagsCanonicalLogLine::new(Uuid::new_v4().as_u128(), "10.0.0.1".to_string());
    log.user_agent = Some("é".repeat(600));
    let record = log.emit();
    let ua = record.line.user_agent.unwrap();
    assert_eq!(ua.chars().count(), 512);
    assert_eq!(ua, "é".repeat(512));
}

#[test]
fn test_emit_db_operations_metrics() {
    let mut log = FlagsCanonicalLogLine::new(Uuid::new_v4().as_u128(), "10.0.0.1".to_string());
    log.team_id = Some(7);
    log.person_queries = 4;
    log.static_cohort_queries = 2;
    // group_queries stays zero: no event for it
    let mut metrics = MetricsSink::new();
    log.emit_db_operations_metrics(&mut metrics);
    assert_eq!(metrics.histograms.len(), 2);
    assert_eq!(metrics.histograms[0].operation, "person_query");
    assert_eq!(metrics.histograms[0].count, 4);
    assert_eq!(metrics.histograms[0].team_id, Some(7));
    assert_eq!(metrics.histograms[1].operation, "cohort_query");
    assert_eq!(metrics.histograms[1].count, 2);
}
