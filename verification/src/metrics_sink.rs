//! Metric events recorded by the core.
//!
//! The core never talks to a metrics backend itself: it appends typed events
//! to a [`MetricsSink`], and the host flushes them to its fire-and-forget
//! counter/histogram sink. The contracts state exactly which events each
//! operation appends, so telemetry side effects are part of every proof.

use vstd::prelude::*;

verus! {

/// Counter: one team-metadata cache lookup, labelled by whether a tier hit.
pub const TEAM_CACHE_HIT_COUNTER: &'static str = "flags_team_cache_hit_total";

/// Counter: a credential was served straight from the negative cache.
pub const TEAM_NEGATIVE_CACHE_HIT_COUNTER: &'static str = "flags_team_negative_cache_hit_total";

/// Counter: a credential failed validation, labelled by reason.
pub const TOKEN_VALIDATION_ERRORS_COUNTER: &'static str = "flags_token_validation_errors_total";

/// Counter: the fallback loader read team metadata from the primary store.
pub const DB_TEAM_READS_COUNTER: &'static str = "flags_db_team_reads_total";

/// Histogram: database operations of one kind during one request.
pub const FLAG_DB_OPERATIONS_PER_REQUEST: &'static str = "flags_db_operations_per_request";

/// The event is the given counter increment, compared character-wise.
pub open spec fn counter_event_is(
    e: CounterEvent,
    name: Seq<char>,
    label: Option<(Seq<char>, Seq<char>)>,
    amount: u64,
) -> bool {
    &&& e.name@ == name
    &&& match (e.label, label) {
        (Some((k, v)), Some((ks, vs))) => k@ == ks && v@ == vs,
        (None, None) => true,
        _ => false,
    }
    &&& e.amount == amount
}

/// One counter increment, with at most one label pair.
#[derive(Debug, Clone, Copy)]
pub struct CounterEvent {
    pub name: &'static str,
    pub label: Option<(&'static str, &'static str)>,
    pub amount: u64,
}

/// One histogram observation of a per-request database-operation count.
#[derive(Debug, Clone, Copy)]
pub struct HistogramEvent {
    pub name: &'static str,
    /// The owning team, if authentication got that far.
    pub team_id: Option<i32>,
    pub operation: &'static str,
    pub count: u64,
}

/// The ordered record of metric events emitted so far.
#[derive(Debug, Clone)]
pub struct MetricsSink {
    pub counters: Vec<CounterEvent>,
    pub histograms: Vec<HistogramEvent>,
}

impl MetricsSink {
    pub fn new() -> (r: Self)
        ensures
            r.counters@ == Seq::<CounterEvent>::empty(),
            r.histograms@ == Seq::<HistogramEvent>::empty(),
    {
        MetricsSink { counters: Vec::new(), histograms: Vec::new() }
    }

    /// Record one counter increment.
    pub fn inc(&mut self, name: &'static str, label: Option<(&'static str, &'static str)>, amount: u64)
        ensures
            final(self).counters@ == old(self).counters@.push(
                CounterEvent { name, label, amount },
            ),
            final(self).histograms == old(self).histograms,
    {
        self.counters.push(CounterEvent { name, label, amount });
    }

    /// Record one histogram observation.
    pub fn observe(&mut self, event: HistogramEvent)
        ensures
            final(self).histograms@ == old(self).histograms@.push(event),
            final(self).counters == old(self).counters,
    {
        self.histograms.push(event);
    }
}

} // verus!
