//! Bounded, time-limited membership cache of credentials known to be
//! invalid.
//!
//! Presence means: as of insertion time, the credential did not resolve to
//! any team. Entries age out after a time-to-live and the oldest entry is
//! evicted at capacity, so memory stays bounded whatever the insertion
//! rate. Losing an entry early is safe (the lookup is merely repeated);
//! callers must only insert credentials proven invalid by an authoritative
//! source, never speculatively.

use vstd::prelude::*;

use crate::clock::now_millis;
use crate::strutil::str_eq;

verus! {

pub struct NegativeCache {
    /// Credential and the clock reading at which it expires, oldest first.
    entries: Vec<(String, i64)>,
    capacity: usize,
    ttl_ms: i64,
}

impl NegativeCache {
    /// Structural invariant: a real capacity and time-to-live, and never
    /// more entries than the capacity allows.
    pub closed spec fn wf(self) -> bool {
        &&& self.capacity >= 1
        &&& self.ttl_ms >= 1
        &&& self.entries@.len() <= self.capacity
    }

    /// Some entry holds this credential, live or expired.
    pub closed spec fn spec_has(self, token: Seq<char>) -> bool {
        exists|i: int|
            0 <= i < self.entries@.len() && #[trigger] self.entries@[i].0@ == token
    }

    /// Some entry holds this credential and has not expired at `now_ms`.
    pub closed spec fn spec_contains(self, token: Seq<char>, now_ms: i64) -> bool {
        exists|i: int|
            0 <= i < self.entries@.len() && #[trigger] self.entries@[i].0@ == token && now_ms
                < self.entries@[i].1
    }

    /// A live entry is in particular an entry.
    pub proof fn lemma_contains_implies_has(self, token: Seq<char>, now_ms: i64)
        ensures
            self.spec_contains(token, now_ms) ==> self.spec_has(token),
    {
    }

    /// An empty cache with the given capacity and time-to-live in seconds.
    pub fn new(capacity: usize, ttl_secs: u64) -> (r: Self)
        requires
            capacity >= 1,
            1 <= ttl_secs <= 1000000000,
        ensures
            r.wf(),
            forall|t: Seq<char>| !r.spec_has(t),
    {
        NegativeCache {
            entries: Vec::new(),
            capacity,
            ttl_ms: (ttl_secs as i64) * 1000,
        }
    }

    /// The index of an entry holding this credential, if one exists.
    fn find_index(&self, token: &str) -> (r: Option<usize>)
        ensures
            match r {
                Some(i) => i < self.entries@.len() && self.entries@[i as int].0@ == token@,
                None => !self.spec_has(token@),
            },
    {
        let n = self.entries.len();
        let mut i: usize = 0;
        while i < n
            invariant
                n == self.entries@.len(),
                i <= n,
                forall|j: int| 0 <= j < i ==> #[trigger] self.entries@[j].0@ != token@,
            decreases n - i,
        {
            if str_eq(self.entries[i].0.as_str(), token) {
                return Some(i);
            }
            i = i + 1;
        }
        None
    }

    /// Whether the credential is cached as invalid at the given instant.
    pub fn contains_at(&self, token: &str, now_ms: i64) -> (r: bool)
        ensures
            r == self.spec_contains(token@, now_ms),
    {
        let n = self.entries.len();
        let mut i: usize = 0;
        while i < n
            invariant
                n == self.entries@.len(),
                i <= n,
                forall|j: int|
                    0 <= j < i ==> !(#[trigger] self.entries@[j].0@ == token@ && now_ms
                        < self.entries@[j].1),
            decreases n - i,
        {
            if str_eq(self.entries[i].0.as_str(), token) && now_ms < self.entries[i].1 {
                return true;
            }
            i = i + 1;
        }
        false
    }

    /// Whether the credential is cached as invalid now. A `true` answer
    /// always points at a real entry; an absent credential always answers
    /// `false`.
    pub fn contains(&self, token: &str) -> (r: bool)
        ensures
            r ==> self.spec_has(token@),
            !self.spec_has(token@) ==> !r,
    {
        let now_ms = now_millis();
        let r = self.contains_at(token, now_ms);
        proof {
            self.lemma_contains_implies_has(token@, now_ms);
        }
        r
    }

    /// Record the credential as invalid as of `now_ms`. Any earlier entry
    /// for it is replaced; at capacity the oldest entry is evicted. No
    /// credential other than the inserted one ever becomes cached by this.
    pub fn insert_at(&mut self, token: String, now_ms: i64)
        requires
            old(self).wf(),
        ensures
            final(self).wf(),
            final(self).spec_has(token@),
            now_ms < i64::MAX ==> final(self).spec_contains(token@, now_ms),
            forall|t: Seq<char>|
                #[trigger] final(self).spec_has(t) ==> t == token@ || old(self).spec_has(t),
            forall|t: Seq<char>, n: i64|
                #[trigger] final(self).spec_contains(t, n) ==> t == token@ || old(
                    self,
                ).spec_contains(t, n),
    {
        let ghost pre = *self;
        match self.find_index(token.as_str()) {
            Some(i) => {
                self.entries.remove(i);
            },
            None => {},
        }
        let ghost mid1 = self.entries@;
        proof {
            assert forall|j: int| 0 <= j < mid1.len() implies exists|k: int|
                0 <= k < pre.entries@.len() && pre.entries@[k] == #[trigger] mid1[j] by {
                if j < pre.entries@.len() && mid1[j] == pre.entries@[j] {
                } else {
                    assert(pre.entries@[j + 1] == mid1[j]);
                }
            }
        }
        if self.entries.len() >= self.capacity {
            self.entries.remove(0);
        }
        let ghost mid2 = self.entries@;
        proof {
            assert forall|j: int| 0 <= j < mid2.len() implies exists|k: int|
                0 <= k < pre.entries@.len() && pre.entries@[k] == #[trigger] mid2[j] by {
                let jj: int = if mid2.len() < mid1.len() {
                    j + 1
                } else {
                    j
                };
                assert(mid1[jj] == mid2[j]);
            }
        }
        let expiry: i64 = match now_ms.checked_add(self.ttl_ms) {
            Some(e) => e,
            None => i64::MAX,
        };
        self.entries.push((token, expiry));
        proof {
            let last = self.entries@.len() - 1;
            assert(self.entries@[last].0@ == token@);
            assert forall|t: Seq<char>, n: i64|
                #[trigger] self.spec_contains(t, n) implies t == token@ || pre.spec_contains(
                t,
                n,
            ) by {
                let i = choose|i: int|
                    0 <= i < self.entries@.len() && #[trigger] self.entries@[i].0@ == t && n
                        < self.entries@[i].1;
                if i < last {
                    assert(self.entries@[i] == mid2[i]);
                    let k = choose|k: int|
                        0 <= k < pre.entries@.len() && pre.entries@[k] == mid2[i];
                    assert(pre.entries@[k].0@ == t && n < pre.entries@[k].1);
                }
            }
            assert forall|t: Seq<char>| #[trigger] self.spec_has(t) implies t == token@
                || pre.spec_has(t) by {
                let i = choose|i: int|
                    0 <= i < self.entries@.len() && #[trigger] self.entries@[i].0@ == t;
                if i < last {
                    assert(self.entries@[i] == mid2[i]);
                    let k = choose|k: int|
                        0 <= k < pre.entries@.len() && pre.entries@[k] == mid2[i];
                    assert(pre.entries@[k].0@ == t);
                }
            }
        }
    }

    /// Record the credential as invalid as of now.
    pub fn insert(&mut self, token: String)
        requires
            old(self).wf(),
        ensures
            final(self).wf(),
            final(self).spec_has(token@),
            forall|t: Seq<char>|
                #[trigger] final(self).spec_has(t) ==> t == token@ || old(self).spec_has(t),
    {
        let now_ms = now_millis();
        self.insert_at(token, now_ms);
    }
}

/// One call's effect on the negative cache keeps `token` out: if it is
/// cached afterwards, it already was before.
pub open spec fn preserves_absence(pre: NegativeCache, post: NegativeCache, token: Seq<char>) -> bool {
    post.spec_has(token) ==> pre.spec_has(token)
}

/// A valid, currently-cached credential never appears in the negative cache
/// after any number of calls: if every call in a chain preserves the
/// credential's absence — as every resolution that does not end in an
/// authoritative not-found does — and it was absent at the start, it is
/// absent at the end.
pub proof fn lemma_absence_preserved_over_calls(states: Seq<NegativeCache>, token: Seq<char>)
    requires
        states.len() > 0,
        !states[0].spec_has(token),
        forall|i: int|
            0 <= i < states.len() - 1 ==> #[trigger] preserves_absence(
                states[i],
                states[i + 1],
                token,
            ),
    ensures
        !states.last().spec_has(token),
    decreases states.len(),
{
    if states.len() > 1 {
        assert(preserves_absence(states[0int], states[0int + 1], token));
        assert(!states[1].spec_has(token));
        assert forall|i: int|
            0 <= i < states.drop_first().len() - 1 implies #[trigger] preserves_absence(
            states.drop_first()[i],
            states.drop_first()[i + 1],
            token,
        ) by {
            assert(states.drop_first()[i] == states[i + 1]);
            assert(states.drop_first()[i + 1] == states[i + 2]);
            assert(preserves_absence(states[i + 1], states[i + 1 + 1], token));
        }
        lemma_absence_preserved_over_calls(states.drop_first(), token);
    }
}

} // verus!
