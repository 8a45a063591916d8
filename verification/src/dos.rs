//! The record kept for one client, and the admission decision made on it.

use vstd::prelude::*;
use crate::usage::{
    Resource, Usage, lemma_decay_adds, lemma_decay_bounds, lemma_decay_closed_form,
    lemma_decay_falls_below, lemma_reached_none_iff_within,
};

verus! {

/// What is known of one client: its running totals and when it was last seen.
#[derive(Clone, Copy, Debug, PartialEq, Eq, Structural)]
pub struct DosRecord {
    pub used: Usage,
    pub last_seen: u64,
}

/// The answer to a request for admission.
#[derive(Clone, Copy, Debug, PartialEq, Eq, Structural)]
pub enum Admission {
    /// The request may be queued.
    Allow,
    /// The request is turned away; the resource is the limit that was reached.
    Reject(Resource),
}

impl DosRecord {
    /// The record of a client that has not been seen yet.
    pub open spec fn spec_fresh() -> DosRecord {
        DosRecord { used: Usage::spec_zero(), last_seen: 0 }
    }

    /// The decision on a request from a client with this record.
    pub open spec fn decision(self, limits: Usage) -> Admission {
        match self.used.reached(limits) {
            Some(which) => Admission::Reject(which),
            None => Admission::Allow,
        }
    }

    /// The record after a request that arrived at `now` with estimated cost
    /// `cost`: charged if admitted, only marked as seen if rejected.
    pub open spec fn after_request(self, limits: Usage, cost: Usage, now: u64) -> DosRecord {
        if self.used.reached(limits) is None {
            DosRecord { used: self.used.plus(cost), last_seen: now }
        } else {
            DosRecord { used: self.used, last_seen: now }
        }
    }

    /// The record after a request completed at `now` with observed cost `actual`.
    pub open spec fn after_completion(self, actual: Usage, now: u64) -> DosRecord {
        DosRecord { used: self.used.plus(actual), last_seen: now }
    }

    /// The record after `rounds` decay intervals without a request.
    pub open spec fn after_decay(self, step: Usage, rounds: nat) -> DosRecord {
        DosRecord { used: self.used.after_decay(step, rounds), last_seen: self.last_seen }
    }

    /// Whether the record holds nothing and the client was last seen at least
    /// `idle_for` before `now`.
    pub open spec fn expired(self, now: u64, idle_for: u64) -> bool {
        self.used.is_zero() && now - self.last_seen >= idle_for
    }

    /// The record of a client that has not been seen yet.
    #[verifier::when_used_as_spec(spec_fresh)]
    pub fn fresh() -> (r: DosRecord)
        ensures
            r == DosRecord::spec_fresh(),
    {
        DosRecord { used: Usage::zero(), last_seen: 0 }
    }

    /// Decides on a request and records it. The request is rejected exactly
    /// when a counter has reached its limit, with the first such resource as
    /// the reason, and then no counter changes; otherwise `cost` is charged.
    pub fn admission(&mut self, limits: &Usage, cost: &Usage, now: u64) -> (r: Admission)
        ensures
            r == old(self).decision(*limits),
            r is Allow <==> old(self).used.within(*limits),
            *final(self) == old(self).after_request(*limits, *cost, now),
    {
        self.last_seen = now;
        match self.used.blocked_by(limits) {
            Some(which) => Admission::Reject(which),
            None => {
                self.used = self.used.charge(cost);
                Admission::Allow
            },
        }
    }

    /// Adds the cost that a finished request was observed to have.
    pub fn complete(&mut self, actual: &Usage, now: u64)
        ensures
            *final(self) == old(self).after_completion(*actual, now),
    {
        self.used = self.used.charge(actual);
        self.last_seen = now;
    }

    /// One decay interval.
    pub fn decay(&mut self, step: &Usage)
        ensures
            *final(self) == old(self).after_decay(*step, 1),
            forall|which: Resource| final(self).used.of(which) <= old(self).used.of(which),
    {
        self.used = self.used.decay(step);
    }

    /// Whether the record may be dropped at `now`: it holds nothing, and the
    /// client was last seen at least `idle_for` earlier.
    pub fn is_expired(&self, now: u64, idle_for: u64) -> (r: bool)
        ensures
            r == self.expired(now, idle_for),
    {
        self.used.all_zero() && now >= self.last_seen && now - self.last_seen >= idle_for
    }
}

/// A client that was turned away is admitted again once decay has brought
/// every counter below its limit. For every resource, `rounds * step` past
/// the excess over a positive limit is enough.
pub proof fn lemma_admitted_after_decay(record: DosRecord, limits: Usage, step: Usage, rounds: nat)
    requires
        forall|which: Resource|
            limits.of(which) > 0 && rounds * step.of(which) > record.used.of(which) - limits.of(
                which,
            ),
    ensures
        record.after_decay(step, rounds).decision(limits) is Allow,
{
    let later = record.after_decay(step, rounds).used;
    assert forall|which: Resource| later.of(which) < limits.of(which) by {
        lemma_decay_falls_below(
            record.used.of(which) as int,
            step.of(which) as int,
            limits.of(which) as int,
            rounds,
        );
        lemma_decay_bounds(
            record.used.of(which) as int,
            step.of(which) as int,
            rounds,
        );
        match which {
            Resource::Requests => {},
            Resource::BytesRead => {},
            Resource::CpuTime => {},
            Resource::BytesWritten => {},
        }
    }
    lemma_reached_none_iff_within(later, limits);
}

/// After `rounds` decay intervals without a request, every counter of a
/// record stands at `max(0, value - rounds * step)`; when the client was
/// last seen is not touched.
pub proof fn lemma_record_decay_closed_form(record: DosRecord, step: Usage, rounds: nat)
    ensures
        forall|which: Resource| #[trigger]
            record.after_decay(step, rounds).used.of(which) == if record.used.of(which) - rounds
                * step.of(which) > 0 {
                record.used.of(which) - rounds * step.of(which)
            } else {
                0
            },
        record.after_decay(step, rounds).last_seen == record.last_seen,
{
    assert forall|which: Resource| #[trigger]
        record.after_decay(step, rounds).used.of(which) == if record.used.of(which) - rounds
            * step.of(which) > 0 {
            record.used.of(which) - rounds * step.of(which)
        } else {
            0
        } by {
        lemma_decay_closed_form(record.used.of(which) as int, step.of(which) as int, rounds);
        lemma_decay_bounds(record.used.of(which) as int, step.of(which) as int, rounds);
        match which {
            Resource::Requests => {},
            Resource::BytesRead => {},
            Resource::CpuTime => {},
            Resource::BytesWritten => {},
        }
    }
}

/// Decay intervals add up: `first` of them and then `second` more leave a
/// record where `first + second` in a row leave it.
pub proof fn lemma_record_decay_adds(record: DosRecord, step: Usage, first: nat, second: nat)
    ensures
        record.after_decay(step, first).after_decay(step, second) == record.after_decay(
            step,
            first + second,
        ),
{
    let used = record.used;
    lemma_decay_bounds(used.request_count as int, step.request_count as int, first);
    lemma_decay_bounds(used.bytes_read as int, step.bytes_read as int, first);
    lemma_decay_bounds(used.cpu_used as int, step.cpu_used as int, first);
    lemma_decay_bounds(used.bytes_written as int, step.bytes_written as int, first);
    lemma_decay_adds(used.request_count as int, step.request_count as int, first, second);
    lemma_decay_adds(used.bytes_read as int, step.bytes_read as int, first, second);
    lemma_decay_adds(used.cpu_used as int, step.cpu_used as int, first, second);
    lemma_decay_adds(used.bytes_written as int, step.bytes_written as int, first, second);
}

} // verus!
