//! Resource counters: the four quantities that are accounted per client.

use vstd::prelude::*;

verus! {

/// One of the four accounted resources, in the order in which limits are checked.
#[derive(Clone, Copy, Debug, PartialEq, Eq, Structural)]
pub enum Resource {
    Requests,
    BytesRead,
    CpuTime,
    BytesWritten,
}

/// A quantity of each resource: a running total, a limit, a cost or a decay step.
#[derive(Clone, Copy, Debug, PartialEq, Eq, Structural)]
pub struct Usage {
    pub request_count: u64,
    pub bytes_read: u64,
    pub cpu_used: u64,
    pub bytes_written: u64,
}

/// A counter after `amount` was charged to it; it stops at the largest `u64`.
pub open spec fn charged(value: int, amount: int) -> int {
    if value + amount > u64::MAX {
        u64::MAX as int
    } else {
        value + amount
    }
}

/// A counter after one decay interval: `max(0, value - step)`.
pub open spec fn decayed(value: int, step: int) -> int {
    if value > step {
        value - step
    } else {
        0
    }
}

/// A counter after `rounds` decay intervals in a row.
pub open spec fn decayed_by(value: int, step: int, rounds: nat) -> int
    decreases rounds,
{
    if rounds == 0 {
        value
    } else {
        decayed(decayed_by(value, step, (rounds - 1) as nat), step)
    }
}

impl Usage {
    /// The counter of one resource.
    pub open spec fn of(self, which: Resource) -> u64 {
        match which {
            Resource::Requests => self.request_count,
            Resource::BytesRead => self.bytes_read,
            Resource::CpuTime => self.cpu_used,
            Resource::BytesWritten => self.bytes_written,
        }
    }

    /// All four counters at zero.
    pub open spec fn spec_zero() -> Usage {
        Usage { request_count: 0, bytes_read: 0, cpu_used: 0, bytes_written: 0 }
    }

    /// Whether every counter is zero.
    pub open spec fn is_zero(self) -> bool {
        self == Usage::spec_zero()
    }

    /// Counter by counter, `self` with `cost` charged.
    pub open spec fn plus(self, cost: Usage) -> Usage {
        Usage {
            request_count: charged(self.request_count as int, cost.request_count as int) as u64,
            bytes_read: charged(self.bytes_read as int, cost.bytes_read as int) as u64,
            cpu_used: charged(self.cpu_used as int, cost.cpu_used as int) as u64,
            bytes_written: charged(self.bytes_written as int, cost.bytes_written as int) as u64,
        }
    }

    /// Counter by counter, `self` after `rounds` decay intervals of `step`.
    pub open spec fn after_decay(self, step: Usage, rounds: nat) -> Usage {
        Usage {
            request_count: decayed_by(
                self.request_count as int,
                step.request_count as int,
                rounds,
            ) as u64,
            bytes_read: decayed_by(self.bytes_read as int, step.bytes_read as int, rounds) as u64,
            cpu_used: decayed_by(self.cpu_used as int, step.cpu_used as int, rounds) as u64,
            bytes_written: decayed_by(
                self.bytes_written as int,
                step.bytes_written as int,
                rounds,
            ) as u64,
        }
    }

    /// The first resource, in checking order, whose counter has reached its limit.
    pub open spec fn reached(self, limits: Usage) -> Option<Resource> {
        if self.request_count >= limits.request_count {
            Some(Resource::Requests)
        } else if self.bytes_read >= limits.bytes_read {
            Some(Resource::BytesRead)
        } else if self.cpu_used >= limits.cpu_used {
            Some(Resource::CpuTime)
        } else if self.bytes_written >= limits.bytes_written {
            Some(Resource::BytesWritten)
        } else {
            None
        }
    }

    /// Whether every counter is below its limit.
    pub open spec fn within(self, limits: Usage) -> bool {
        forall|which: Resource| self.of(which) < limits.of(which)
    }

    /// The quantity with the four counters given.
    pub fn new(request_count: u64, bytes_read: u64, cpu_used: u64, bytes_written: u64) -> (r: Usage)
        ensures
            r == (Usage { request_count, bytes_read, cpu_used, bytes_written }),
    {
        Usage { request_count, bytes_read, cpu_used, bytes_written }
    }

    /// Nothing of any resource.
    #[verifier::when_used_as_spec(spec_zero)]
    pub fn zero() -> (r: Usage)
        ensures
            r == Usage::spec_zero(),
    {
        Usage { request_count: 0, bytes_read: 0, cpu_used: 0, bytes_written: 0 }
    }

    /// The cost of one request that has read, computed and written nothing yet.
    pub fn one_request() -> (r: Usage)
        ensures
            r == (Usage { request_count: 1, bytes_read: 0, cpu_used: 0, bytes_written: 0 }),
    {
        Usage { request_count: 1, bytes_read: 0, cpu_used: 0, bytes_written: 0 }
    }

    /// The counter of one resource.
    pub fn counter(&self, which: Resource) -> (r: u64)
        ensures
            r == self.of(which),
    {
        match which {
            Resource::Requests => self.request_count,
            Resource::BytesRead => self.bytes_read,
            Resource::CpuTime => self.cpu_used,
            Resource::BytesWritten => self.bytes_written,
        }
    }

    /// Charges `cost`, counter by counter; a counter that would pass the
    /// largest `u64` stays there.
    pub fn charge(&self, cost: &Usage) -> (r: Usage)
        ensures
            r == self.plus(*cost),
    {
        Usage {
            request_count: self.request_count.saturating_add(cost.request_count),
            bytes_read: self.bytes_read.saturating_add(cost.bytes_read),
            cpu_used: self.cpu_used.saturating_add(cost.cpu_used),
            bytes_written: self.bytes_written.saturating_add(cost.bytes_written),
        }
    }

    /// One decay interval: every counter moves towards zero by its step and
    /// stops at zero.
    pub fn decay(&self, step: &Usage) -> (r: Usage)
        ensures
            r == self.after_decay(*step, 1),
            forall|which: Resource| r.of(which) <= self.of(which),
    {
        proof {
            reveal_with_fuel(decayed_by, 2);
        }
        Usage {
            request_count: self.request_count.saturating_sub(step.request_count),
            bytes_read: self.bytes_read.saturating_sub(step.bytes_read),
            cpu_used: self.cpu_used.saturating_sub(step.cpu_used),
            bytes_written: self.bytes_written.saturating_sub(step.bytes_written),
        }
    }

    /// The resource that blocks a client with these totals under `limits`,
    /// if any: the first whose counter has reached its limit.
    pub fn blocked_by(&self, limits: &Usage) -> (r: Option<Resource>)
        ensures
            r == self.reached(*limits),
            r is None <==> self.within(*limits),
    {
        proof {
            lemma_reached_none_iff_within(*self, *limits);
        }
        if self.request_count >= limits.request_count {
            Some(Resource::Requests)
        } else if self.bytes_read >= limits.bytes_read {
            Some(Resource::BytesRead)
        } else if self.cpu_used >= limits.cpu_used {
            Some(Resource::CpuTime)
        } else if self.bytes_written >= limits.bytes_written {
            Some(Resource::BytesWritten)
        } else {
            None
        }
    }

    /// Whether every counter is zero.
    pub fn all_zero(&self) -> (r: bool)
        ensures
            r == self.is_zero(),
    {
        self.request_count == 0 && self.bytes_read == 0 && self.cpu_used == 0
            && self.bytes_written == 0
    }
}

/// No resource blocks exactly when every counter is below its limit, and a
/// blocking resource is one whose counter has reached its limit.
pub proof fn lemma_reached_none_iff_within(used: Usage, limits: Usage)
    ensures
        used.reached(limits) is None <==> used.within(limits),
        used.reached(limits) matches Some(which) ==> used.of(which) >= limits.of(which),
{
    if used.reached(limits) is None {
        assert forall|which: Resource| used.of(which) < limits.of(which) by {
            match which {
                Resource::Requests => {},
                Resource::BytesRead => {},
                Resource::CpuTime => {},
                Resource::BytesWritten => {},
            }
        }
    } else {
        let which = used.reached(limits).unwrap();
        assert(used.of(which) >= limits.of(which));
    }
}

/// A counter never goes below zero, and decay never raises it.
pub proof fn lemma_decay_bounds(value: int, step: int, rounds: nat)
    requires
        0 <= value,
        0 <= step,
    ensures
        0 <= decayed_by(value, step, rounds) <= value,
    decreases rounds,
{
    if rounds > 0 {
        lemma_decay_bounds(value, step, (rounds - 1) as nat);
    }
}

/// After `rounds` idle decay intervals a counter that stood at `value` stands
/// at `max(0, value - rounds * step)`.
pub proof fn lemma_decay_closed_form(value: int, step: int, rounds: nat)
    requires
        0 <= value,
        0 <= step,
    ensures
        decayed_by(value, step, rounds) == if value - rounds * step > 0 {
            value - rounds * step
        } else {
            0
        },
    decreases rounds,
{
    if rounds > 0 {
        let before = (rounds - 1) as nat;
        lemma_decay_closed_form(value, step, before);
        assert(rounds * step == before * step + step) by (nonlinear_arith)
            requires
                before == rounds - 1,
        ;
    } else {
        assert(rounds * step == 0) by (nonlinear_arith)
            requires
                rounds == 0,
        ;
    }
}

/// Decaying in two stretches is decaying once for their total length.
pub proof fn lemma_decay_adds(value: int, step: int, first: nat, second: nat)
    ensures
        decayed_by(decayed_by(value, step, first), step, second) == decayed_by(
            value,
            step,
            first + second,
        ),
    decreases second,
{
    if second > 0 {
        lemma_decay_adds(value, step, first, (second - 1) as nat);
    }
}

/// A counter at or above a positive limit falls below it once enough decay
/// intervals have passed: `rounds * step > value - limit` is enough.
pub proof fn lemma_decay_falls_below(value: int, step: int, limit: int, rounds: nat)
    requires
        0 <= value,
        0 <= step,
        0 < limit,
        rounds * step > value - limit,
    ensures
        decayed_by(value, step, rounds) < limit,
{
    lemma_decay_closed_form(value, step, rounds);
}

} // verus!
