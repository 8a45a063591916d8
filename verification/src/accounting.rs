//! Per-client accounting: admission against four limits, charging of observed
//! cost, and the periodic decay that lets a client regain capacity.

use vstd::prelude::*;
use rustc_hash::FxHashMap;
use crate::dos::{Admission, DosRecord};
use crate::table::{
    identities, no_records, table_clients, table_empty, table_get, table_insert, table_len,
    table_records, table_remove,
};
use crate::usage::Usage;

verus! {

/// The records after `rounds` decay intervals in which no request arrived.
pub open spec fn swept(
    records: Map<Seq<char>, DosRecord>,
    step: Usage,
    rounds: nat,
) -> Map<Seq<char>, DosRecord> {
    records.map_values(|record: DosRecord| record.after_decay(step, rounds))
}

/// The records that are left when those that have expired at `now` are
/// dropped.
pub open spec fn kept(
    records: Map<Seq<char>, DosRecord>,
    now: u64,
    idle_for: u64,
) -> Map<Seq<char>, DosRecord> {
    records.restrict(Set::new(|c: Seq<char>| !records[c].expired(now, idle_for)))
}

/// The time between two sweeps of the records, in seconds.
pub const DECAY_INTERVAL_SECS: u64 = 10;

/// The time after which a client with nothing on its record is forgotten,
/// in seconds.
pub const FORGET_AFTER_SECS: u64 = 3600;

/// The step by which the counters fall in one decay interval.
pub open spec fn spec_decay_step() -> Usage {
    Usage {
        request_count: 10,
        bytes_read: 10_000_000_000,
        cpu_used: 1_000,
        bytes_written: 10_000_000_000,
    }
}

/// The step by which the counters fall in one decay interval.
#[verifier::when_used_as_spec(spec_decay_step)]
pub fn decay_step() -> (r: Usage)
    ensures
        r == spec_decay_step(),
{
    Usage::new(10, 10_000_000_000, 1_000, 10_000_000_000)
}

/// The limits that apply to every client, and the record of each client seen.
pub struct DosAccounting {
    limits: Usage,
    table: FxHashMap<String, DosRecord>,
}

impl DosAccounting {
    /// The four limits.
    pub closed spec fn limits(&self) -> Usage {
        self.limits
    }

    /// The record of each client that has one.
    pub closed spec fn records(&self) -> Map<Seq<char>, DosRecord> {
        table_records(self.table)
    }

    /// The record that decisions on `client` go by: its own, or that of a
    /// client not seen yet.
    pub open spec fn record_of(&self, client: Seq<char>) -> DosRecord {
        if self.records().contains_key(client) {
            self.records()[client]
        } else {
            DosRecord::spec_fresh()
        }
    }

    /// Accounting under `limits`, with no client seen yet.
    pub fn new(limits: Usage) -> (r: DosAccounting)
        ensures
            r.limits() == limits,
            r.records() == no_records(),
    {
        DosAccounting { limits, table: table_empty() }
    }

    /// The four limits.
    pub fn thresholds(&self) -> (r: Usage)
        ensures
            r == self.limits(),
    {
        self.limits
    }

    /// The record kept for `client`, if it has been seen.
    pub fn record(&self, client: &str) -> (r: Option<DosRecord>)
        ensures
            r == if self.records().contains_key(client@) {
                Some(self.records()[client@])
            } else {
                None
            },
    {
        table_get(&self.table, client)
    }

    /// The running totals of `client`; all zero for a client not seen yet.
    pub fn usage(&self, client: &str) -> (r: Usage)
        ensures
            r == self.record_of(client@).used,
    {
        match table_get(&self.table, client) {
            Some(record) => record.used,
            None => Usage::zero(),
        }
    }

    /// The number of clients that have a record.
    pub fn clients(&self) -> (r: usize)
        ensures
            r == self.records().dom().len(),
    {
        table_len(&self.table)
    }

    /// Decides whether a request from `client` may be queued. It is rejected
    /// exactly when one of the client's counters has reached its limit; the
    /// reason is the first such resource. An admitted request is charged its
    /// estimated cost at once; a rejected one changes no counter. Either way
    /// the client is marked as seen at `now`, and no other client's record
    /// changes.
    pub fn admission(&mut self, client: &str, cost: &Usage, now: u64) -> (r: Admission)
        ensures
            final(self).limits() == old(self).limits(),
            r == old(self).record_of(client@).decision(old(self).limits()),
            r is Allow <==> old(self).record_of(client@).used.within(old(self).limits()),
            final(self).records() == old(self).records().insert(
                client@,
                old(self).record_of(client@).after_request(old(self).limits(), *cost, now),
            ),
    {
        let mut record = match table_get(&self.table, client) {
            Some(record) => record,
            None => DosRecord::fresh(),
        };
        let answer = record.admission(&self.limits, cost, now);
        table_insert(&mut self.table, client, record);
        answer
    }

    /// Adds the cost that a finished request of `client` was observed to have.
    pub fn complete(&mut self, client: &str, actual: &Usage, now: u64)
        ensures
            final(self).limits() == old(self).limits(),
            final(self).records() == old(self).records().insert(
                client@,
                old(self).record_of(client@).after_completion(*actual, now),
            ),
    {
        let mut record = match table_get(&self.table, client) {
            Some(record) => record,
            None => DosRecord::fresh(),
        };
        record.complete(actual, now);
        table_insert(&mut self.table, client, record);
    }

    /// One decay interval for every client: each counter moves towards zero
    /// by its step and stops there. No record is added or removed.
    pub fn decay(&mut self, step: &Usage)
        ensures
            final(self).limits() == old(self).limits(),
            final(self).records() == swept(old(self).records(), *step, 1),
    {
        let clients = table_clients(&self.table);
        let ghost before = table_records(self.table);
        let ghost names = identities(clients@);
        let mut i: usize = 0;
        while i < clients.len()
            invariant
                i <= clients.len(),
                self.limits == old(self).limits,
                names == identities(clients@),
                names.no_duplicates(),
                names.to_set() == before.dom(),
                table_records(self.table).dom() == before.dom(),
                forall|a: int|
                    0 <= a < i ==> table_records(self.table)[#[trigger] names[a]] == before[names[a]].after_decay(
                        *step,
                        1,
                    ),
                forall|a: int|
                    i <= a < names.len() ==> table_records(self.table)[#[trigger] names[a]] == before[names[a]],
            decreases clients.len() - i,
        {
            let client = clients[i].as_str();
            assert(client@ == names[i as int]);
            assert(names.to_set().contains(names[i as int]));
            match table_get(&self.table, client) {
                Some(record) => {
                    let mut record = record;
                    record.decay(step);
                    table_insert(&mut self.table, client, record);
                },
                None => {},
            }
            i += 1;
        }
        proof {
            let after = table_records(self.table);
            let target = swept(before, *step, 1);
            assert forall|c: Seq<char>| after.contains_key(c) implies after[c] == target[c] by {
                assert(names.to_set().contains(c));
                let a = choose|a: int| 0 <= a < names.len() && names[a] == c;
                assert(after[names[a]] == before[names[a]].after_decay(*step, 1));
            }
            assert(after =~= target);
        }
    }

    /// The periodic sweep at `now`, seconds since some fixed moment: one
    /// decay interval by the fixed step for every client, after which the
    /// records that have expired are dropped.
    pub fn sweep(&mut self, now: u64)
        ensures
            final(self).limits() == old(self).limits(),
            final(self).records() == kept(
                swept(old(self).records(), spec_decay_step(), 1),
                now,
                FORGET_AFTER_SECS,
            ),
            forall|c: Seq<char>|
                final(self).record_of(c).used == old(self).record_of(c).after_decay(
                    spec_decay_step(),
                    1,
                ).used,
    {
        let step = decay_step();
        self.decay(&step);
        proof {
            reveal_with_fuel(crate::usage::decayed_by, 2);
        }
        self.prune(now, FORGET_AFTER_SECS);
    }

    /// Drops the records that hold nothing and whose client was last seen at
    /// least `idle_for` before `now`. Decisions are not affected: a client
    /// without a record is treated as one whose counters are zero.
    pub fn prune(&mut self, now: u64, idle_for: u64)
        ensures
            final(self).limits() == old(self).limits(),
            final(self).records() == kept(old(self).records(), now, idle_for),
            forall|c: Seq<char>| final(self).record_of(c).used == old(self).record_of(c).used,
    {
        let clients = table_clients(&self.table);
        let ghost before = table_records(self.table);
        let ghost names = identities(clients@);
        let mut i: usize = 0;
        while i < clients.len()
            invariant
                i <= clients.len(),
                self.limits == old(self).limits,
                names == identities(clients@),
                names.no_duplicates(),
                names.to_set() == before.dom(),
                forall|c: Seq<char>| #[trigger]
                    table_records(self.table).contains_key(c) ==> before.contains_key(c) && table_records(self.table)[c]
                        == before[c],
                forall|a: int|
                    0 <= a < i ==> (table_records(self.table).contains_key(#[trigger] names[a])
                        <==> !before[names[a]].expired(now, idle_for)),
                forall|a: int| i <= a < names.len() ==> table_records(self.table).contains_key(#[trigger] names[a]),
            decreases clients.len() - i,
        {
            let client = clients[i].as_str();
            assert(client@ == names[i as int]);
            match table_get(&self.table, client) {
                Some(record) => {
                    if record.is_expired(now, idle_for) {
                        table_remove(&mut self.table, client);
                    }
                },
                None => {},
            }
            i += 1;
        }
        proof {
            let after = table_records(self.table);
            let kept = Set::new(|c: Seq<char>| !before[c].expired(now, idle_for));
            let target = before.restrict(kept);
            assert forall|c: Seq<char>| after.contains_key(c) <==> target.contains_key(c) by {
                if before.contains_key(c) {
                    assert(names.to_set().contains(c));
                    let a = choose|a: int| 0 <= a < names.len() && names[a] == c;
                    assert(after.contains_key(names[a]) <==> !before[names[a]].expired(
                        now,
                        idle_for,
                    ));
                }
            }
            assert(after =~= target);
        }
    }
}

/// Sweep after sweep: `first` idle decay intervals and then `second` more
/// leave the records where `first + second` in a row leave them, so that
/// after `rounds` idle intervals every counter that stood at `value` stands
/// at `max(0, value - rounds * step)`.
pub proof fn lemma_sweeps_add_up(
    records: Map<Seq<char>, DosRecord>,
    step: Usage,
    first: nat,
    second: nat,
)
    ensures
        swept(swept(records, step, first), step, second) == swept(records, step, first + second),
        swept(records, step, 0) == records,
{
    assert forall|c: Seq<char>| records.contains_key(c) implies #[trigger] swept(
        swept(records, step, first),
        step,
        second,
    )[c] == swept(records, step, first + second)[c] by {
        crate::dos::lemma_record_decay_adds(records[c], step, first, second);
    }
    assert(swept(swept(records, step, first), step, second) =~= swept(
        records,
        step,
        first + second,
    ));
    assert(swept(records, step, 0) =~= records);
}

/// Counters never go below zero, and a decay interval raises none of them.
pub proof fn lemma_decay_lowers(before: DosAccounting, after: DosAccounting, step: Usage)
    requires
        after.records() == swept(before.records(), step, 1),
    ensures
        forall|c: Seq<char>, which: crate::usage::Resource|
            0 <= #[trigger] after.record_of(c).used.of(which) <= before.record_of(c).used.of(which),
{
    assert forall|c: Seq<char>, which: crate::usage::Resource|
        0 <= #[trigger] after.record_of(c).used.of(which) <= before.record_of(c).used.of(
            which,
        ) by {
        if before.records().contains_key(c) {
            let used = before.records()[c].used;
            crate::usage::lemma_decay_bounds(used.of(which) as int, step.of(which) as int, 1);
            match which {
                crate::usage::Resource::Requests => {},
                crate::usage::Resource::BytesRead => {},
                crate::usage::Resource::CpuTime => {},
                crate::usage::Resource::BytesWritten => {},
            }
        }
    }
}

} // verus!
