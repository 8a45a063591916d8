//! The replica's side of replication: handshake, bootstrap or resume, then
//! streaming of the master's log.
//!
//! A replica applies the entries of the master's log in the master's order.
//! It never skips an entry and never applies one twice: its position is the
//! number of entries that it has applied, and the next one that it applies is
//! the one at that position.

use vstd::prelude::*;
use crate::log::contents;

verus! {

/// How far a replica has come.
#[derive(Clone, Copy, Debug, PartialEq, Eq, Structural)]
pub enum ReplicaPhase {
    /// Nothing has been done yet.
    Uninitialized,
    /// The handshake with the master is under way.
    Handshaking,
    /// The local database is new: it is being filled from the master.
    Bootstrapping,
    /// The local database has state: the log is pulled from where it ended.
    Resuming,
    /// The replica follows the master's log.
    Streaming,
    /// Handshake or bootstrap failed. The replica serves nothing.
    Failed,
}

/// What was reported to the replica.
#[derive(Clone, Copy, Debug, PartialEq, Eq, Structural)]
pub enum ReplicaEvent {
    /// The process has started.
    Start,
    /// The handshake succeeded. `is_new` says that the local database was
    /// just created; otherwise it holds the first `resume_at` log entries.
    Handshaken { is_new: bool, resume_at: u64 },
    /// The handshake failed.
    HandshakeFailed,
    /// The local database now holds the master's state after `position`
    /// log entries.
    Bootstrapped { position: u64 },
    /// The bootstrap failed.
    BootstrapFailed,
    /// Pulling the log failed for a reason that may pass.
    StreamFailed,
}

/// What the replica is to do next.
#[derive(Clone, Copy, Debug, PartialEq, Eq, Structural)]
pub enum ReplicaAction {
    /// Ask the master whether this replica is new.
    Handshake,
    /// Copy the master's state.
    Bootstrap,
    /// Ask the master for the log entries from `from` on.
    Pull { from: u64 },
    /// Wait `delay_ms` milliseconds, then pull again.
    RetryAfter { delay_ms: u64 },
    /// Stop: the replica cannot reach a consistent state.
    Abort,
    /// The report does not fit the phase. Nothing has changed.
    Ignore,
}

/// The delay before the first retry, in milliseconds.
pub const RETRY_BASE_MS: u64 = 1000;

/// The number of failures in a row after which the delay grows no more.
pub const RETRY_DOUBLINGS: u32 = 6;

/// `value` doubled `times` times.
pub open spec fn doubled(value: nat, times: nat) -> nat
    decreases times,
{
    if times == 0 {
        value
    } else {
        2 * doubled(value, (times - 1) as nat)
    }
}

/// The delay before the retry that follows `failures` earlier failures in a
/// row: it starts at `RETRY_BASE_MS` and doubles with each failure, up to
/// `RETRY_DOUBLINGS` times.
pub open spec fn retry_delay(failures: u32) -> nat {
    if failures >= RETRY_DOUBLINGS {
        doubled(RETRY_BASE_MS as nat, RETRY_DOUBLINGS as nat)
    } else {
        doubled(RETRY_BASE_MS as nat, failures as nat)
    }
}

/// The replica's state.
#[derive(Clone, Copy, Debug, PartialEq, Eq, Structural)]
pub struct ReplicaState {
    pub phase: ReplicaPhase,
    /// The number of log entries that the local database reflects.
    pub position: u64,
    /// Stream failures since the last batch that arrived.
    pub failures: u32,
}

/// An answer to a pull: the entries that the master holds from `from` on.
pub struct Batch {
    pub from: u64,
    pub entries: Seq<Seq<u8>>,
}

impl Batch {
    /// Whether the batch is what `log` holds at its positions.
    pub open spec fn taken_from(self, log: Seq<Seq<u8>>) -> bool {
        &&& self.from + self.entries.len() <= log.len()
        &&& self.entries == log.subrange(self.from as int, self.from + self.entries.len())
    }
}

impl ReplicaState {
    /// The state at startup.
    pub open spec fn init() -> ReplicaState {
        ReplicaState { phase: ReplicaPhase::Uninitialized, position: 0, failures: 0 }
    }

    /// Whether the replica follows the log: it has a consistent base.
    pub open spec fn follows(self) -> bool {
        self.phase is Resuming || self.phase is Streaming
    }

    /// Whether local reads are served: once the replica has caught up with
    /// an answer from the master, and from then on.
    pub open spec fn serves_reads(self) -> bool {
        self.phase is Streaming
    }

    /// The transition: the state after `event`, and what is to be done.
    pub open spec fn next(self, event: ReplicaEvent) -> (ReplicaState, ReplicaAction) {
        match (self.phase, event) {
            (ReplicaPhase::Uninitialized, ReplicaEvent::Start) => (
                ReplicaState { phase: ReplicaPhase::Handshaking, ..self },
                ReplicaAction::Handshake,
            ),
            (ReplicaPhase::Handshaking, ReplicaEvent::Handshaken { is_new, resume_at }) => {
                if is_new {
                    (
                        ReplicaState { phase: ReplicaPhase::Bootstrapping, position: 0, ..self },
                        ReplicaAction::Bootstrap,
                    )
                } else {
                    (
                        ReplicaState {
                            phase: ReplicaPhase::Resuming,
                            position: resume_at,
                            ..self
                        },
                        ReplicaAction::Pull { from: resume_at },
                    )
                }
            },
            (ReplicaPhase::Handshaking, ReplicaEvent::HandshakeFailed) => (
                ReplicaState { phase: ReplicaPhase::Failed, ..self },
                ReplicaAction::Abort,
            ),
            (ReplicaPhase::Bootstrapping, ReplicaEvent::Bootstrapped { position }) => (
                ReplicaState { phase: ReplicaPhase::Streaming, position, failures: 0 },
                ReplicaAction::Pull { from: position },
            ),
            (ReplicaPhase::Bootstrapping, ReplicaEvent::BootstrapFailed) => (
                ReplicaState { phase: ReplicaPhase::Failed, ..self },
                ReplicaAction::Abort,
            ),
            (ReplicaPhase::Resuming, ReplicaEvent::StreamFailed) => self.after_stream_failure(),
            (ReplicaPhase::Streaming, ReplicaEvent::StreamFailed) => self.after_stream_failure(),
            _ => (self, ReplicaAction::Ignore),
        }
    }

    /// A failure while following the log is not fatal: the phase stays, and
    /// the next pull waits longer than the last.
    pub open spec fn after_stream_failure(self) -> (ReplicaState, ReplicaAction) {
        (
            ReplicaState {
                failures: if self.failures == u32::MAX {
                    self.failures
                } else {
                    (self.failures + 1) as u32
                },
                ..self
            },
            ReplicaAction::RetryAfter { delay_ms: retry_delay(self.failures) as u64 },
        )
    }

    /// Whether a batch that starts at `from` and holds `count` entries
    /// connects to what the replica has applied: it starts at or before the
    /// replica's position and does not end before it.
    pub open spec fn connects(self, from: u64, count: nat) -> bool {
        &&& self.follows()
        &&& from <= self.position <= from + count
        &&& from + count <= u64::MAX
    }

    /// The entries of a batch that the replica has yet to apply, in order:
    /// those from its position on. A batch that does not connect yields none.
    pub open spec fn fresh(self, from: u64, entries: Seq<Seq<u8>>) -> Seq<Seq<u8>> {
        if self.connects(from, entries.len()) {
            entries.skip(self.position - from)
        } else {
            Seq::empty()
        }
    }

    /// The state after a batch: a batch that connects moves the position to
    /// its end; any other leaves the state as it was.
    pub open spec fn after_batch(self, from: u64, count: nat) -> ReplicaState {
        if self.connects(from, count) {
            ReplicaState {
                phase: ReplicaPhase::Streaming,
                position: (from + count) as u64,
                failures: 0,
            }
        } else {
            self
        }
    }

    /// The state after a sequence of batches.
    pub open spec fn after_batches(self, batches: Seq<Batch>) -> ReplicaState
        decreases batches.len(),
    {
        if batches.len() == 0 {
            self
        } else {
            self.after_batches(batches.drop_last()).after_batch(
                batches.last().from,
                batches.last().entries.len(),
            )
        }
    }

    /// Everything that the replica applies over a sequence of batches, in
    /// the order in which it applies it.
    pub open spec fn applied(self, batches: Seq<Batch>) -> Seq<Seq<u8>>
        decreases batches.len(),
    {
        if batches.len() == 0 {
            Seq::empty()
        } else {
            self.applied(batches.drop_last()) + self.after_batches(batches.drop_last()).fresh(
                batches.last().from,
                batches.last().entries,
            )
        }
    }
}

/// The state that an engine reaches when it applies `entries` one after the
/// other, starting from `start`.
pub open spec fn replay_log<S>(
    engine: spec_fn(S, Seq<u8>) -> S,
    start: S,
    entries: Seq<Seq<u8>>,
) -> S {
    entries.fold_left(start, engine)
}

/// A replica.
pub struct Replica {
    state: ReplicaState,
}

impl View for Replica {
    type V = ReplicaState;

    closed spec fn view(&self) -> ReplicaState {
        self.state
    }
}

impl Replica {
    /// A replica on which nothing has been done yet.
    pub fn new() -> (r: Replica)
        ensures
            r@ == ReplicaState::init(),
    {
        Replica {
            state: ReplicaState { phase: ReplicaPhase::Uninitialized, position: 0, failures: 0 },
        }
    }

    /// The state as it stands.
    pub fn state(&self) -> (r: ReplicaState)
        ensures
            r == self@,
    {
        self.state
    }

    /// The number of log entries applied: where the next pull starts.
    pub fn position(&self) -> (r: u64)
        ensures
            r == self@.position,
    {
        self.state.position
    }

    /// Whether local reads are served.
    pub fn serves_reads(&self) -> (r: bool)
        ensures
            r == self@.serves_reads(),
    {
        match self.state.phase {
            ReplicaPhase::Streaming => true,
            _ => false,
        }
    }

    /// Takes one report and says what is to be done. A failed handshake or
    /// bootstrap is final; a failure while following the log leads to a
    /// retry after a delay.
    pub fn step(&mut self, event: ReplicaEvent) -> (action: ReplicaAction)
        ensures
            (final(self)@, action) == old(self)@.next(event),
    {
        let state = self.state;
        match (state.phase, event) {
            (ReplicaPhase::Uninitialized, ReplicaEvent::Start) => {
                self.state = ReplicaState { phase: ReplicaPhase::Handshaking, ..state };
                ReplicaAction::Handshake
            },
            (ReplicaPhase::Handshaking, ReplicaEvent::Handshaken { is_new, resume_at }) => {
                if is_new {
                    self.state = ReplicaState {
                        phase: ReplicaPhase::Bootstrapping,
                        position: 0,
                        ..state
                    };
                    ReplicaAction::Bootstrap
                } else {
                    self.state = ReplicaState {
                        phase: ReplicaPhase::Resuming,
                        position: resume_at,
                        ..state
                    };
                    ReplicaAction::Pull { from: resume_at }
                }
            },
            (ReplicaPhase::Handshaking, ReplicaEvent::HandshakeFailed) => {
                self.state = ReplicaState { phase: ReplicaPhase::Failed, ..state };
                ReplicaAction::Abort
            },
            (ReplicaPhase::Bootstrapping, ReplicaEvent::Bootstrapped { position }) => {
                self.state = ReplicaState { phase: ReplicaPhase::Streaming, position, failures: 0 };
                ReplicaAction::Pull { from: position }
            },
            (ReplicaPhase::Bootstrapping, ReplicaEvent::BootstrapFailed) => {
                self.state = ReplicaState { phase: ReplicaPhase::Failed, ..state };
                ReplicaAction::Abort
            },
            (ReplicaPhase::Resuming, ReplicaEvent::StreamFailed) => self.stream_failed(),
            (ReplicaPhase::Streaming, ReplicaEvent::StreamFailed) => self.stream_failed(),
            _ => ReplicaAction::Ignore,
        }
    }

    fn stream_failed(&mut self) -> (action: ReplicaAction)
        ensures
            (final(self)@, action) == old(self)@.after_stream_failure(),
    {
        let delay_ms: u64 = backoff(self.state.failures);
        if self.state.failures < u32::MAX {
            self.state.failures = self.state.failures + 1;
        }
        ReplicaAction::RetryAfter { delay_ms }
    }

    /// Takes the answer to a pull and returns the entries to apply, in the
    /// order in which to apply them. Entries that were applied before are
    /// left out; a batch that starts past the replica's position is not
    /// applied at all, because that would skip entries.
    pub fn receive(&mut self, from: u64, entries: Vec<Vec<u8>>) -> (apply: Vec<Vec<u8>>)
        ensures
            contents(apply@) == old(self)@.fresh(from, contents(entries@)),
            final(self)@ == old(self)@.after_batch(from, entries@.len()),
    {
        let mut entries = entries;
        let ghost given = entries@;
        let count: u64 = entries.len() as u64;
        let position: u64 = self.state.position;
        let follows: bool = match self.state.phase {
            ReplicaPhase::Resuming => true,
            ReplicaPhase::Streaming => true,
            _ => false,
        };
        let connects: bool = follows && from <= position && count <= u64::MAX - from && position
            <= from + count;
        if !connects {
            let nothing: Vec<Vec<u8>> = Vec::new();
            assert(contents(nothing@) =~= Seq::<Seq<u8>>::empty());
            return nothing;
        }
        let skip: usize = (position - from) as usize;
        let apply = entries.split_off(skip);
        assert(contents(apply@) =~= contents(given).skip(skip as int));
        self.state = ReplicaState {
            phase: ReplicaPhase::Streaming,
            position: from + count,
            failures: 0,
        };
        apply
    }
}

/// The delay in milliseconds before the retry that follows `failures`
/// earlier failures in a row.
pub fn backoff(failures: u32) -> (delay_ms: u64)
    ensures
        delay_ms == retry_delay(failures),
        RETRY_BASE_MS <= delay_ms <= 64 * RETRY_BASE_MS,
{
    let rounds: u32 = if failures >= RETRY_DOUBLINGS {
        RETRY_DOUBLINGS
    } else {
        failures
    };
    let mut delay_ms: u64 = RETRY_BASE_MS;
    let mut i: u32 = 0;
    proof {
        reveal_with_fuel(doubled, 7);
    }
    while i < rounds
        invariant
            i <= rounds <= RETRY_DOUBLINGS,
            delay_ms == doubled(RETRY_BASE_MS as nat, i as nat),
            delay_ms <= doubled(RETRY_BASE_MS as nat, RETRY_DOUBLINGS as nat),
            doubled(RETRY_BASE_MS as nat, RETRY_DOUBLINGS as nat) == 64 * RETRY_BASE_MS,
        decreases rounds - i,
    {
        proof {
            lemma_doubled_grows(RETRY_BASE_MS as nat, (i + 1) as nat, RETRY_DOUBLINGS as nat);
        }
        delay_ms = delay_ms * 2;
        i += 1;
    }
    proof {
        lemma_doubled_grows(RETRY_BASE_MS as nat, 0, rounds as nat);
    }
    delay_ms
}

/// Doubling more often never gives less.
pub proof fn lemma_doubled_grows(value: nat, fewer: nat, more: nat)
    requires
        fewer <= more,
    ensures
        doubled(value, fewer) <= doubled(value, more),
    decreases more,
{
    if fewer < more {
        lemma_doubled_grows(value, fewer, (more - 1) as nat);
    }
}

/// The delay never shrinks as failures go on.
pub proof fn lemma_retry_delay_grows(fewer: u32, more: u32)
    requires
        fewer <= more,
    ensures
        retry_delay(fewer) <= retry_delay(more),
{
    let a: nat = if fewer >= RETRY_DOUBLINGS { RETRY_DOUBLINGS as nat } else { fewer as nat };
    let b: nat = if more >= RETRY_DOUBLINGS { RETRY_DOUBLINGS as nat } else { more as nat };
    lemma_doubled_grows(RETRY_BASE_MS as nat, a, b);
}

/// Handshake and bootstrap failures are final, and a failed replica never
/// serves reads; a stream failure changes neither phase nor position.
pub proof fn lemma_failures(state: ReplicaState, event: ReplicaEvent)
    ensures
        state.phase is Failed ==> state.next(event) == (state, ReplicaAction::Ignore),
        state.phase is Failed ==> !state.serves_reads(),
        event is StreamFailed ==> state.next(event).0.phase == state.phase && state.next(
            event,
        ).0.position == state.position,
        state.next(event).0.serves_reads() ==> state.serves_reads() || (state.phase
            is Bootstrapping && event is Bootstrapped),
{
}

/// Applying one stretch of entries and then another is applying the two in
/// a row.
pub proof fn lemma_replay_in_stages<S>(
    engine: spec_fn(S, Seq<u8>) -> S,
    start: S,
    first: Seq<Seq<u8>>,
    second: Seq<Seq<u8>>,
)
    ensures
        replay_log(engine, replay_log(engine, start, first), second) == replay_log(
            engine,
            start,
            first + second,
        ),
    decreases second.len(),
{
    if second.len() == 0 {
        assert(first + second =~= first);
    } else {
        lemma_replay_in_stages(engine, start, first, second.drop_last());
        assert((first + second).drop_last() =~= first + second.drop_last());
        assert((first + second).last() == second.last());
    }
}

/// A replica that is answered from the master's log applies, in order and
/// without gap or repeat, the entries between the position at which it
/// started and the position that it has reached.
pub proof fn lemma_replica_follows_log(
    log: Seq<Seq<u8>>,
    start: ReplicaState,
    batches: Seq<Batch>,
)
    requires
        start.position <= log.len(),
        forall|i: int| 0 <= i < batches.len() ==> (#[trigger] batches[i]).taken_from(log),
    ensures
        start.position <= start.after_batches(batches).position <= log.len(),
        start.applied(batches) == log.subrange(
            start.position as int,
            start.after_batches(batches).position as int,
        ),
    decreases batches.len(),
{
    if batches.len() == 0 {
        assert(start.applied(batches) =~= log.subrange(
            start.position as int,
            start.position as int,
        ));
    } else {
        let earlier = batches.drop_last();
        let last = batches.last();
        assert forall|i: int| 0 <= i < earlier.len() implies (#[trigger] earlier[i]).taken_from(
            log,
        ) by {
            assert(earlier[i] == batches[i]);
        }
        lemma_replica_follows_log(log, start, earlier);
        let middle = start.after_batches(earlier);
        assert(last.taken_from(log));
        assert(start.applied(batches) =~= log.subrange(
            start.position as int,
            start.after_batches(batches).position as int,
        ));
    }
}

/// Convergence: a replica whose database held the master's state after
/// `start.position` log entries, and that has since been answered from the
/// master's log, holds the master's state after as many entries as its
/// position says. This holds for every engine whose result depends only on
/// the state it starts from and the entry it applies.
pub proof fn lemma_replica_converges<S>(
    log: Seq<Seq<u8>>,
    start: ReplicaState,
    batches: Seq<Batch>,
    engine: spec_fn(S, Seq<u8>) -> S,
    empty: S,
)
    requires
        start.position <= log.len(),
        forall|i: int| 0 <= i < batches.len() ==> (#[trigger] batches[i]).taken_from(log),
    ensures
        start.after_batches(batches).position <= log.len(),
        replay_log(
            engine,
            replay_log(engine, empty, log.take(start.position as int)),
            start.applied(batches),
        ) == replay_log(engine, empty, log.take(start.after_batches(batches).position as int)),
{
    lemma_replica_follows_log(log, start, batches);
    let from = start.position as int;
    let to = start.after_batches(batches).position as int;
    lemma_replay_in_stages(engine, empty, log.take(from), log.subrange(from, to));
    assert(log.take(from) + log.subrange(from, to) =~= log.take(to));
}

} // verus!
