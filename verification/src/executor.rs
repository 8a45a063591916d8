//! The single-writer executor as a state machine.
//!
//! The executor owns the one writer handle. It takes one item at a time, has
//! the engine run it, persists the result, and replies. What the engine and
//! the storage do happens outside; this machine decides what is done next,
//! from the state it is in and from what was reported to it.

use vstd::prelude::*;
use crate::role::Role;

verus! {

/// Where the executor stands with the item in flight.
#[derive(Clone, Copy, Debug, PartialEq, Eq, Structural)]
pub enum Phase {
    /// No item is in flight.
    Idle,
    /// The engine is running the item; `logged` is the item's flag.
    Executing { logged: bool },
    /// The item's changes are being persisted or discarded; `logs` says that
    /// a log entry goes with them, `failed` that the operation failed.
    Persisting { logs: bool, failed: bool },
    /// Persisting failed. Nothing is served any more.
    Halted,
}

/// Why an item was not taken.
#[derive(Clone, Copy, Debug, PartialEq, Eq, Structural)]
pub enum Refusal {
    /// Another item is in flight; the submitter waits.
    Busy,
    /// The executor has halted.
    Halted,
    /// No ticket is left to give.
    Exhausted,
}

/// What was reported to the executor.
#[derive(Clone, Copy, Debug, PartialEq, Eq, Structural)]
pub enum Event {
    /// A caller offers an item; `logged` marks it as one to be logged.
    Submitted { logged: bool },
    /// The engine has run the item.
    Executed { failed: bool, changed: bool },
    /// The storage has finished; `pages` pages were updated.
    Saved { pages: usize },
    /// The storage could not persist.
    SaveFailed,
}

/// What is to be done next.
#[derive(Clone, Copy, Debug, PartialEq, Eq, Structural)]
pub enum Action {
    /// The item is taken under `ticket`: have the engine run it.
    Run { ticket: u64 },
    /// The item is not taken.
    Refuse(Refusal),
    /// Persist the changes; if `log`, append the serialised operation first.
    Commit { log: bool },
    /// The operation failed: discard its changes.
    Rollback,
    /// Deliver the result to the item's caller; if `notify`, signal that the
    /// database has changed; `failed` says that the result is an error.
    Reply { ticket: u64, notify: bool, failed: bool },
    /// Deliver the persistence failure to the item's caller and stop.
    Halt { ticket: u64 },
    /// The report does not fit the phase. Nothing has changed.
    Ignore,
}

/// The executor's state.
#[derive(Clone, Copy, Debug, PartialEq, Eq, Structural)]
pub struct ExecutorState {
    pub role: Role,
    pub phase: Phase,
    /// Items taken so far; the next ticket.
    pub accepted: u64,
    /// Items replied to so far.
    pub completed: u64,
    /// Log entries committed so far.
    pub logged: u64,
    /// Commits that updated pages so far: the level of the change signal.
    pub version: u64,
}

impl ExecutorState {
    /// The state at startup: idle, with nothing taken yet.
    pub open spec fn init(role: Role) -> ExecutorState {
        ExecutorState { role, phase: Phase::Idle, accepted: 0, completed: 0, logged: 0, version: 0 }
    }

    /// Replies follow acceptance one for one, and at most one item is in
    /// flight.
    pub open spec fn wf(self) -> bool {
        &&& self.logged <= self.completed
        &&& self.version <= self.completed
        &&& match self.phase {
            Phase::Idle => self.accepted == self.completed,
            Phase::Halted => self.accepted == self.completed,
            Phase::Executing { .. } => self.accepted == self.completed + 1,
            Phase::Persisting { .. } => self.accepted == self.completed + 1,
        }
    }

    /// Whether an operation goes to the log: on the master, for an item
    /// marked as logged, when running it changed the database.
    pub open spec fn logs(self, logged: bool, failed: bool, changed: bool) -> bool {
        self.role is Master && logged && !failed && changed
    }

    /// The transition: the state after `event`, and what is to be done.
    pub open spec fn next(self, event: Event) -> (ExecutorState, Action) {
        match (self.phase, event) {
            (Phase::Idle, Event::Submitted { logged }) => {
                if self.accepted == u64::MAX {
                    (self, Action::Refuse(Refusal::Exhausted))
                } else {
                    (
                        ExecutorState {
                            phase: Phase::Executing { logged },
                            accepted: (self.accepted + 1) as u64,
                            ..self
                        },
                        Action::Run { ticket: self.accepted },
                    )
                }
            },
            (Phase::Halted, Event::Submitted { .. }) => (self, Action::Refuse(Refusal::Halted)),
            (_, Event::Submitted { .. }) => (self, Action::Refuse(Refusal::Busy)),
            (Phase::Executing { logged }, Event::Executed { failed, changed }) => {
                let logs = self.logs(logged, failed, changed);
                (
                    ExecutorState { phase: Phase::Persisting { logs, failed }, ..self },
                    if failed {
                        Action::Rollback
                    } else {
                        Action::Commit { log: logs }
                    },
                )
            },
            (Phase::Persisting { logs, failed }, Event::Saved { pages }) => (
                ExecutorState {
                    phase: Phase::Idle,
                    completed: (self.completed + 1) as u64,
                    logged: if logs {
                        (self.logged + 1) as u64
                    } else {
                        self.logged
                    },
                    version: if pages > 0 {
                        (self.version + 1) as u64
                    } else {
                        self.version
                    },
                    ..self
                },
                Action::Reply { ticket: self.completed, notify: pages > 0, failed },
            ),
            (Phase::Persisting { .. }, Event::SaveFailed) => (
                ExecutorState {
                    phase: Phase::Halted,
                    completed: (self.completed + 1) as u64,
                    ..self
                },
                Action::Halt { ticket: self.completed },
            ),
            _ => (self, Action::Ignore),
        }
    }

    /// The state after a sequence of events.
    pub open spec fn run(self, events: Seq<Event>) -> ExecutorState
        decreases events.len(),
    {
        if events.len() == 0 {
            self
        } else {
            self.run(events.drop_last()).next(events.last()).0
        }
    }

    /// What was to be done after each event of a sequence.
    pub open spec fn actions(self, events: Seq<Event>) -> Seq<Action>
        decreases events.len(),
    {
        if events.len() == 0 {
            Seq::empty()
        } else {
            self.actions(events.drop_last()).push(
                self.run(events.drop_last()).next(events.last()).1,
            )
        }
    }
}

/// The tickets under which items were handed to the engine, in that order.
pub open spec fn started(actions: Seq<Action>) -> Seq<u64>
    decreases actions.len(),
{
    if actions.len() == 0 {
        Seq::empty()
    } else {
        match actions.last() {
            Action::Run { ticket } => started(actions.drop_last()).push(ticket),
            _ => started(actions.drop_last()),
        }
    }
}

/// The tickets whose callers were answered, in that order.
pub open spec fn answered(actions: Seq<Action>) -> Seq<u64>
    decreases actions.len(),
{
    if actions.len() == 0 {
        Seq::empty()
    } else {
        match actions.last() {
            Action::Reply { ticket, .. } => answered(actions.drop_last()).push(ticket),
            Action::Halt { ticket } => answered(actions.drop_last()).push(ticket),
            _ => answered(actions.drop_last()),
        }
    }
}

/// The first `count` tickets in the order in which they are given.
pub open spec fn tickets(count: nat) -> Seq<u64> {
    Seq::new(count, |i: int| i as u64)
}

/// The state that an engine reaches when it runs the items of `order` one
/// after the other, starting from `start`.
pub open spec fn replay<S>(engine: spec_fn(S, u64) -> S, start: S, order: Seq<u64>) -> S {
    order.fold_left(start, engine)
}

/// The single-writer executor.
pub struct Executor {
    state: ExecutorState,
}

impl View for Executor {
    type V = ExecutorState;

    closed spec fn view(&self) -> ExecutorState {
        self.state
    }
}

impl Executor {
    #[verifier::type_invariant]
    spec fn inv(self) -> bool {
        self.state.wf()
    }

    /// The executor of a process in `role`, idle.
    pub fn new(role: Role) -> (r: Executor)
        ensures
            r@ == ExecutorState::init(role),
    {
        Executor {
            state: ExecutorState {
                role,
                phase: Phase::Idle,
                accepted: 0,
                completed: 0,
                logged: 0,
                version: 0,
            },
        }
    }

    /// An executor that takes up from `state`, or `None` where the state is
    /// not one that an executor can be in.
    pub fn restore(state: ExecutorState) -> (r: Option<Executor>)
        ensures
            r is Some <==> state.wf(),
            r matches Some(executor) ==> executor@ == state,
    {
        let in_flight: bool = match state.phase {
            Phase::Idle => false,
            Phase::Halted => false,
            Phase::Executing { .. } => true,
            Phase::Persisting { .. } => true,
        };
        let balanced: bool = if in_flight {
            state.completed < u64::MAX && state.accepted == state.completed + 1
        } else {
            state.accepted == state.completed
        };
        if balanced && state.logged <= state.completed && state.version <= state.completed {
            Some(Executor { state })
        } else {
            None
        }
    }

    /// Takes one report and says what is to be done. Items are taken only
    /// while none is in flight, so they run in the order in which they were
    /// taken; each gets one reply; after a persistence failure nothing is
    /// taken any more.
    pub fn step(&mut self, event: Event) -> (action: Action)
        ensures
            old(self)@.wf(),
            final(self)@.wf(),
            (final(self)@, action) == old(self)@.next(event),
    {
        proof {
            use_type_invariant(&*self);
        }
        let state = self.state;
        match (state.phase, event) {
            (Phase::Idle, Event::Submitted { logged }) => {
                if state.accepted == u64::MAX {
                    Action::Refuse(Refusal::Exhausted)
                } else {
                    self.state = ExecutorState {
                        phase: Phase::Executing { logged },
                        accepted: state.accepted + 1,
                        ..state
                    };
                    Action::Run { ticket: state.accepted }
                }
            },
            (Phase::Halted, Event::Submitted { .. }) => Action::Refuse(Refusal::Halted),
            (_, Event::Submitted { .. }) => Action::Refuse(Refusal::Busy),
            (Phase::Executing { logged }, Event::Executed { failed, changed }) => {
                let logs = state.role.is_master() && logged && !failed && changed;
                self.state = ExecutorState { phase: Phase::Persisting { logs, failed }, ..state };
                if failed {
                    Action::Rollback
                } else {
                    Action::Commit { log: logs }
                }
            },
            (Phase::Persisting { logs, failed }, Event::Saved { pages }) => {
                let notify = pages > 0;
                self.state = ExecutorState {
                    phase: Phase::Idle,
                    completed: state.completed + 1,
                    logged: if logs {
                        state.logged + 1
                    } else {
                        state.logged
                    },
                    version: if notify {
                        state.version + 1
                    } else {
                        state.version
                    },
                    ..state
                };
                Action::Reply { ticket: state.completed, notify, failed }
            },
            (Phase::Persisting { .. }, Event::SaveFailed) => {
                self.state = ExecutorState {
                    phase: Phase::Halted,
                    completed: state.completed + 1,
                    ..state
                };
                Action::Halt { ticket: state.completed }
            },
            _ => Action::Ignore,
        }
    }

    /// The state as it stands.
    pub fn state(&self) -> (r: ExecutorState)
        ensures
            r == self@,
            r.wf(),
    {
        proof {
            use_type_invariant(self);
        }
        self.state
    }

    /// Whether a commit has updated pages since the signal stood at `seen`.
    /// One look answers for any number of commits: the signal is a level,
    /// not a count of notifications.
    pub fn changed_since(&self, seen: u64) -> (r: bool)
        ensures
            r == (self@.version > seen),
    {
        self.state.version > seen
    }
}

/// A transition keeps the state well formed, moves no counter backwards, and
/// answers the item in flight or none.
pub proof fn lemma_next_keeps_wf(state: ExecutorState, event: Event)
    requires
        state.wf(),
    ensures
        state.next(event).0.wf(),
        state.next(event).0.role == state.role,
        state.next(event).0.accepted >= state.accepted,
        state.next(event).0.completed >= state.completed,
        state.next(event).0.logged >= state.logged,
        state.next(event).0.version >= state.version,
{
}

/// Every state reached from a well-formed one is well formed, and no
/// counter has moved backwards on the way. The initial state is well formed.
pub proof fn lemma_run_keeps_wf(state: ExecutorState, events: Seq<Event>)
    requires
        state.wf(),
    ensures
        state.run(events).wf(),
        state.run(events).role == state.role,
        state.run(events).accepted >= state.accepted,
        state.run(events).completed >= state.completed,
        state.run(events).logged >= state.logged,
        state.run(events).version >= state.version,
        state.actions(events).len() == events.len(),
        ExecutorState::init(state.role).wf(),
    decreases events.len(),
{
    if events.len() > 0 {
        lemma_run_keeps_wf(state, events.drop_last());
        lemma_next_keeps_wf(state.run(events.drop_last()), events.last());
    }
}

/// The change signal is a level: it stands higher than before whenever a
/// commit has updated pages since, however many such commits there were and
/// whether or not anyone looked in between.
pub proof fn lemma_signal_is_a_level(state: ExecutorState, events: Seq<Event>, i: int)
    requires
        state.wf(),
        0 <= i < events.len(),
        state.actions(events)[i] matches Action::Reply { notify: true, .. },
    ensures
        state.run(events).version > state.version,
    decreases events.len(),
{
    let earlier = events.drop_last();
    lemma_run_keeps_wf(state, earlier);
    lemma_next_keeps_wf(state.run(earlier), events.last());
    if i < events.len() - 1 {
        assert(state.actions(events)[i] == state.actions(earlier)[i]);
        lemma_signal_is_a_level(state, earlier, i);
    }
}

/// Whatever the submitters do and in whatever order reports arrive, items
/// are handed to the engine in the order in which they were taken, one at a
/// time, and each caller is answered once, in that same order.
pub proof fn lemma_serial_order(role: Role, events: Seq<Event>)
    ensures
        started(ExecutorState::init(role).actions(events)) == tickets(
            ExecutorState::init(role).run(events).accepted as nat,
        ),
        answered(ExecutorState::init(role).actions(events)) == tickets(
            ExecutorState::init(role).run(events).completed as nat,
        ),
    decreases events.len(),
{
    let init = ExecutorState::init(role);
    if events.len() == 0 {
        assert(started(init.actions(events)) =~= tickets(0));
        assert(answered(init.actions(events)) =~= tickets(0));
    } else {
        let earlier = events.drop_last();
        lemma_serial_order(role, earlier);
        lemma_run_keeps_wf(init, earlier);
        let before = init.run(earlier);
        let (after, action) = before.next(events.last());
        let acts = init.actions(events);
        assert(acts.drop_last() =~= init.actions(earlier));
        assert(acts.last() == action);
        assert(started(acts) =~= tickets(after.accepted as nat));
        assert(answered(acts) =~= tickets(after.completed as nat));
    }
}

/// The database is in the state that running the accepted items one after
/// the other, in the order of acceptance, leads to: for every engine whose
/// result depends only on the state it starts from and the item it runs.
pub proof fn lemma_serializable<S>(
    role: Role,
    events: Seq<Event>,
    engine: spec_fn(S, u64) -> S,
    start: S,
)
    ensures
        replay(engine, start, started(ExecutorState::init(role).actions(events))) == replay(
            engine,
            start,
            tickets(ExecutorState::init(role).run(events).accepted as nat),
        ),
{
    lemma_serial_order(role, events);
}

/// Once halted, the executor takes no item and changes no more.
pub proof fn lemma_halted_is_final(state: ExecutorState, events: Seq<Event>)
    requires
        state.phase is Halted,
    ensures
        state.run(events) == state,
        forall|i: int|
            0 <= i < events.len() ==> (#[trigger] state.actions(events)[i] == Action::Ignore
                || state.actions(events)[i] == Action::Refuse(Refusal::Halted)),
        state.actions(events).len() == events.len(),
    decreases events.len(),
{
    if events.len() > 0 {
        lemma_halted_is_final(state, events.drop_last());
    }
}

/// Persisting is all or nothing. A save that succeeds counts the item's log
/// entry, if it has one, and answers the item; a save that fails counts
/// nothing and halts the executor; no other report changes anything while
/// the save is under way.
pub proof fn lemma_save_is_all_or_nothing(state: ExecutorState, event: Event)
    requires
        state.wf(),
        state.phase is Persisting,
    ensures
        match event {
            Event::Saved { pages } => {
                &&& state.next(event).0.phase is Idle
                &&& state.next(event).0.completed == state.completed + 1
                &&& state.next(event).0.logged == state.logged + if state.phase->logs {
                    1int
                } else {
                    0int
                }
                &&& state.next(event).0.version == state.version + if pages > 0 {
                    1int
                } else {
                    0int
                }
            },
            Event::SaveFailed => {
                &&& state.next(event).0.phase is Halted
                &&& state.next(event).0.completed == state.completed + 1
                &&& state.next(event).0.logged == state.logged
                &&& state.next(event).0.version == state.version
            },
            _ => state.next(event).0 == state,
        },
{
}

/// A replica appends nothing to the log.
pub proof fn lemma_replica_logs_nothing(events: Seq<Event>)
    ensures
        ExecutorState::init(Role::Replica).run(events).logged == 0,
        !(ExecutorState::init(Role::Replica).run(events).phase matches Phase::Persisting {
            logs: true,
            ..
        }),
    decreases events.len(),
{
    if events.len() > 0 {
        lemma_replica_logs_nothing(events.drop_last());
        lemma_run_keeps_wf(ExecutorState::init(Role::Replica), events.drop_last());
    }
}

} // verus!
