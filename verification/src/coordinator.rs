//! The concurrency coordinator as a state machine. One worker runs per item
//! and reports how it ended; when all have ended the caller joins and says
//! whether it owns the encoder alone. The coordinator answers each event
//! with what to do next, and asks for finalization at most once, never while
//! a worker is outstanding.

use crate::error::{reaction_of, ExportError, Reaction};
use vstd::prelude::*;

verus! {

/// Where an export stands.
#[derive(Clone, Copy, Debug, PartialEq, Eq, Structural)]
pub enum Phase {
    /// Workers may still write.
    Running,
    /// Finalization was asked for.
    Finalized,
    /// Finalization was given up: the container stays without its directory.
    Abandoned,
}

/// What happened.
#[derive(Clone, Copy, Debug, PartialEq, Eq, Structural)]
pub enum Event {
    /// A worker wrote its entry and released the permit.
    ItemWritten,
    /// A worker could not make its payload and ended without writing.
    ItemSkipped,
    /// A worker's write failed, or was given up because an earlier one had
    /// failed.
    WriteFailed,
    /// Every worker was joined; `sole_owner` says whether the encoder could be
    /// reclaimed.
    Joined { sole_owner: bool },
}

/// The failure that an event reports, if it reports one.
pub open spec fn failure_of(event: Event) -> Option<ExportError> {
    match event {
        Event::ItemWritten => None,
        Event::ItemSkipped => Some(ExportError::PerItemFailure),
        Event::WriteFailed => Some(ExportError::WriteFailure),
        Event::Joined { sole_owner } => if sole_owner {
            None
        } else {
            Some(ExportError::FinalizationRaceFailure)
        },
    }
}

impl Event {
    /// The failure that this event reports, if it reports one.
    pub fn failure(self) -> (failure: Option<ExportError>)
        ensures
            failure == failure_of(self),
    {
        match self {
            Event::ItemWritten => None,
            Event::ItemSkipped => Some(ExportError::PerItemFailure),
            Event::WriteFailed => Some(ExportError::WriteFailure),
            Event::Joined { sole_owner } => if sole_owner {
                None
            } else {
                Some(ExportError::FinalizationRaceFailure)
            },
        }
    }
}

/// What to do next.
#[derive(Clone, Copy, Debug, PartialEq, Eq, Structural)]
pub enum Action {
    /// Go on: wait for the workers that are outstanding.
    Wait,
    /// Write the directory and close the sink.
    Finalize,
    /// Close the sink without a directory.
    SkipFinalization,
    /// The event changes nothing: it came after the end, or from a worker
    /// that was never started.
    Nothing,
}

/// The state of an export as plain values.
pub struct CoordinatorState {
    /// Workers that have not ended yet.
    pub pending: nat,
    /// Workers that wrote their entry.
    pub written: nat,
    /// Workers that ended without writing.
    pub skipped: nat,
    /// Workers whose write failed.
    pub failed: nat,
    pub phase: Phase,
}

/// The state in which `items` workers were started and none has ended.
pub open spec fn started(items: nat) -> CoordinatorState {
    CoordinatorState { pending: items, written: 0, skipped: 0, failed: 0, phase: Phase::Running }
}

/// The state after an event, and the action that answers it.
pub open spec fn next(state: CoordinatorState, event: Event) -> (CoordinatorState, Action) {
    if state.phase != Phase::Running {
        (state, Action::Nothing)
    } else {
        match event {
            Event::Joined { sole_owner } => if state.pending > 0 {
                (state, Action::Wait)
            } else if sole_owner && state.failed == 0 {
                (CoordinatorState { phase: Phase::Finalized, ..state }, Action::Finalize)
            } else {
                (CoordinatorState { phase: Phase::Abandoned, ..state }, Action::SkipFinalization)
            },
            _ => if state.pending == 0 {
                (state, Action::Nothing)
            } else {
                let pending = (state.pending - 1) as nat;
                match event {
                    Event::ItemWritten => (
                        CoordinatorState { pending, written: state.written + 1, ..state },
                        Action::Wait,
                    ),
                    Event::ItemSkipped => (
                        CoordinatorState { pending, skipped: state.skipped + 1, ..state },
                        Action::Wait,
                    ),
                    _ => (
                        CoordinatorState { pending, failed: state.failed + 1, ..state },
                        Action::Wait,
                    ),
                }
            },
        }
    }
}

/// What a worker reports without writing, if it is not to write.
pub open spec fn refusal_of(state: CoordinatorState, has_entry: bool) -> Option<Event> {
    if !has_entry {
        Some(Event::ItemSkipped)
    } else if state.phase != Phase::Running || state.failed != 0 {
        Some(Event::WriteFailed)
    } else {
        None
    }
}

/// The state after a sequence of events.
pub open spec fn run(state: CoordinatorState, events: Seq<Event>) -> CoordinatorState
    decreases events.len(),
{
    if events.len() == 0 {
        state
    } else {
        next(run(state, events.drop_last()), events.last()).0
    }
}

/// How often a sequence of events was answered with `Finalize`.
pub open spec fn finalizations(state: CoordinatorState, events: Seq<Event>) -> nat
    decreases events.len(),
{
    if events.len() == 0 {
        0
    } else {
        finalizations(state, events.drop_last()) + if next(
            run(state, events.drop_last()),
            events.last(),
        ).1 == Action::Finalize {
            1nat
        } else {
            0nat
        }
    }
}

/// How many of the events are of the kind `kind`.
pub open spec fn occurrences(events: Seq<Event>, kind: Event) -> nat
    decreases events.len(),
{
    if events.len() == 0 {
        0
    } else {
        occurrences(events.drop_last(), kind) + if events.last() == kind {
            1nat
        } else {
            0nat
        }
    }
}

/// The coordinator of one export.
pub struct Coordinator {
    pending: usize,
    written: usize,
    skipped: usize,
    failed: usize,
    phase: Phase,
}

impl View for Coordinator {
    type V = CoordinatorState;

    closed spec fn view(&self) -> CoordinatorState {
        CoordinatorState {
            pending: self.pending as nat,
            written: self.written as nat,
            skipped: self.skipped as nat,
            failed: self.failed as nat,
            phase: self.phase,
        }
    }
}

impl Coordinator {
    /// The coordinator's invariant: the workers counted fit the machine.
    #[verifier::type_invariant]
    spec fn wf(&self) -> bool {
        self.pending + self.written + self.skipped + self.failed <= usize::MAX
    }

    /// Starts an export of `items` items: one worker each.
    pub fn start(items: usize) -> (coordinator: Coordinator)
        ensures
            coordinator@ == started(items as nat),
    {
        Coordinator { pending: items, written: 0, skipped: 0, failed: 0, phase: Phase::Running }
    }

    /// Takes an event and answers with what to do next.
    pub fn step(&mut self, event: Event) -> (action: Action)
        ensures
            (final(self)@, action) == next(old(self)@, event),
    {
        proof {
            use_type_invariant(&*self);
        }
        if self.phase != Phase::Running {
            return Action::Nothing;
        }
        match event {
            Event::Joined { sole_owner } => {
                if self.pending > 0 {
                    Action::Wait
                } else if sole_owner && self.failed == 0 {
                    self.phase = Phase::Finalized;
                    Action::Finalize
                } else {
                    self.phase = Phase::Abandoned;
                    Action::SkipFinalization
                }
            },
            _ => {
                if self.pending == 0 {
                    return Action::Nothing;
                }
                self.pending = self.pending - 1;
                match event {
                    Event::ItemWritten => {
                        self.written = self.written + 1;
                    },
                    Event::ItemSkipped => {
                        self.skipped = self.skipped + 1;
                    },
                    _ => {
                        self.failed = self.failed + 1;
                    },
                }
                Action::Wait
            },
        }
    }

    /// What a worker that holds the permit reports without writing: that it
    /// skipped, where it has no entry, and that its write failed, where the
    /// export may not write any more. `None` tells the worker to write and to
    /// report how that went.
    pub fn refusal(&self, has_entry: bool) -> (event: Option<Event>)
        ensures
            event == refusal_of(self@, has_entry),
    {
        if !has_entry {
            Some(Event::ItemSkipped)
        } else if !self.may_write() {
            Some(Event::WriteFailed)
        } else {
            None
        }
    }

    /// Whether a worker that holds the permit may write: the export is
    /// running and no write has failed.
    pub fn may_write(&self) -> (allowed: bool)
        ensures
            allowed == (self@.phase == Phase::Running && self@.failed == 0),
    {
        self.phase == Phase::Running && self.failed == 0
    }

    /// The number of workers that have not ended yet.
    pub fn pending(&self) -> (count: usize)
        ensures
            count == self@.pending,
    {
        self.pending
    }

    /// The number of entries written.
    pub fn written(&self) -> (count: usize)
        ensures
            count == self@.written,
    {
        self.written
    }

    /// The number of items left out.
    pub fn skipped(&self) -> (count: usize)
        ensures
            count == self@.skipped,
    {
        self.skipped
    }

    /// Where the export stands.
    pub fn phase(&self) -> (phase: Phase)
        ensures
            phase == self@.phase,
    {
        self.phase
    }
}

/// What holds of every state that an export of `items` items can reach.
pub open spec fn reachable(items: nat, state: CoordinatorState) -> bool {
    &&& state.pending + state.written + state.skipped + state.failed == items
    &&& state.phase == Phase::Finalized ==> state.pending == 0 && state.failed == 0
    &&& state.phase == Phase::Abandoned ==> state.pending == 0
}

/// Every event keeps what holds of reachable states.
pub proof fn lemma_next_reachable(items: nat, state: CoordinatorState, event: Event)
    requires
        reachable(items, state),
    ensures
        reachable(items, next(state, event).0),
{
}

/// Whatever the events, every worker is counted once, and the export is
/// finalized or abandoned only when no worker is outstanding; it is finalized
/// only when no write has failed.
pub proof fn law_reachable(items: nat, events: Seq<Event>)
    ensures
        reachable(items, run(started(items), events)),
    decreases events.len(),
{
    if events.len() > 0 {
        law_reachable(items, events.drop_last());
        lemma_next_reachable(items, run(started(items), events.drop_last()), events.last());
    }
}

/// Finalization is asked for only in answer to a join, when no worker is
/// outstanding, the encoder is owned alone and no write has failed.
pub proof fn law_finalize_only_after_all(state: CoordinatorState, event: Event)
    requires
        next(state, event).1 == Action::Finalize,
    ensures
        state.phase == Phase::Running,
        state.pending == 0,
        state.failed == 0,
        event == (Event::Joined { sole_owner: true }),
        next(state, event).0.phase == Phase::Finalized,
{
}

/// The coordinator reacts to each failure as the export's policy says. A
/// worker that skips its item is counted and changes nothing else: the export
/// goes on. After a failed write no worker is told to write, and the join is
/// answered without finalization. A join that could not reclaim the encoder
/// is answered without finalization.
pub proof fn law_reactions_followed(state: CoordinatorState, event: Event)
    requires
        state.phase == Phase::Running,
        failure_of(event) is Some,
        event is Joined <==> state.pending == 0,
    ensures
        ({
            let (after, action) = next(state, event);
            match reaction_of(failure_of(event).unwrap()) {
                Reaction::SkipItem => {
                    &&& action == Action::Wait
                    &&& after == CoordinatorState {
                        pending: (state.pending - 1) as nat,
                        skipped: state.skipped + 1,
                        ..state
                    }
                    &&& refusal_of(after, true) == refusal_of(state, true)
                },
                Reaction::AbortStream => {
                    &&& refusal_of(after, true) == Some(Event::WriteFailed)
                    &&& after.pending == 0 ==> next(after, Event::Joined { sole_owner: true }).1
                        == Action::SkipFinalization
                },
                Reaction::SkipFinalization => action == Action::SkipFinalization,
                Reaction::EmptyExport => false,
            }
        }),
{
}

/// Whatever the events, finalization is asked for at most once: once if the
/// export ends finalized, never otherwise.
pub proof fn law_finalized_at_most_once(items: nat, events: Seq<Event>)
    ensures
        finalizations(started(items), events) == if run(started(items), events).phase
            == Phase::Finalized {
            1nat
        } else {
            0nat
        },
    decreases events.len(),
{
    if events.len() > 0 {
        law_finalized_at_most_once(items, events.drop_last());
    }
}

/// When each of the `events.len()` workers writes or skips, the entries
/// written are the workers less those that skipped, and the join that follows
/// with the encoder owned alone is answered with the one finalization.
pub proof fn law_all_workers_then_finalize(events: Seq<Event>)
    requires
        forall|i: int|
            0 <= i < events.len() ==> (#[trigger] events[i]) == Event::ItemWritten || events[i]
                == Event::ItemSkipped,
    ensures
        run(started(events.len()), events).pending == 0,
        run(started(events.len()), events).written == events.len() - occurrences(
            events,
            Event::ItemSkipped,
        ),
        run(started(events.len()), events).phase == Phase::Running,
        next(run(started(events.len()), events), Event::Joined { sole_owner: true }).1
            == Action::Finalize,
        finalizations(
            started(events.len()),
            events.push(Event::Joined { sole_owner: true }),
        ) == 1,
{
    lemma_workers_counted(events.len(), events);
    let all = events.push(Event::Joined { sole_owner: true });
    assert(all.drop_last() =~= events);
    law_finalized_at_most_once(events.len(), events);
}

/// When each event is a worker that writes or skips, and at least that many
/// workers were started, every event is counted.
pub proof fn lemma_workers_counted(items: nat, events: Seq<Event>)
    requires
        events.len() <= items,
        forall|i: int|
            0 <= i < events.len() ==> (#[trigger] events[i]) == Event::ItemWritten || events[i]
                == Event::ItemSkipped,
    ensures
        run(started(items), events).phase == Phase::Running,
        run(started(items), events).pending == items - events.len(),
        run(started(items), events).skipped == occurrences(events, Event::ItemSkipped),
        run(started(items), events).written == events.len() - occurrences(
            events,
            Event::ItemSkipped,
        ),
        run(started(items), events).failed == 0,
    decreases events.len(),
{
    if events.len() > 0 {
        let shorter = events.drop_last();
        assert forall|i: int| 0 <= i < shorter.len() implies (#[trigger] shorter[i])
            == Event::ItemWritten || shorter[i] == Event::ItemSkipped by {
            assert(shorter[i] == events[i]);
        }
        lemma_workers_counted(items, shorter);
        assert(events.last() == events[events.len() - 1]);
    }
}

} // verus!
