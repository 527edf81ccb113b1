//! The acquire protocol as a step function: from the protocol's state and the
//! event that the driver reports to the next state, which names the next action.
//!
//! Each iteration of the retry loop is one step. The fast path is a single
//! compare-exchange from a free word. On failure the thread sets the waiters
//! bit and reads the word again: a word whose owner died calls for recovery
//! before the thread takes it over, a free word is taken at once, and only a
//! held word with the waiters bit set is blocked on.
//!
//! What a successful acquire stores is the thread's identifier, and with it the
//! waiters bit where another thread may still sleep: where the word that is
//! taken carried the bit, and where the thread itself has slept, since the
//! release that woke it woke no other. So the bit is handed on from holder to
//! holder until a release finds nobody asleep, and a stale bit costs one wake
//! that wakes nobody.

use vstd::prelude::*;
use crate::action::{Action, Event, MemoryOp, MutexError};
use crate::futex::WaitError;
use crate::futex::WaitOutcome;
use crate::word::{
    has_waiters, lock_state, owner_id, owner_of, set_waiters, state_of, valid_thread_id,
    waiters_of, with_waiters, LockState, ThreadId, FUTEX_INIT,
};

verus! {

/// Where an acquire stands.
#[derive(Clone, Copy, Debug, PartialEq, Eq)]
pub enum AcquirePhase {
    /// A compare-exchange from `expected` to the word that names the thread as
    /// owner is due.
    Exchanging { expected: u32 },
    /// The waiters bit is to be set.
    Marking,
    /// The word is to be read again after the waiters bit was set.
    Rereading,
    /// The recovery for the dead owner named in `observed` is due.
    Recovering { observed: u32 },
    /// The thread is to block on the word while it holds `expected`.
    Waiting { expected: u32 },
    /// The thread holds the lock.
    Acquired,
    /// The wait primitive failed; the acquire was given up.
    Failed { error: WaitError },
}

/// The state of one acquire by one thread.
#[derive(Clone, Copy, Debug, PartialEq, Eq)]
pub struct AcquireState {
    /// The acquiring thread.
    pub tid: ThreadId,
    /// Where the acquire stands.
    pub phase: AcquirePhase,
    /// The dead owner for which this acquire last ran the recovery, if any.
    pub recovered: Option<u32>,
    /// Whether the thread has slept in the wait primitive and was woken.
    pub slept: bool,
}

impl AcquireState {
    /// The state from which a thread starts to acquire: the fast path is due.
    pub open spec fn start(tid: ThreadId) -> AcquireState {
        AcquireState {
            tid,
            phase: AcquirePhase::Exchanging { expected: FUTEX_INIT },
            recovered: None,
            slept: false,
        }
    }

    /// The word that the thread stores when it takes `taken`: its identifier,
    /// with the waiters bit if `taken` carried it or the thread has slept.
    pub open spec fn install(self, taken: u32) -> u32 {
        if self.slept || waiters_of(taken) {
            with_waiters(self.tid@)
        } else {
            self.tid@
        }
    }

    /// Whether a compare-exchange from `word` is in order: the word is free, or
    /// its owner died and this acquire has run the recovery for that owner.
    pub open spec fn may_take(self, word: u32) -> bool {
        match state_of(word) {
            LockState::Free => true,
            LockState::OwnerDied => self.recovered == Some(owner_of(word)),
            _ => false,
        }
    }

    /// The phase that follows the sight of `word` after a compare-exchange
    /// failed on it.
    pub open spec fn after_failed_exchange(self, word: u32) -> AcquirePhase {
        if self.may_take(word) {
            AcquirePhase::Exchanging { expected: word }
        } else {
            AcquirePhase::Marking
        }
    }

    /// The phase that follows the sight of `word` after the waiters bit was set.
    pub open spec fn after_reread(self, word: u32) -> AcquirePhase {
        match state_of(word) {
            LockState::Free => AcquirePhase::Exchanging { expected: word },
            LockState::OwnerDied => if self.recovered == Some(owner_of(word)) {
                AcquirePhase::Exchanging { expected: word }
            } else {
                AcquirePhase::Recovering { observed: word }
            },
            LockState::LockedContended => AcquirePhase::Waiting { expected: word },
            LockState::Locked => AcquirePhase::Marking,
        }
    }

    /// The state after `event`. An event that does not answer the pending
    /// action changes nothing.
    pub open spec fn next(self, event: Event) -> AcquireState {
        match (self.phase, event) {
            (AcquirePhase::Exchanging { .. }, Event::Exchanged { success, observed }) => {
                if success {
                    AcquireState { phase: AcquirePhase::Acquired, ..self }
                } else {
                    AcquireState { phase: self.after_failed_exchange(observed), ..self }
                }
            },
            (AcquirePhase::Marking, Event::Marked { .. }) => AcquireState {
                phase: AcquirePhase::Rereading,
                ..self
            },
            (AcquirePhase::Rereading, Event::Loaded { value }) => AcquireState {
                phase: self.after_reread(value),
                ..self
            },
            (AcquirePhase::Recovering { observed }, Event::Recovered) => AcquireState {
                phase: AcquirePhase::Exchanging { expected: observed },
                recovered: Some(owner_of(observed)),
                ..self
            },
            (AcquirePhase::Waiting { .. }, Event::WaitReturned(Ok(outcome))) => AcquireState {
                phase: AcquirePhase::Exchanging { expected: FUTEX_INIT },
                slept: self.slept || outcome is Woken,
                ..self
            },
            (AcquirePhase::Waiting { .. }, Event::WaitReturned(Err(error))) => AcquireState {
                phase: AcquirePhase::Failed { error },
                ..self
            },
            _ => self,
        }
    }

    /// The action that the state asks for.
    pub open spec fn pending(self) -> Action {
        match self.phase {
            AcquirePhase::Exchanging { expected } => Action::Memory(
                MemoryOp::CompareExchange { expected, new: self.install(expected) },
            ),
            AcquirePhase::Marking => Action::Memory(MemoryOp::MarkWaiters),
            AcquirePhase::Rereading => Action::Memory(MemoryOp::Load),
            AcquirePhase::Recovering { observed } => Action::Recover {
                dead_owner: owner_of(observed),
            },
            AcquirePhase::Waiting { expected } => Action::Wait { expected },
            AcquirePhase::Acquired => Action::Finished,
            AcquirePhase::Failed { error } => Action::Failed(MutexError::Wait(error)),
        }
    }

    /// What holds of every state that an acquire goes through: the thread is
    /// valid, a compare-exchange starts only from a word that may be taken, the
    /// recovery is asked for only on a word whose owner died and for which it
    /// has not run, and the thread blocks only on a held word with the waiters
    /// bit set.
    pub open spec fn wf(self) -> bool {
        &&& valid_thread_id(self.tid@ as int)
        &&& match self.phase {
            AcquirePhase::Exchanging { expected } => self.may_take(expected),
            AcquirePhase::Recovering { observed } => {
                &&& state_of(observed) == LockState::OwnerDied
                &&& self.recovered != Some(owner_of(observed))
            },
            AcquirePhase::Waiting { expected } => state_of(expected)
                == LockState::LockedContended,
            _ => true,
        }
    }

    /// The state after the events of `events`, in their order.
    pub open spec fn run(self, events: Seq<Event>) -> AcquireState
        decreases events.len(),
    {
        if events.len() == 0 {
            self
        } else {
            self.run(events.drop_last()).next(events.last())
        }
    }

    /// Starts an acquire by `tid`.
    pub fn new(tid: ThreadId) -> (state: AcquireState)
        ensures
            state == AcquireState::start(tid),
            state.wf(),
    {
        let _ = tid.get();
        AcquireState {
            tid,
            phase: AcquirePhase::Exchanging { expected: FUTEX_INIT },
            recovered: None,
            slept: false,
        }
    }

    /// Whether a compare-exchange from `word` is in order.
    fn can_take(&self, word: u32) -> (take: bool)
        ensures
            take == self.may_take(word),
    {
        match lock_state(word) {
            LockState::Free => true,
            LockState::OwnerDied => match self.recovered {
                Some(owner) => owner == owner_id(word),
                None => false,
            },
            _ => false,
        }
    }

    /// The state after `event`.
    pub fn step(self, event: Event) -> (state: AcquireState)
        ensures
            state == self.next(event),
            self.wf() ==> state.wf(),
    {
        match (self.phase, event) {
            (AcquirePhase::Exchanging { .. }, Event::Exchanged { success, observed }) => {
                if success {
                    AcquireState { phase: AcquirePhase::Acquired, ..self }
                } else if self.can_take(observed) {
                    AcquireState { phase: AcquirePhase::Exchanging { expected: observed }, ..self }
                } else {
                    AcquireState { phase: AcquirePhase::Marking, ..self }
                }
            },
            (AcquirePhase::Marking, Event::Marked { .. }) => AcquireState {
                phase: AcquirePhase::Rereading,
                ..self
            },
            (AcquirePhase::Rereading, Event::Loaded { value }) => {
                let phase = match lock_state(value) {
                    LockState::Free => AcquirePhase::Exchanging { expected: value },
                    LockState::OwnerDied => if self.can_take(value) {
                        AcquirePhase::Exchanging { expected: value }
                    } else {
                        AcquirePhase::Recovering { observed: value }
                    },
                    LockState::LockedContended => AcquirePhase::Waiting { expected: value },
                    LockState::Locked => AcquirePhase::Marking,
                };
                AcquireState { phase, ..self }
            },
            (AcquirePhase::Recovering { observed }, Event::Recovered) => AcquireState {
                phase: AcquirePhase::Exchanging { expected: observed },
                recovered: Some(owner_id(observed)),
                ..self
            },
            (AcquirePhase::Waiting { .. }, Event::WaitReturned(Ok(outcome))) => {
                let woken = match outcome {
                    WaitOutcome::Woken => true,
                    WaitOutcome::ValueChanged => false,
                };
                AcquireState {
                    phase: AcquirePhase::Exchanging { expected: FUTEX_INIT },
                    slept: self.slept || woken,
                    ..self
                }
            },
            (AcquirePhase::Waiting { .. }, Event::WaitReturned(Err(error))) => AcquireState {
                phase: AcquirePhase::Failed { error },
                ..self
            },
            _ => self,
        }
    }

    /// The action that the state asks for.
    pub fn action(&self) -> (action: Action)
        ensures
            action == self.pending(),
    {
        match self.phase {
            AcquirePhase::Exchanging { expected } => {
                let new = if self.slept || has_waiters(expected) {
                    set_waiters(self.tid.get())
                } else {
                    self.tid.get()
                };
                Action::Memory(MemoryOp::CompareExchange { expected, new })
            },
            AcquirePhase::Marking => Action::Memory(MemoryOp::MarkWaiters),
            AcquirePhase::Rereading => Action::Memory(MemoryOp::Load),
            AcquirePhase::Recovering { observed } => Action::Recover {
                dead_owner: owner_id(observed),
            },
            AcquirePhase::Waiting { expected } => Action::Wait { expected },
            AcquirePhase::Acquired => Action::Finished,
            AcquirePhase::Failed { error } => Action::Failed(MutexError::Wait(error)),
        }
    }

    /// Whether the thread holds the lock.
    pub fn is_acquired(&self) -> (held: bool)
        ensures
            held == (self.phase is Acquired),
    {
        match self.phase {
            AcquirePhase::Acquired => true,
            _ => false,
        }
    }

    /// The dead owner whose lock this acquire took over or tried to, if it ran
    /// the recovery.
    pub fn recovered_owner(&self) -> (owner: Option<u32>)
        ensures
            owner == self.recovered,
    {
        self.recovered
    }

    /// Whether the thread has slept in the wait primitive and was woken.
    pub fn has_slept(&self) -> (slept: bool)
        ensures
            slept == self.slept,
    {
        self.slept
    }
}

/// The word that an acquire stores names the thread as owner, never carries
/// the owner-died bit, and carries the waiters bit exactly if the word taken
/// carried it or the thread has slept.
pub proof fn lemma_install_names_the_thread(state: AcquireState, taken: u32)
    requires
        valid_thread_id(state.tid@ as int),
    ensures
        owner_of(state.install(taken)) == state.tid@,
        !crate::word::died_of(state.install(taken)),
        waiters_of(state.install(taken)) == (state.slept || waiters_of(taken)),
{
    crate::word::lemma_with_waiters(state.tid@);
    crate::word::lemma_word_of_thread(state.tid@);
}

/// One step keeps a state well-formed and with its thread.
pub proof fn lemma_next_keeps_wf(state: AcquireState, event: Event)
    requires
        state.wf(),
    ensures
        state.next(event).wf(),
        state.next(event).tid == state.tid,
{
}

/// Every state that an acquire reaches from a well-formed one is well-formed
/// and belongs to the same thread.
pub proof fn lemma_run_keeps_wf(state: AcquireState, events: Seq<Event>)
    requires
        state.wf(),
    ensures
        state.run(events).wf(),
        state.run(events).tid == state.tid,
    decreases events.len(),
{
    if events.len() > 0 {
        lemma_run_keeps_wf(state, events.drop_last());
    }
}

/// The fast path skips the blocking primitive: on a free word the first action
/// of an acquire is a compare-exchange from the free word to the thread's
/// identifier, that exchange succeeds, and with it the acquire has completed
/// without having asked to wait or to wake.
pub proof fn lemma_fast_path_never_blocks(tid: ThreadId)
    requires
        valid_thread_id(tid@ as int),
    ensures
        ({
            let first = AcquireState::start(tid);
            let op = MemoryOp::CompareExchange { expected: FUTEX_INIT, new: tid@ };
            let last = first.next(crate::action::event_of(FUTEX_INIT, op));
            &&& first.pending() == Action::Memory(op)
            &&& crate::action::word_after(FUTEX_INIT, op) == tid@
            &&& last.phase is Acquired
            &&& last.pending() == Action::Finished
        }),
{
}

/// No report of an atomic operation leaves an acquire where it was: whatever
/// the operation that the acquire asked for found in the word, the acquire is
/// in another state after it.
pub proof fn lemma_report_moves_acquire(state: AcquireState, op: MemoryOp, event: Event)
    requires
        state.pending() == Action::Memory(op),
        crate::action::answers(event, op),
    ensures
        state.next(event) != state,
{
}

/// The fast path takes the free word and no other: whatever the first
/// compare-exchange reports, the acquire has completed exactly if the exchange
/// found the word free of owner and of every other bit, and if it has not, the
/// acquire has moved on, to try again from a free word with a stale bit or to
/// set the waiters bit.
pub proof fn lemma_fast_path_takes_the_free_word_only(tid: ThreadId, event: Event)
    requires
        crate::action::answers(
            event,
            MemoryOp::CompareExchange { expected: FUTEX_INIT, new: tid@ },
        ),
    ensures
        AcquireState::start(tid).next(event).phase is Acquired <==> event->observed == FUTEX_INIT,
        AcquireState::start(tid).next(event) != AcquireState::start(tid),
        event->observed != FUTEX_INIT ==> AcquireState::start(tid).next(event).phase == (
        if state_of(event->observed) == LockState::Free {
            AcquirePhase::Exchanging { expected: event->observed }
        } else {
            AcquirePhase::Marking
        }),
{
}

/// An acquire asks for the recovery exactly once for each dead owner that it
/// meets: only on a word whose owner died, only if it has not run the recovery
/// for that owner, and once the recovery has run the next action is the
/// compare-exchange that takes the word over, never the recovery again.
pub proof fn lemma_recovery_runs_once(state: AcquireState, dead_owner: u32)
    requires
        state.wf(),
        state.pending() == (Action::Recover { dead_owner }),
    ensures
        state.phase is Recovering,
        state_of(state.phase->observed) == LockState::OwnerDied,
        owner_of(state.phase->observed) == dead_owner,
        state.recovered != Some(dead_owner),
        state.next(Event::Recovered).recovered == Some(dead_owner),
        state.next(Event::Recovered).pending() == Action::Memory(
            MemoryOp::CompareExchange {
                expected: state.phase->observed,
                new: state.install(state.phase->observed),
            },
        ),
        forall|word: u32| #[trigger]
            owner_of(word) == dead_owner ==> !(state.next(Event::Recovered).after_reread(
                word,
            ) is Recovering),
{
}

/// A word whose owner died is taken over only after the recovery: whenever an
/// acquire asks for a compare-exchange from such a word, it has run the
/// recovery for the owner that the word names.
pub proof fn lemma_takeover_follows_recovery(state: AcquireState, expected: u32, new: u32)
    requires
        state.wf(),
        state.pending() == Action::Memory(MemoryOp::CompareExchange { expected, new }),
        state_of(expected) == LockState::OwnerDied,
    ensures
        state.recovered == Some(owner_of(expected)),
        new == state.install(expected),
        owner_of(new) == state.tid@,
        state_of(new) == LockState::Locked || state_of(new) == LockState::LockedContended,
{
}

} // verus!
