//! The release protocol as a step function.
//!
//! A release first reads the word and compares its owner field with the caller:
//! a thread that the word does not name fails with `NotOwnerError`, and no
//! operation that writes the word is ever asked for. The owner stores the free
//! word, which clears the owner, the owner-died bit and the waiters bit, and
//! asks for one wake if and only if the word it replaced had the waiters bit
//! set.

use vstd::prelude::*;
use crate::action::{Action, Event, MemoryOp, MutexError, NotOwnerError};
use crate::word::{has_waiters, owner_id, owner_of, valid_thread_id, waiters_of, ThreadId};

verus! {

/// Where a release stands.
#[derive(Clone, Copy, Debug, PartialEq, Eq)]
pub enum ReleasePhase {
    /// The word is to be read, to compare its owner with the caller.
    Checking,
    /// The free word is to be stored.
    Clearing,
    /// One waiter is to be woken.
    Waking,
    /// The lock has been given up. `woke` says whether a wake was made.
    Released { woke: bool },
    /// The release has failed.
    Failed { error: MutexError },
}

/// The state of one release by one thread.
#[derive(Clone, Copy, Debug, PartialEq, Eq)]
pub struct ReleaseState {
    /// The releasing thread.
    pub tid: ThreadId,
    /// Where the release stands.
    pub phase: ReleasePhase,
}

impl ReleaseState {
    /// The state from which a thread starts to release: the owner check is due.
    pub open spec fn start(tid: ThreadId) -> ReleaseState {
        ReleaseState { tid, phase: ReleasePhase::Checking }
    }

    /// The state after `event`. An event that does not answer the pending
    /// action changes nothing.
    pub open spec fn next(self, event: Event) -> ReleaseState {
        match (self.phase, event) {
            (ReleasePhase::Checking, Event::Loaded { value }) => {
                if owner_of(value) == self.tid@ {
                    ReleaseState { phase: ReleasePhase::Clearing, ..self }
                } else {
                    ReleaseState {
                        phase: ReleasePhase::Failed {
                            error: MutexError::NotOwner(NotOwnerError { owner: owner_of(value) }),
                        },
                        ..self
                    }
                }
            },
            (ReleasePhase::Clearing, Event::Cleared { previous }) => {
                if waiters_of(previous) {
                    ReleaseState { phase: ReleasePhase::Waking, ..self }
                } else {
                    ReleaseState { phase: ReleasePhase::Released { woke: false }, ..self }
                }
            },
            (ReleasePhase::Waking, Event::WakeReturned(Ok(_))) => ReleaseState {
                phase: ReleasePhase::Released { woke: true },
                ..self
            },
            (ReleasePhase::Waking, Event::WakeReturned(Err(error))) => ReleaseState {
                phase: ReleasePhase::Failed { error: MutexError::Wake(error) },
                ..self
            },
            _ => self,
        }
    }

    /// The action that the state asks for.
    pub open spec fn pending(self) -> Action {
        match self.phase {
            ReleasePhase::Checking => Action::Memory(MemoryOp::Load),
            ReleasePhase::Clearing => Action::Memory(MemoryOp::Clear),
            ReleasePhase::Waking => Action::WakeOne,
            ReleasePhase::Released { .. } => Action::Finished,
            ReleasePhase::Failed { error } => Action::Failed(error),
        }
    }

    /// What holds of every state that a release goes through: the thread is
    /// valid, and a release never fails on the wait primitive.
    pub open spec fn wf(self) -> bool {
        &&& valid_thread_id(self.tid@ as int)
        &&& match self.phase {
            ReleasePhase::Failed { error } => !(error is Wait),
            _ => true,
        }
    }

    /// The state after the events of `events`, in their order.
    pub open spec fn run(self, events: Seq<Event>) -> ReleaseState
        decreases events.len(),
    {
        if events.len() == 0 {
            self
        } else {
            self.run(events.drop_last()).next(events.last())
        }
    }

    /// Starts a release by `tid`.
    pub fn new(tid: ThreadId) -> (state: ReleaseState)
        ensures
            state == ReleaseState::start(tid),
            state.wf(),
    {
        let _ = tid.get();
        ReleaseState { tid, phase: ReleasePhase::Checking }
    }

    /// The state after `event`.
    pub fn step(self, event: Event) -> (state: ReleaseState)
        ensures
            state == self.next(event),
            self.wf() ==> state.wf(),
    {
        match (self.phase, event) {
            (ReleasePhase::Checking, Event::Loaded { value }) => {
                let owner = owner_id(value);
                if owner == self.tid.get() {
                    ReleaseState { phase: ReleasePhase::Clearing, ..self }
                } else {
                    ReleaseState {
                        phase: ReleasePhase::Failed {
                            error: MutexError::NotOwner(NotOwnerError { owner }),
                        },
                        ..self
                    }
                }
            },
            (ReleasePhase::Clearing, Event::Cleared { previous }) => {
                if has_waiters(previous) {
                    ReleaseState { phase: ReleasePhase::Waking, ..self }
                } else {
                    ReleaseState { phase: ReleasePhase::Released { woke: false }, ..self }
                }
            },
            (ReleasePhase::Waking, Event::WakeReturned(Ok(_))) => ReleaseState {
                phase: ReleasePhase::Released { woke: true },
                ..self
            },
            (ReleasePhase::Waking, Event::WakeReturned(Err(error))) => ReleaseState {
                phase: ReleasePhase::Failed { error: MutexError::Wake(error) },
                ..self
            },
            _ => self,
        }
    }

    /// The action that the state asks for.
    pub fn action(&self) -> (action: Action)
        ensures
            action == self.pending(),
    {
        match self.phase {
            ReleasePhase::Checking => Action::Memory(MemoryOp::Load),
            ReleasePhase::Clearing => Action::Memory(MemoryOp::Clear),
            ReleasePhase::Waking => Action::WakeOne,
            ReleasePhase::Released { .. } => Action::Finished,
            ReleasePhase::Failed { error } => Action::Failed(error),
        }
    }

    /// Whether the lock has been given up.
    pub fn is_released(&self) -> (released: bool)
        ensures
            released == (self.phase is Released),
    {
        match self.phase {
            ReleasePhase::Released { .. } => true,
            _ => false,
        }
    }
}

/// One step keeps a state well-formed and with its thread.
pub proof fn lemma_release_next_keeps_wf(state: ReleaseState, event: Event)
    requires
        state.wf(),
    ensures
        state.next(event).wf(),
        state.next(event).tid == state.tid,
{
}

/// Every state that a release reaches from a well-formed one is well-formed
/// and belongs to the same thread.
pub proof fn lemma_release_run_keeps_wf(state: ReleaseState, events: Seq<Event>)
    requires
        state.wf(),
    ensures
        state.run(events).wf(),
        state.run(events).tid == state.tid,
    decreases events.len(),
{
    if events.len() > 0 {
        lemma_release_run_keeps_wf(state, events.drop_last());
    }
}

/// No report of an atomic operation leaves a release where it was.
pub proof fn lemma_report_moves_release(state: ReleaseState, op: MemoryOp, event: Event)
    requires
        state.pending() == Action::Memory(op),
        crate::action::answers(event, op),
    ensures
        state.next(event) != state,
{
}

/// Release by a thread that is not the owner fails and leaves the word alone:
/// when the word read names another owner, the release ends with
/// `NotOwnerError`, which carries the owner found, and from then on no event
/// moves it and it asks for no operation on the word.
pub proof fn lemma_release_by_non_owner(tid: ThreadId, word: u32, later: Seq<Event>)
    requires
        owner_of(word) != tid@,
    ensures
        ({
            let first = ReleaseState::start(tid);
            let failed = first.next(Event::Loaded { value: word });
            &&& first.pending() == Action::Memory(MemoryOp::Load)
            &&& crate::action::word_after(word, MemoryOp::Load) == word
            &&& failed.phase == (ReleasePhase::Failed {
                error: MutexError::NotOwner(NotOwnerError { owner: owner_of(word) }),
            })
            &&& failed.run(later) == failed
            &&& failed.run(later).pending() is Failed
        }),
    decreases later.len(),
{
    if later.len() > 0 {
        lemma_release_by_non_owner(tid, word, later.drop_last());
    }
}

/// The wake is mandatory: a release that replaced a word with the waiters bit
/// set asks for one wake next, and one that replaced a word without it has
/// finished without a wake.
pub proof fn lemma_release_wakes_iff_waiters(tid: ThreadId, word: u32, previous: u32)
    requires
        owner_of(word) == tid@,
    ensures
        ({
            let cleared = ReleaseState::start(tid).next(Event::Loaded { value: word }).next(
                Event::Cleared { previous },
            );
            &&& waiters_of(previous) ==> cleared.pending() == Action::WakeOne
            &&& !waiters_of(previous) ==> cleared.phase == (ReleasePhase::Released { woke: false })
        }),
{
}

} // verus!
