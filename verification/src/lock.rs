//! The shared lock word and the mutex built on it.
//!
//! The word is an atomic integer that every contending thread reads and writes
//! with sequentially consistent operations. What an operation finds in the word
//! depends on the other threads, so nothing is promised of it here: the
//! protocols take what was found as an event and decide on it.

use std::sync::atomic::AtomicU32;
use std::sync::atomic::Ordering;
use vstd::prelude::*;
use crate::acquire::AcquireState;
use crate::action::{answers, Action, Event, MemoryOp};
use crate::release::ReleaseState;
use crate::word::{ThreadId, FUTEX_INIT, FUTEX_WAITERS};

verus! {

/// The 32-bit lock word of one mutex, shared by all threads that contend on it.
pub struct LockWord {
    cell: AtomicU32,
}

impl LockWord {
    /// The atomic integer in which the word lives. Its identity is all that is
    /// known of it: what it holds changes under the hands of other threads.
    pub closed spec fn atomic(&self) -> AtomicU32 {
        self.cell
    }

    /// A free lock word.
    pub fn new() -> (word: LockWord) {
        LockWord { cell: AtomicU32::new(FUTEX_INIT) }
    }

    /// A lock word that holds `raw`.
    pub fn with_value(raw: u32) -> (word: LockWord) {
        LockWord { cell: AtomicU32::new(raw) }
    }

    /// The atomic integer itself, for the primitives that block on it.
    pub fn cell(&self) -> (cell: &AtomicU32)
        ensures
            *cell == self.atomic(),
    {
        &self.cell
    }

    /// Reads the word.
    pub fn load(&self) -> (value: u32) {
        self.cell.load(Ordering::SeqCst)
    }

    /// Performs `op` on the word in one atomic step and reports what it found.
    /// The event is of the kind that `op` reports. A compare-exchange stores
    /// exactly if it finds the expected value, so its report says by the value
    /// found whether it stored.
    pub fn perform(&self, op: MemoryOp) -> (event: Event)
        ensures
            answers(event, op),
    {
        match op {
            MemoryOp::Load => Event::Loaded { value: self.cell.load(Ordering::SeqCst) },
            MemoryOp::CompareExchange { expected, new } => {
                let observed = match self.cell.compare_exchange(
                    expected,
                    new,
                    Ordering::SeqCst,
                    Ordering::SeqCst,
                ) {
                    Ok(found) => found,
                    Err(found) => found,
                };
                Event::Exchanged { success: observed == expected, observed }
            },
            MemoryOp::MarkWaiters => Event::Marked {
                previous: self.cell.fetch_or(FUTEX_WAITERS, Ordering::SeqCst),
            },
            MemoryOp::Clear => Event::Cleared {
                previous: self.cell.swap(FUTEX_INIT, Ordering::SeqCst),
            },
        }
    }

    /// The fast path alone: one compare-exchange from the free word to `tid`.
    /// Tells whether the exchange stored, which it does only into a word that
    /// held no owner and no other bit: the result is what the acquire protocol
    /// concludes from the report of that exchange.
    pub fn try_fast_acquire(&self, tid: ThreadId) -> (acquired: bool)
        ensures
            exists|event: Event|
                {
                    &&& answers(
                        event,
                        MemoryOp::CompareExchange { expected: FUTEX_INIT, new: tid@ },
                    )
                    &&& acquired == (#[trigger] AcquireState::start(tid).next(event)).phase is Acquired
                },
    {
        let first = AcquireState::new(tid);
        let event = self.perform(MemoryOp::CompareExchange { expected: FUTEX_INIT, new: tid.get() });
        first.step(event).is_acquired()
    }

    /// Sets the waiters bit, whatever else the word holds.
    pub fn mark_waiters(&self) {
        let _ = self.perform(MemoryOp::MarkWaiters);
    }

    /// Takes an acquire forward on the word for as long as its next action is
    /// an atomic operation, and for `budget` operations at most. The result is
    /// the state that the protocol reaches from `state` through the reports of
    /// the operations that it asked for, each performed once and in its turn.
    /// Unless the budget ran out, its next action is none on the word: to
    /// wait, to recover, or nothing more.
    pub fn advance_acquire(&self, state: AcquireState, budget: usize) -> (reached: AcquireState)
        ensures
            exists|events: Seq<Event>|
                {
                    &&& events.len() <= budget
                    &&& acquire_reports(state, events)
                    &&& reached == #[trigger] state.run(events)
                    &&& reached.pending() is Memory ==> events.len() == budget
                },
            state.wf() ==> reached.wf(),
            reached.tid == state.tid,
    {
        let mut current = state;
        let mut done: usize = 0;
        let ghost mut events: Seq<Event> = Seq::empty();
        while done < budget
            invariant
                done <= budget,
                events.len() == done,
                acquire_reports(state, events),
                current == state.run(events),
                state.wf() ==> current.wf(),
                current.tid == state.tid,
            decreases budget - done,
        {
            match current.action() {
                Action::Memory(op) => {
                    let event = self.perform(op);
                    let ghost before = events;
                    proof {
                        events = events.push(event);
                        assert(events.drop_last() == before);
                    }
                    current = current.step(event);
                    done = done + 1;
                },
                _ => {
                    return current;
                },
            }
        }
        current
    }

    /// Takes a release forward on the word for as long as its next action is
    /// an atomic operation. The result is the state that the protocol reaches
    /// from `state` through the reports of the operations that it asked for,
    /// each performed once and in its turn, and its next action is none on the
    /// word: to wake, or nothing more.
    pub fn advance_release(&self, state: ReleaseState) -> (reached: ReleaseState)
        ensures
            exists|events: Seq<Event>|
                {
                    &&& events.len() <= 2
                    &&& release_reports(state, events)
                    &&& reached == #[trigger] state.run(events)
                },
            !(reached.pending() is Memory),
            state.wf() ==> reached.wf(),
            reached.tid == state.tid,
    {
        let ghost none: Seq<Event> = Seq::empty();
        assert(state.run(none) == state);
        assert(release_reports(state, none));
        match state.action() {
            Action::Memory(first_op) => {
                let first = self.perform(first_op);
                let second_state = state.step(first);
                let ghost one = none.push(first);
                assert(one.drop_last() == none);
                assert(second_state == state.run(one));
                assert(one.last() == first);
                assert(release_reports(state, one));
                match second_state.action() {
                    Action::Memory(second_op) => {
                        let second = self.perform(second_op);
                        let third_state = second_state.step(second);
                        let ghost two = one.push(second);
                        assert(two.drop_last() == one);
                        assert(third_state == state.run(two));
                        assert(two.last() == second);
                        assert(release_reports(state, two));
                        third_state
                    },
                    _ => second_state,
                }
            },
            _ => state,
        }
    }
}

/// Whether `events` are the reports of the atomic operations that an acquire
/// asks for, one after the other, from `state` on.
pub open spec fn acquire_reports(state: AcquireState, events: Seq<Event>) -> bool
    decreases events.len(),
{
    if events.len() == 0 {
        true
    } else {
        &&& acquire_reports(state, events.drop_last())
        &&& state.run(events.drop_last()).pending() matches Action::Memory(op) && answers(
            events.last(),
            op,
        )
    }
}

/// Whether `events` are the reports of the atomic operations that a release
/// asks for, one after the other, from `state` on.
pub open spec fn release_reports(state: ReleaseState, events: Seq<Event>) -> bool
    decreases events.len(),
{
    if events.len() == 0 {
        true
    } else {
        &&& release_reports(state, events.drop_last())
        &&& state.run(events.drop_last()).pending() matches Action::Memory(op) && answers(
            events.last(),
            op,
        )
    }
}

/// A mutex: one lock word, acquired and released by the two protocols.
pub struct RobustMutex {
    word: LockWord,
}

impl RobustMutex {
    /// A mutex that nobody holds.
    pub fn new() -> (mutex: RobustMutex) {
        RobustMutex { word: LockWord::new() }
    }

    /// A mutex on the given lock word.
    pub fn from_word(word: LockWord) -> (mutex: RobustMutex)
        ensures
            mutex.lock_word() == word,
    {
        RobustMutex { word }
    }

    /// The lock word of the mutex.
    pub closed spec fn lock_word(&self) -> LockWord {
        self.word
    }

    /// The mutex's lock word.
    pub fn word(&self) -> (word: &LockWord)
        ensures
            *word == self.lock_word(),
    {
        &self.word
    }

    /// Gives up the mutex for its lock word, to enter it in a robust list.
    pub fn into_word(self) -> (word: LockWord)
        ensures
            word == self.lock_word(),
    {
        self.word
    }

    /// Starts an acquire by `tid` and takes it forward on the lock word, for
    /// `budget` atomic operations at most. The result is reached from the
    /// start of the protocol through the reports of the operations that it
    /// asked for. With a budget of one this is the fast path alone.
    pub fn acquire(&self, tid: ThreadId, budget: usize) -> (reached: AcquireState)
        ensures
            exists|events: Seq<Event>|
                {
                    &&& events.len() <= budget
                    &&& acquire_reports(AcquireState::start(tid), events)
                    &&& reached == #[trigger] AcquireState::start(tid).run(events)
                    &&& reached.pending() is Memory ==> events.len() == budget
                },
            reached.wf(),
            reached.tid == tid,
    {
        self.word.advance_acquire(AcquireState::new(tid), budget)
    }

    /// Starts a release by `tid` and takes it forward on the lock word until
    /// it has failed, has finished or is to wake a waiter. The result is
    /// reached from the start of the protocol through the reports of the
    /// operations that it asked for.
    pub fn release(&self, tid: ThreadId) -> (reached: ReleaseState)
        ensures
            exists|events: Seq<Event>|
                {
                    &&& events.len() <= 2
                    &&& release_reports(ReleaseState::start(tid), events)
                    &&& reached == #[trigger] ReleaseState::start(tid).run(events)
                },
            !(reached.pending() is Memory),
            reached.wf(),
            reached.tid == tid,
    {
        self.word.advance_release(ReleaseState::new(tid))
    }
}

} // verus!
