//! What the acquire and release protocols ask their driver to do, and what the
//! driver reports back.

use vstd::prelude::*;
use crate::futex::{WaitError, WaitOutcome, WakeError};
use crate::word::{with_waiters, FUTEX_INIT};

verus! {

/// Release was called by a thread that the word does not name as owner.
#[derive(Clone, Copy, Debug, PartialEq, Eq, Structural)]
pub struct NotOwnerError {
    /// The owner field that the word held.
    pub owner: u32,
}

/// Why an acquire or a release gave up.
#[derive(Clone, Copy, Debug, PartialEq, Eq, Structural)]
pub enum MutexError {
    Wait(WaitError),
    Wake(WakeError),
    NotOwner(NotOwnerError),
}

/// One atomic operation on the lock word.
#[derive(Clone, Copy, Debug, PartialEq, Eq, Structural)]
pub enum MemoryOp {
    /// Read the word.
    Load,
    /// Store `new` if the word equals `expected`.
    CompareExchange { expected: u32, new: u32 },
    /// Set the waiters bit.
    MarkWaiters,
    /// Store the free word.
    Clear,
}

/// The next thing a protocol needs done.
#[derive(Clone, Copy, Debug, PartialEq, Eq, Structural)]
pub enum Action {
    /// Perform an atomic operation on the lock word.
    Memory(MemoryOp),
    /// Block on the lock word while it holds `expected`.
    Wait { expected: u32 },
    /// Wake at most one thread that blocks on the lock word.
    WakeOne,
    /// Run the owner-failure recovery for the lock that `dead_owner` left.
    Recover { dead_owner: u32 },
    /// Nothing: the protocol has completed.
    Finished,
    /// Nothing: the protocol has given up.
    Failed(MutexError),
}

/// What the driver reports after it did what an action asked.
#[derive(Clone, Copy, Debug, PartialEq, Eq)]
pub enum Event {
    /// A load read `value`.
    Loaded { value: u32 },
    /// A compare-exchange found `observed` in the word and did or did not store.
    Exchanged { success: bool, observed: u32 },
    /// The waiters bit was set in a word that held `previous`.
    Marked { previous: u32 },
    /// The free word was stored over `previous`.
    Cleared { previous: u32 },
    /// The wait primitive returned.
    WaitReturned(Result<WaitOutcome, WaitError>),
    /// The wake primitive returned.
    WakeReturned(Result<u64, WakeError>),
    /// The recovery ran to its end.
    Recovered,
}

/// The word after `op` has been applied to `word`.
pub open spec fn word_after(word: u32, op: MemoryOp) -> u32 {
    match op {
        MemoryOp::Load => word,
        MemoryOp::CompareExchange { expected, new } => if word == expected {
            new
        } else {
            word
        },
        MemoryOp::MarkWaiters => with_waiters(word),
        MemoryOp::Clear => FUTEX_INIT,
    }
}

/// The event that `op` reports when it is applied to `word`. It answers `op`.
pub open spec fn event_of(word: u32, op: MemoryOp) -> Event {
    match op {
        MemoryOp::Load => Event::Loaded { value: word },
        MemoryOp::CompareExchange { expected, new } => Event::Exchanged {
            success: word == expected,
            observed: word,
        },
        MemoryOp::MarkWaiters => Event::Marked { previous: word },
        MemoryOp::Clear => Event::Cleared { previous: word },
    }
}

/// Whether `event` can be the report of `op`: it is of the kind that `op`
/// reports, and a compare-exchange has stored exactly if it found the value
/// that it expected.
pub open spec fn answers(event: Event, op: MemoryOp) -> bool {
    match (op, event) {
        (MemoryOp::Load, Event::Loaded { .. }) => true,
        (MemoryOp::CompareExchange { expected, .. }, Event::Exchanged { success, observed }) => {
            success == (observed == expected)
        },
        (MemoryOp::MarkWaiters, Event::Marked { .. }) => true,
        (MemoryOp::Clear, Event::Cleared { .. }) => true,
        _ => false,
    }
}

} // verus!
