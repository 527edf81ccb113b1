use robust_futex::acquire::{AcquirePhase, AcquireState};
use robust_futex::action::{Action, Event, MemoryOp, MutexError, NotOwnerError};
use robust_futex::futex::{WaitError, WaitOutcome, WakeError};
use robust_futex::release::{ReleasePhase, ReleaseState};
use robust_futex::word::{ThreadId, FUTEX_INIT, FUTEX_OWNER_DIED, FUTEX_WAITERS};

fn tid(raw: i64) -> ThreadId {
    ThreadId::new(raw).unwrap()
}

fn exchange(expected: u32, new: u32) -> Action {
    Action::Memory(MemoryOp::CompareExchange { expected, new })
}

fn failed(observed: u32) -> Event {
    Event::Exchanged { success: false, observed }
}

#[test]
fn an_acquire_starts_with_the_fast_path() {
    let state: AcquireState = AcquireState::new(tid(7));
    assert_eq!(state.phase, AcquirePhase::Exchanging { expected: FUTEX_INIT });
    assert_eq!(state.action(), exchange(0, 7));
    assert_eq!(state.recovered_owner(), None);
    assert!(!state.is_acquired());
}

#[test]
fn a_successful_exchange_acquires() {
    let state: AcquireState =
        AcquireState::new(tid(7)).step(Event::Exchanged { success: true, observed: 0 });
    assert!(state.is_acquired());
    assert_eq!(state.action(), Action::Finished);
    assert_eq!(state.recovered_owner(), None);
}

#[test]
fn a_failed_exchange_on_a_held_word_sets_the_waiters_bit() {
    let state: AcquireState = AcquireState::new(tid(7)).step(failed(9));
    assert_eq!(state.phase, AcquirePhase::Marking);
    assert_eq!(state.action(), Action::Memory(MemoryOp::MarkWaiters));
    let state: AcquireState = state.step(Event::Marked { previous: 9 });
    assert_eq!(state.phase, AcquirePhase::Rereading);
    assert_eq!(state.action(), Action::Memory(MemoryOp::Load));
}

#[test]
fn a_held_word_with_the_waiters_bit_is_waited_on() {
    let word: u32 = 9 | FUTEX_WAITERS;
    let state: AcquireState = AcquireState::new(tid(7))
        .step(failed(9))
        .step(Event::Marked { previous: 9 })
        .step(Event::Loaded { value: word });
    assert_eq!(state.phase, AcquirePhase::Waiting { expected: word });
    assert_eq!(state.action(), Action::Wait { expected: word });
}

#[test]
fn a_wake_leads_back_to_the_fast_path() {
    let word: u32 = 9 | FUTEX_WAITERS;
    let waiting: AcquireState = AcquireState::new(tid(7))
        .step(failed(9))
        .step(Event::Marked { previous: 9 })
        .step(Event::Loaded { value: word });
    assert!(!waiting.has_slept());
    let woken: AcquireState = waiting.step(Event::WaitReturned(Ok(WaitOutcome::Woken)));
    assert!(woken.has_slept());
    assert_eq!(woken.action(), exchange(0, 7 | FUTEX_WAITERS));
    let changed: AcquireState = waiting.step(Event::WaitReturned(Ok(WaitOutcome::ValueChanged)));
    assert!(!changed.has_slept());
    assert_eq!(changed.action(), exchange(0, 7));
}

#[test]
fn a_thread_that_has_slept_keeps_the_waiters_bit_when_it_takes_the_lock() {
    let word: u32 = 9 | FUTEX_WAITERS;
    let woken: AcquireState = AcquireState::new(tid(7))
        .step(failed(9))
        .step(Event::Marked { previous: 9 })
        .step(Event::Loaded { value: word })
        .step(Event::WaitReturned(Ok(WaitOutcome::Woken)));
    let held: AcquireState = woken.step(Event::Exchanged { success: true, observed: 0 });
    assert!(held.is_acquired());
    assert!(held.has_slept());
    let again: AcquireState = woken
        .step(failed(11))
        .step(Event::Marked { previous: 11 })
        .step(Event::Loaded { value: 0 });
    assert_eq!(again.action(), exchange(0, 7 | FUTEX_WAITERS));
}

#[test]
fn a_failed_wait_ends_the_acquire() {
    let word: u32 = 9 | FUTEX_WAITERS;
    let state: AcquireState = AcquireState::new(tid(7))
        .step(failed(9))
        .step(Event::Marked { previous: 9 })
        .step(Event::Loaded { value: word })
        .step(Event::WaitReturned(Err(WaitError { code: 22 })));
    assert_eq!(state.phase, AcquirePhase::Failed { error: WaitError { code: 22 } });
    assert_eq!(state.action(), Action::Failed(MutexError::Wait(WaitError { code: 22 })));
    let later: AcquireState = state.step(Event::Exchanged { success: true, observed: 0 });
    assert_eq!(later, state);
}

#[test]
fn a_word_found_free_after_marking_is_taken_at_once() {
    let state: AcquireState = AcquireState::new(tid(7))
        .step(failed(9))
        .step(Event::Marked { previous: 0 })
        .step(Event::Loaded { value: FUTEX_WAITERS });
    assert_eq!(state.action(), exchange(FUTEX_WAITERS, 7 | FUTEX_WAITERS));
    let cleared: AcquireState = AcquireState::new(tid(7))
        .step(failed(9))
        .step(Event::Marked { previous: 9 })
        .step(Event::Loaded { value: 0 });
    assert_eq!(cleared.action(), exchange(0, 7));
}

#[test]
fn a_stale_waiters_bit_does_not_fail_the_fast_path() {
    let state: AcquireState = AcquireState::new(tid(7)).step(failed(FUTEX_WAITERS));
    assert_eq!(state.action(), exchange(FUTEX_WAITERS, 7 | FUTEX_WAITERS));
    let state: AcquireState =
        state.step(Event::Exchanged { success: true, observed: FUTEX_WAITERS });
    assert!(state.is_acquired());
}

#[test]
fn a_held_word_that_lost_the_waiters_bit_is_marked_again() {
    let state: AcquireState = AcquireState::new(tid(7))
        .step(failed(9))
        .step(Event::Marked { previous: 9 })
        .step(Event::Loaded { value: 11 });
    assert_eq!(state.phase, AcquirePhase::Marking);
}

#[test]
fn a_dead_owner_calls_for_recovery_before_the_takeover() {
    let died: u32 = 9 | FUTEX_OWNER_DIED | FUTEX_WAITERS;
    let state: AcquireState = AcquireState::new(tid(7))
        .step(failed(9 | FUTEX_OWNER_DIED))
        .step(Event::Marked { previous: 9 | FUTEX_OWNER_DIED })
        .step(Event::Loaded { value: died });
    assert_eq!(state.phase, AcquirePhase::Recovering { observed: died });
    assert_eq!(state.action(), Action::Recover { dead_owner: 9 });
    assert_eq!(state.recovered_owner(), None);
    let state: AcquireState = state.step(Event::Recovered);
    assert_eq!(state.action(), exchange(died, 7 | FUTEX_WAITERS));
    assert_eq!(state.recovered_owner(), Some(9));
    let state: AcquireState = state.step(Event::Exchanged { success: true, observed: died });
    assert!(state.is_acquired());
    assert_eq!(state.recovered_owner(), Some(9));
}

#[test]
fn the_recovery_is_not_run_twice_for_one_dead_owner() {
    let died: u32 = 9 | FUTEX_OWNER_DIED;
    let marked: u32 = died | FUTEX_WAITERS;
    let recovered: AcquireState = AcquireState::new(tid(7))
        .step(failed(died))
        .step(Event::Marked { previous: died })
        .step(Event::Loaded { value: died })
        .step(Event::Recovered);
    assert_eq!(recovered.action(), exchange(died, 7));
    let retried: AcquireState = recovered.step(failed(marked));
    assert_eq!(retried.action(), exchange(marked, 7 | FUTEX_WAITERS));
    let reread: AcquireState = recovered
        .step(failed(11))
        .step(Event::Marked { previous: 11 })
        .step(Event::Loaded { value: marked });
    assert_eq!(reread.action(), exchange(marked, 7 | FUTEX_WAITERS));
}

#[test]
fn another_dead_owner_calls_for_another_recovery() {
    let first: u32 = 9 | FUTEX_OWNER_DIED;
    let second: u32 = 11 | FUTEX_OWNER_DIED | FUTEX_WAITERS;
    let state: AcquireState = AcquireState::new(tid(7))
        .step(failed(first))
        .step(Event::Marked { previous: first })
        .step(Event::Loaded { value: first })
        .step(Event::Recovered)
        .step(failed(11))
        .step(Event::Marked { previous: 11 })
        .step(Event::Loaded { value: second });
    assert_eq!(state.action(), Action::Recover { dead_owner: 11 });
    let state: AcquireState = state.step(Event::Recovered);
    assert_eq!(state.recovered_owner(), Some(11));
}

#[test]
fn a_dead_owner_seen_by_the_fast_path_is_not_taken_without_recovery() {
    let died: u32 = 9 | FUTEX_OWNER_DIED;
    let state: AcquireState = AcquireState::new(tid(7)).step(failed(died));
    assert_eq!(state.phase, AcquirePhase::Marking);
}

#[test]
fn an_event_that_answers_nothing_changes_nothing() {
    let state: AcquireState = AcquireState::new(tid(7));
    assert_eq!(state.step(Event::Recovered), state);
    assert_eq!(state.step(Event::Loaded { value: 0 }), state);
    assert_eq!(state.step(Event::Marked { previous: 0 }), state);
    assert_eq!(state.step(Event::WaitReturned(Ok(WaitOutcome::Woken))), state);
    assert_eq!(state.step(Event::WakeReturned(Ok(1))), state);
    let held: AcquireState = state.step(Event::Exchanged { success: true, observed: 0 });
    assert_eq!(held.step(failed(3)), held);
}

#[test]
fn a_release_starts_with_the_owner_check() {
    let state: ReleaseState = ReleaseState::new(tid(7));
    assert_eq!(state.phase, ReleasePhase::Checking);
    assert_eq!(state.action(), Action::Memory(MemoryOp::Load));
    assert!(!state.is_released());
}

#[test]
fn the_owner_clears_the_word() {
    let state: ReleaseState = ReleaseState::new(tid(7)).step(Event::Loaded { value: 7 });
    assert_eq!(state.action(), Action::Memory(MemoryOp::Clear));
    let state: ReleaseState = state.step(Event::Cleared { previous: 7 });
    assert_eq!(state.phase, ReleasePhase::Released { woke: false });
    assert_eq!(state.action(), Action::Finished);
    assert!(state.is_released());
}

#[test]
fn a_release_from_a_contended_word_wakes_one() {
    let word: u32 = 7 | FUTEX_WAITERS;
    let state: ReleaseState = ReleaseState::new(tid(7))
        .step(Event::Loaded { value: word })
        .step(Event::Cleared { previous: word });
    assert_eq!(state.phase, ReleasePhase::Waking);
    assert_eq!(state.action(), Action::WakeOne);
    let woke: ReleaseState = state.step(Event::WakeReturned(Ok(1)));
    assert_eq!(woke.phase, ReleasePhase::Released { woke: true });
    let nobody: ReleaseState = state.step(Event::WakeReturned(Ok(0)));
    assert_eq!(nobody.phase, ReleasePhase::Released { woke: true });
}

#[test]
fn the_waiters_bit_seen_by_the_clear_decides_the_wake() {
    let state: ReleaseState = ReleaseState::new(tid(7))
        .step(Event::Loaded { value: 7 })
        .step(Event::Cleared { previous: 7 | FUTEX_WAITERS });
    assert_eq!(state.action(), Action::WakeOne);
}

#[test]
fn a_failed_wake_fails_the_release() {
    let word: u32 = 7 | FUTEX_WAITERS;
    let state: ReleaseState = ReleaseState::new(tid(7))
        .step(Event::Loaded { value: word })
        .step(Event::Cleared { previous: word })
        .step(Event::WakeReturned(Err(WakeError { code: 22 })));
    assert_eq!(state.action(), Action::Failed(MutexError::Wake(WakeError { code: 22 })));
    assert!(!state.is_released());
}

#[test]
fn release_by_another_thread_fails() {
    let state: ReleaseState = ReleaseState::new(tid(7)).step(Event::Loaded { value: 9 });
    assert_eq!(
        state.action(),
        Action::Failed(MutexError::NotOwner(NotOwnerError { owner: 9 }))
    );
    assert_eq!(state.step(Event::Cleared { previous: 9 }), state);
    assert_eq!(state.step(Event::Loaded { value: 7 }), state);
}

#[test]
fn release_of_a_free_word_fails() {
    let state: ReleaseState = ReleaseState::new(tid(7)).step(Event::Loaded { value: FUTEX_INIT });
    assert_eq!(
        state.action(),
        Action::Failed(MutexError::NotOwner(NotOwnerError { owner: 0 }))
    );
    let stale: ReleaseState =
        ReleaseState::new(tid(7)).step(Event::Loaded { value: FUTEX_WAITERS });
    assert_eq!(
        stale.action(),
        Action::Failed(MutexError::NotOwner(NotOwnerError { owner: 0 }))
    );
}

#[test]
fn release_ignores_events_that_answer_nothing() {
    let state: ReleaseState = ReleaseState::new(tid(7));
    assert_eq!(state.step(Event::Cleared { previous: 7 }), state);
    assert_eq!(state.step(Event::WakeReturned(Ok(1))), state);
    assert_eq!(state.step(Event::Recovered), state);
}
