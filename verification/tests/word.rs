use robust_futex::word::{
    has_owner_died, has_waiters, lock_state, owner_id, set_owner_died, set_waiters, LockState,
    ThreadId, FUTEX_INIT, FUTEX_OWNER_DIED, FUTEX_TID_MASK, FUTEX_WAITERS,
};

#[test]
fn constants_match_the_kernel_layout() {
    assert_eq!(FUTEX_INIT, 0);
    assert_eq!(FUTEX_WAITERS, 0x8000_0000);
    assert_eq!(FUTEX_OWNER_DIED, 0x4000_0000);
    assert_eq!(FUTEX_TID_MASK, 0x3fff_ffff);
    assert_eq!(FUTEX_WAITERS, libc::FUTEX_WAITERS);
    assert_eq!(FUTEX_OWNER_DIED, libc::FUTEX_OWNER_DIED);
    assert_eq!(FUTEX_TID_MASK, libc::FUTEX_TID_MASK);
}

#[test]
fn the_three_fields_do_not_overlap() {
    assert_eq!(FUTEX_WAITERS & FUTEX_OWNER_DIED, 0);
    assert_eq!(FUTEX_WAITERS & FUTEX_TID_MASK, 0);
    assert_eq!(FUTEX_OWNER_DIED & FUTEX_TID_MASK, 0);
    assert_eq!(FUTEX_WAITERS | FUTEX_OWNER_DIED | FUTEX_TID_MASK, u32::MAX);
}

#[test]
fn fields_of_a_free_word() {
    assert_eq!(owner_id(FUTEX_INIT), 0);
    assert!(!has_waiters(FUTEX_INIT));
    assert!(!has_owner_died(FUTEX_INIT));
    assert_eq!(lock_state(FUTEX_INIT), LockState::Free);
}

#[test]
fn fields_of_a_locked_word() {
    let word: u32 = 0x0000_1234;
    assert_eq!(owner_id(word), 0x1234);
    assert!(!has_waiters(word));
    assert!(!has_owner_died(word));
    assert_eq!(lock_state(word), LockState::Locked);
}

#[test]
fn fields_of_a_contended_word() {
    let word: u32 = 0x8000_1234;
    assert_eq!(owner_id(word), 0x1234);
    assert!(has_waiters(word));
    assert!(!has_owner_died(word));
    assert_eq!(lock_state(word), LockState::LockedContended);
}

#[test]
fn fields_of_a_word_whose_owner_died() {
    let word: u32 = 0x4000_0007;
    assert_eq!(owner_id(word), 7);
    assert!(!has_waiters(word));
    assert!(has_owner_died(word));
    assert_eq!(lock_state(word), LockState::OwnerDied);
    let contended: u32 = 0xc000_0007;
    assert_eq!(owner_id(contended), 7);
    assert!(has_waiters(contended));
    assert_eq!(lock_state(contended), LockState::OwnerDied);
}

#[test]
fn a_stale_waiters_bit_leaves_the_word_free() {
    assert_eq!(lock_state(FUTEX_WAITERS), LockState::Free);
    assert_eq!(owner_id(FUTEX_WAITERS), 0);
}

#[test]
fn the_owner_died_bit_decides_before_the_owner() {
    assert_eq!(lock_state(FUTEX_OWNER_DIED), LockState::OwnerDied);
}

#[test]
fn all_bits_set() {
    assert_eq!(owner_id(u32::MAX), 0x3fff_ffff);
    assert!(has_waiters(u32::MAX));
    assert!(has_owner_died(u32::MAX));
    assert_eq!(lock_state(u32::MAX), LockState::OwnerDied);
}

#[test]
fn setting_the_waiters_bit_is_idempotent() {
    let word: u32 = 0x0000_0042;
    let once: u32 = set_waiters(word);
    assert_eq!(once, 0x8000_0042);
    assert_eq!(set_waiters(once), once);
    assert_eq!(owner_id(once), 0x42);
    assert!(!has_owner_died(once));
}

#[test]
fn setting_the_owner_died_bit_keeps_the_rest() {
    let word: u32 = 0x8000_0042;
    let marked: u32 = set_owner_died(word);
    assert_eq!(marked, 0xc000_0042);
    assert_eq!(set_owner_died(marked), marked);
    assert_eq!(owner_id(marked), 0x42);
    assert!(has_waiters(marked));
}

#[test]
fn thread_identifiers_are_nonzero_and_of_thirty_bits() {
    assert!(ThreadId::new(0).is_none());
    assert!(ThreadId::new(-1).is_none());
    assert!(ThreadId::new(i64::MIN).is_none());
    assert!(ThreadId::new(0x4000_0000).is_none());
    assert!(ThreadId::new(i64::MAX).is_none());
    assert_eq!(ThreadId::new(1).unwrap().get(), 1);
    assert_eq!(ThreadId::new(0x3fff_ffff).unwrap().get(), 0x3fff_ffff);
    assert_eq!(ThreadId::new(4711).unwrap().get(), 4711);
}

#[test]
fn a_thread_identifier_is_a_locked_word() {
    let tid: ThreadId = ThreadId::new(4711).unwrap();
    assert_eq!(lock_state(tid.get()), LockState::Locked);
    assert_eq!(owner_id(tid.get()), 4711);
}
