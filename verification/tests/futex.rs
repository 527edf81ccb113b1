use robust_futex::futex::{
    wait_result, wake_result, WaitError, WaitOutcome, WakeError, EAGAIN, PRIMITIVE_FAILED,
};

#[test]
fn error_number_matches_the_platform() {
    assert_eq!(EAGAIN, libc::EAGAIN);
    assert_eq!(EAGAIN, 11);
    assert_eq!(PRIMITIVE_FAILED, -1);
}

#[test]
fn a_wait_that_returns_zero_was_woken() {
    assert_eq!(wait_result(0, 0), Ok(WaitOutcome::Woken));
    assert_eq!(wait_result(0, EAGAIN), Ok(WaitOutcome::Woken));
}

#[test]
fn a_changed_word_is_no_error() {
    assert_eq!(wait_result(-1, EAGAIN), Ok(WaitOutcome::ValueChanged));
}

#[test]
fn other_failures_of_wait_are_errors() {
    assert_eq!(wait_result(-1, libc::EINVAL), Err(WaitError { code: 22 }));
    assert_eq!(wait_result(-1, libc::ENOSYS), Err(WaitError { code: libc::ENOSYS }));
    assert_eq!(wait_result(-1, libc::EINTR), Err(WaitError { code: 4 }));
    assert_eq!(wait_result(-1, 0), Err(WaitError { code: 0 }));
}

#[test]
fn wake_reports_the_number_woken() {
    assert_eq!(wake_result(1, 0), Ok(1));
    assert_eq!(wake_result(0, 0), Ok(0));
    assert_eq!(wake_result(3, 0), Ok(3));
    assert_eq!(wake_result(i64::MAX, 0), Ok(i64::MAX as u64));
}

#[test]
fn waking_nobody_is_a_success() {
    assert!(wake_result(0, libc::EINVAL).is_ok());
}

#[test]
fn a_failed_wake_is_an_error() {
    assert_eq!(wake_result(-1, libc::EINVAL), Err(WakeError { code: 22 }));
    assert_eq!(wake_result(-1, libc::EFAULT), Err(WakeError { code: 14 }));
}

#[test]
fn only_minus_one_reports_failure() {
    assert_eq!(wake_result(-2, libc::EINVAL), Ok(0));
    assert_eq!(wait_result(-2, libc::EINVAL), Ok(WaitOutcome::Woken));
    assert_eq!(wait_result(5, libc::EINVAL), Ok(WaitOutcome::Woken));
}
