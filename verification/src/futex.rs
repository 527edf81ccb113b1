//! The blocking wait and wake primitives, as far as the library sees them: what
//! a call to one of them reported, told apart into outcomes and errors.

use vstd::prelude::*;

verus! {

/// The error number with which the wait primitive reports that the word no
/// longer held the expected value.
pub const EAGAIN: i32 = 11;

/// The value with which a primitive reports failure.
pub const PRIMITIVE_FAILED: i64 = -1;

/// The wait primitive failed for a reason other than a changed word.
#[derive(Clone, Copy, Debug, PartialEq, Eq, Structural)]
pub struct WaitError {
    /// The platform's error number.
    pub code: i32,
}

/// The wake primitive failed.
#[derive(Clone, Copy, Debug, PartialEq, Eq, Structural)]
pub struct WakeError {
    /// The platform's error number.
    pub code: i32,
}

/// How a call of the wait primitive ended without an error.
#[derive(Clone, Copy, Debug, PartialEq, Eq, Structural)]
pub enum WaitOutcome {
    /// The thread slept and was woken.
    Woken,
    /// The word did not hold the expected value, so the thread never slept.
    ValueChanged,
}

/// What a return value and error number of the wait primitive mean.
pub open spec fn wait_result_of(ret: i64, errno: i32) -> Result<WaitOutcome, WaitError> {
    if ret != PRIMITIVE_FAILED {
        Ok(WaitOutcome::Woken)
    } else if errno == EAGAIN {
        Ok(WaitOutcome::ValueChanged)
    } else {
        Err(WaitError { code: errno })
    }
}

/// What a return value and error number of the wake primitive mean: the number
/// of threads woken, or the error.
pub open spec fn wake_result_of(ret: i64, errno: i32) -> Result<u64, WakeError> {
    if ret == PRIMITIVE_FAILED {
        Err(WakeError { code: errno })
    } else if ret < 0 {
        Ok(0u64)
    } else {
        Ok(ret as u64)
    }
}

/// Tells apart how a call of the wait primitive ended. `ret` is what the call
/// returned and `errno` the error number it left. A changed word is an outcome,
/// every other failure an error.
pub fn wait_result(ret: i64, errno: i32) -> (result: Result<WaitOutcome, WaitError>)
    ensures
        result == wait_result_of(ret, errno),
{
    if ret != PRIMITIVE_FAILED {
        Ok(WaitOutcome::Woken)
    } else if errno == EAGAIN {
        Ok(WaitOutcome::ValueChanged)
    } else {
        Err(WaitError { code: errno })
    }
}

/// Tells apart how a call of the wake primitive ended. Waking nobody is a
/// success.
pub fn wake_result(ret: i64, errno: i32) -> (result: Result<u64, WakeError>)
    ensures
        result == wake_result_of(ret, errno),
{
    if ret == PRIMITIVE_FAILED {
        Err(WakeError { code: errno })
    } else if ret < 0 {
        Ok(0)
    } else {
        Ok(ret as u64)
    }
}

} // verus!
