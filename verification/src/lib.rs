//! A user-space mutual-exclusion primitive on the kernel futex mechanism, with
//! owner-death recovery through a per-thread robust list.
//!
//! - [`word`]: the bit layout of the 32-bit lock word and its four states.
//! - [`futex`]: what the blocking wait and wake primitives reported.
//! - [`action`]: the actions that the protocols ask for and the events that
//!   answer them.
//! - [`acquire`] and [`release`]: the two protocols, each as a step function
//!   from state and event to the next state.
//! - [`lock`]: the shared lock word and the mutex, which perform the atomic
//!   operations of the protocols.
//! - [`model`]: threads that share one lock word, and what the protocols
//!   guarantee under every schedule.
//! - [`robust_list`]: the robust list as an index-based arena.
//! - [`registry`]: the registration of robust lists with the kernel.
//!
//! The library never blocks and makes no system call. An acquire or release
//! runs until it needs the kernel, names what it needs as an [`action::Action`],
//! and goes on when it is handed the [`action::Event`] that reports the outcome.

pub mod acquire;
pub mod action;
pub mod futex;
pub mod lock;
pub mod model;
pub mod registry;
pub mod release;
pub mod robust_list;
pub mod word;
