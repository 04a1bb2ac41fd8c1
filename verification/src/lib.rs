//! Read-copy-update for an async runtime: the bookkeeping that tells when old data can be reclaimed.
//!
//! Shared data is behind a pointer that readers load without a lock. A writer swaps in new data, and
//! then has to know when no reader uses the old data any more. Readers hold references within one
//! poll of a task only, so a thread that has polled a task is in a quiescent state: no code on it
//! holds a reference. A writer waits for a grace period, in which every busy thread passes through a
//! quiescent state.
//!
//! - [`epoch`]: the epoch id, which a writer increments and threads publish once they have seen it.
//! - [`thread_state`]: the state that a thread publishes, and its packed form.
//! - [`per_thread_storage`], [`fixed_thread_storage`]: the slots in which threads publish it.
//! - [`hooks`]: what a thread does to its slot when it starts, stops, parks, unparks, and after it
//!   polled a task.
//! - [`synchronize`]: the course of one wait for a grace period, with the reset of the epoch id when
//!   it overflows.
//! - [`grace_period`]: the proof that data is unused after a grace period.
//! - [`reclamation`], [`rcu_box`], [`rcu`]: old data that waits for a grace period, and the pointers
//!   that it was swapped out of.
//! - [`notify`]: the notification that waiting writers sleep on, with the proof that no wakeup is lost.
//! - [`fair_gme_lock`]: a fair lock for two groups.
//! - [`membarrier`], [`utils`], [`test_utils`]: small helpers.
//!
//! What is shared between threads is a plain value here, and each operation on it happens as a whole.
use vstd::prelude::*;

pub mod epoch;
pub mod fair_gme_lock;
pub mod fixed_thread_storage;
pub mod grace_period;
pub mod hooks;
pub mod membarrier;
pub mod notify;
pub mod per_thread_storage;
pub mod rcu;
pub mod rcu_box;
pub mod reclamation;
pub mod synchronize;
pub mod test_utils;
pub mod thread_state;
pub mod utils;

verus! {

} // verus!
