//! Two-thread synchronisation building blocks: a length-bounded vector used as
//! a shared buffer, Dekker's mutual-exclusion protocol (an executable model of
//! both threads with its proofs of mutual exclusion and of freedom from
//! starvation, and a lock over atomics that follows the
//! same phases), a container guarded by that lock, and the decisions of the
//! producer and consumer that share a buffer through it, with a model of the
//! two running together that proves every product is delivered once, in order.
pub mod limited_vec;
pub mod protocol;
pub mod progress;
pub mod delivery;
pub mod dekker;
pub mod shared_container;
pub mod producer_consumer;
pub mod pacing;
