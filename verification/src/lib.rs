//! Verified core of a prime-number hunt with a wall-clock budget.
//!
//! The library searches the range `1..=upper_bound` for primes, publishing its
//! position to shared progress state that a concurrent reporter may poll, and
//! stopping early when a millisecond budget runs out. The trial-division
//! primality test, the worker's state machine, the search loop, the reporter's
//! decision, and the coverage computation are all verified; the clock readings
//! and the atomic cells they are published through stay opaque.

pub mod clock;
pub mod primes;
pub mod progress;
pub mod reporter;
pub mod search;
