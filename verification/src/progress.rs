use vstd::prelude::*;

use std::sync::atomic::AtomicBool;
use std::sync::atomic::AtomicU64;
use std::sync::atomic::Ordering;

verus! {

/// State shared between one search and any number of concurrent observers:
/// whether the search is still running, and the last candidate it has begun
/// to examine. The search worker is the sole writer; a progress reporter and
/// the orchestrator only read. Both fields are atomic cells, so readers in
/// other tasks never observe a torn value; the values inside them are opaque
/// to the verifier, and every verified claim about the search is made on the
/// worker's own state instead.
pub struct SharedProgress {
    running: AtomicBool,
    last_examined: AtomicU64,
}

impl SharedProgress {
    /// Fresh state for one search: the running flag starts raised and no
    /// candidate has been examined yet.
    pub fn new() -> SharedProgress {
        SharedProgress { running: AtomicBool::new(true), last_examined: AtomicU64::new(0) }
    }

    /// Whether the search was still running when the flag was read.
    pub fn is_running(&self) -> bool {
        self.running.load(Ordering::Relaxed)
    }

    /// The candidate the search had most recently begun to examine when the
    /// counter was read.
    pub fn last_examined(&self) -> u64 {
        self.last_examined.load(Ordering::Relaxed)
    }

    /// Publishes the candidate the worker is about to examine.
    pub(crate) fn publish_last_examined(&self, candidate: u64) {
        self.last_examined.store(candidate, Ordering::Relaxed)
    }

    /// Lowers the running flag; the worker does this once, on its way out,
    /// and nothing ever raises the flag again.
    pub(crate) fn publish_stopped(&self) {
        self.running.store(false, Ordering::Relaxed)
    }
}

} // verus!
