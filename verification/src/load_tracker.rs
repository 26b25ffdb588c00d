//! Counting the downloads in progress.
use std::sync::atomic::{AtomicUsize, Ordering};
use std::sync::Arc;
use vstd::prelude::*;

verus! {

/// A shared count of the downloads in progress. Clones share the count.
#[derive(Debug, Clone, Default)]
pub struct DownloadLoadTracker(Arc<AtomicUsize>);

/// Holds one unit of the count while it lives; dropping it gives the unit back.
pub struct LoadGuard(Arc<AtomicUsize>);

impl DownloadLoadTracker {
    /// The counter the tracker shares with its clones and its guards.
    pub closed spec fn counter(&self) -> AtomicUsize {
        *self.0
    }

    /// A tracker with no download in progress.
    pub fn new() -> (r: DownloadLoadTracker) {
        DownloadLoadTracker(Arc::new(AtomicUsize::new(0)))
    }

    /// The number of downloads in progress as last seen; other holders of the
    /// count may change it at any time, so nothing more is promised.
    pub fn current(&self) -> (r: usize) {
        self.0.load(Ordering::Relaxed)
    }

    /// Counts one more download until the returned guard is dropped; the
    /// guard holds the tracker's own counter, which it decrements when it is
    /// dropped.
    pub fn enter(&self) -> (r: LoadGuard)
        ensures
            r.counter() == self.counter(),
    {
        self.0.fetch_add(1, Ordering::Relaxed);
        LoadGuard(Arc::clone(&self.0))
    }
}

/// Takes one unit off the count with `AtomicUsize::fetch_sub` (std), which
/// wraps around instead of panicking, so the call never unwinds; the value it
/// returns is dropped.
#[verifier::external_body]
fn release_one(count: &AtomicUsize)
    opens_invariants none
    no_unwind
{
    count.fetch_sub(1, Ordering::Relaxed);
}

impl LoadGuard {
    /// The counter the guard holds a unit of.
    pub closed spec fn counter(&self) -> AtomicUsize {
        *self.0
    }
}

impl Drop for LoadGuard {
    fn drop(&mut self)
        opens_invariants none
        no_unwind
    {
        release_one(&self.0);
    }
}

} // verus!
