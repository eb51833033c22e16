//! The stop request shared between an asynchronous trigger and the
//! transmitter loop.

use vstd::prelude::*;
use std::sync::atomic::{AtomicBool, Ordering};
use std::sync::Arc;
use crate::scheduler::{step, Action, Scheduler};

verus! {

/// A shared flag, false until a stop is requested; every handle made from one
/// flag sees the same value.
pub struct CancellationFlag {
    flag: Arc<AtomicBool>,
}

impl CancellationFlag {
    /// A flag with no stop requested.
    pub fn new() -> (r: CancellationFlag) {
        CancellationFlag { flag: Arc::new(AtomicBool::new(false)) }
    }

    /// Another handle on the same flag, for the trigger's side.
    pub fn handle(&self) -> (r: CancellationFlag) {
        CancellationFlag { flag: self.flag.clone() }
    }

    /// Requests a stop; safe to call while the loop reads the flag.
    pub fn request(&self) {
        self.flag.store(true, Ordering::SeqCst);
    }

    /// Whether a stop has been requested. The trigger runs concurrently, so
    /// nothing is known of the answer in advance.
    pub fn is_requested(&self) -> (r: bool) {
        self.flag.load(Ordering::SeqCst)
    }
}

impl Scheduler {
    /// Reads the stop request once and decides on what was read.
    pub fn poll(&mut self, stop: &CancellationFlag) -> (a: Action)
        requires
            old(self).wf(),
        ensures
            final(self).wf(),
            (final(self)@, a) == step(old(self)@, true) || (final(self)@, a) == step(
                old(self)@,
                false,
            ),
    {
        let cancelled = stop.is_requested();
        self.next_action(cancelled)
    }
}

} // verus!
