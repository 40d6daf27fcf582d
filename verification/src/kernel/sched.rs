//! Scheduler state.

use vstd::prelude::*;

verus! {

/// The scheduler: whether it is running.
pub struct Scheduler {
    pub running: bool,
}

impl Scheduler {
    /// A scheduler that has not started.
    pub fn new() -> (r: Scheduler)
        ensures
            !r.running,
    {
        Scheduler { running: false }
    }

    /// Start scheduling.
    pub fn start(&mut self)
        ensures
            final(self).running,
    {
        self.running = true;
    }
}

} // verus!
