//! Process records.

use vstd::prelude::*;

verus! {

/// Scheduling state of a process.
#[derive(Debug, Clone, Copy, PartialEq, Eq, Structural)]
pub enum ProcessState {
    Ready,
    Running,
    Sleeping,
    Zombie,
}

/// A process: its id, name and state.
pub struct Process {
    pub pid: u64,
    pub name: String,
    pub state: ProcessState,
}

/// Initialize process management; nothing to set up.
pub fn init() -> (r: Result<(), &'static str>)
    ensures
        r is Ok,
{
    Ok(())
}

} // verus!
