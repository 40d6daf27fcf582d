//! Early kernel pieces: boot-time bump allocation, process and scheduler
//! records, the interrupt-controller interface and keyboard input handling.

pub mod mm;
pub mod process;
pub mod sched;
pub mod interrupt;
pub mod keyboard;
