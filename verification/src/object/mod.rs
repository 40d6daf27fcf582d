//! Kernel objects: handles and rights, channels, jobs, timers and VMOs.

pub mod ids;
pub mod handle;
pub mod channel;
pub mod job;
pub mod timer;
pub mod vmo;
