//! Display drivers.

pub mod framebuffer;
pub mod console;
