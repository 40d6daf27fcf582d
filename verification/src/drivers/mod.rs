//! Device driver logic: framebuffer pixels, text console state, keyboard
//! buffers and scancode decoding, serial port registers.

pub mod display;
pub mod keyboard;
pub mod uart;
