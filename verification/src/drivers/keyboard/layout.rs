//! Keyboard events and modifier state.

use vstd::prelude::*;

verus! {

/// Keys that do not produce a character by themselves.
#[derive(Debug, Clone, Copy, PartialEq, Eq, Structural)]
pub enum SpecialKey {
    LeftShift,
    RightShift,
    LeftCtrl,
    RightCtrl,
    LeftAlt,
    RightAlt,
    CapsLock,
    Backspace,
    Enter,
    Tab,
    Escape,
    ArrowUp,
    ArrowDown,
    ArrowLeft,
    ArrowRight,
    Home,
    End,
    Delete,
}

/// A decoded scancode.
#[derive(Debug, Clone, Copy, PartialEq, Eq, Structural)]
pub enum KeyEvent {
    /// A key press producing this ASCII character
    Ascii(u8),
    /// A press of a special key
    Special(SpecialKey),
    /// A key release, with the key's make code
    Release(u8),
}

/// Which modifier keys are held, and whether caps lock is on.
#[derive(Debug, Clone, Copy, PartialEq, Eq, Structural)]
pub struct ModifierState {
    pub left_shift: bool,
    pub right_shift: bool,
    pub left_ctrl: bool,
    pub right_ctrl: bool,
    pub left_alt: bool,
    pub right_alt: bool,
    pub caps_lock: bool,
}

impl ModifierState {
    /// Nothing held, caps lock off.
    pub fn new() -> (m: ModifierState)
        ensures
            !m.left_shift && !m.right_shift && !m.left_ctrl && !m.right_ctrl && !m.left_alt
                && !m.right_alt && !m.caps_lock,
    {
        ModifierState {
            left_shift: false,
            right_shift: false,
            left_ctrl: false,
            right_ctrl: false,
            left_alt: false,
            right_alt: false,
            caps_lock: false,
        }
    }

    /// Either shift key is held.
    pub fn shift(&self) -> (r: bool)
        ensures
            r == (self.left_shift || self.right_shift),
    {
        self.left_shift || self.right_shift
    }

    /// Either control key is held.
    pub fn ctrl(&self) -> (r: bool)
        ensures
            r == (self.left_ctrl || self.right_ctrl),
    {
        self.left_ctrl || self.right_ctrl
    }

    /// Either alt key is held.
    pub fn alt(&self) -> (r: bool)
        ensures
            r == (self.left_alt || self.right_alt),
    {
        self.left_alt || self.right_alt
    }
}

} // verus!
