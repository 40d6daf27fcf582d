//! PS/2 keyboard driver logic: the input buffer, modifier tracking and the
//! handling of each scancode the interrupt delivers.
//!
//! The port reads stay with the caller: it reads the controller status,
//! asks [`irq_action`] what to do, reads the scancode when told to, and
//! hands it to the driver.

use vstd::prelude::*;
use crate::drivers::keyboard::ps2::{CircularBuffer, INPUT_BUFFER_SIZE, STATUS_OBF, STATUS_AUXDATA};
use crate::drivers::keyboard::layout::{KeyEvent, ModifierState, SpecialKey};

pub mod ps2;
pub mod layout;
pub mod bringup;

verus! {

/// What the interrupt handler does after reading the controller status.
#[derive(Debug, Clone, Copy, PartialEq, Eq, Structural)]
pub enum IrqAction {
    /// No data is waiting.
    NoData,
    /// Mouse data is waiting: read it and drop it.
    DropMouseData,
    /// A keyboard scancode is waiting: read it.
    ReadScancode,
}

/// The action for a controller status byte.
pub fn irq_action(status: u8) -> (a: IrqAction)
    ensures
        status & STATUS_OBF == 0 ==> a == IrqAction::NoData,
        status & STATUS_OBF != 0 && status & STATUS_AUXDATA != 0 ==> a == IrqAction::DropMouseData,
        status & STATUS_OBF != 0 && status & STATUS_AUXDATA == 0 ==> a == IrqAction::ReadScancode,
{
    if status & STATUS_OBF == 0 {
        IrqAction::NoData
    } else if status & STATUS_AUXDATA != 0 {
        IrqAction::DropMouseData
    } else {
        IrqAction::ReadScancode
    }
}

/// What a scancode is, once the extended prefix is accounted for.
#[derive(Debug, Clone, Copy, PartialEq, Eq, Structural)]
pub enum ScancodeStep {
    /// The 0xE0 prefix: the next scancode is extended.
    Prefix,
    /// A scancode to decode, extended or not.
    Key { extended: bool },
}

/// Append `c` unless the buffer holds `INPUT_BUFFER_SIZE` bytes.
pub open spec fn buffered(s: Seq<u8>, c: u8) -> Seq<u8> {
    if s.len() < INPUT_BUFFER_SIZE {
        s.push(c)
    } else {
        s
    }
}

/// The keyboard driver's state.
pub struct KeyboardDriver {
    /// Characters typed, oldest first
    pub buffer: CircularBuffer<u8, INPUT_BUFFER_SIZE>,
    pub modifiers: ModifierState,
    /// The previous scancode was the extended prefix.
    pub extended: bool,
    pub initialized: bool,
}

impl KeyboardDriver {
    /// The buffer is consistent.
    pub open spec fn wf(&self) -> bool {
        self.buffer.wf()
    }

    /// A driver with an empty buffer, nothing held, not initialized.
    pub fn new() -> (d: KeyboardDriver)
        ensures
            d.wf(),
            d.buffer@.len() == 0,
            d.modifiers == ModifierState::new_spec(),
            !d.extended,
            !d.initialized,
    {
        KeyboardDriver {
            buffer: CircularBuffer::new(),
            modifiers: ModifierState::new(),
            extended: false,
            initialized: false,
        }
    }

    /// Reset the buffer, modifiers and prefix, and mark the driver
    /// initialized (the controller and device set-up is the caller's).
    pub fn init(&mut self)
        ensures
            final(self).wf(),
            final(self).buffer@.len() == 0,
            final(self).modifiers == ModifierState::new_spec(),
            !final(self).extended,
            final(self).initialized,
    {
        self.buffer = CircularBuffer::new();
        self.modifiers = ModifierState::new();
        self.extended = false;
        self.initialized = true;
    }

    /// Whether the driver was initialized.
    pub fn is_initialized(&self) -> (r: bool)
        ensures
            r == self.initialized,
    {
        self.initialized
    }

    /// Account for a scancode read from the controller: the 0xE0 prefix
    /// marks the next scancode extended; any other scancode consumes the
    /// mark.
    pub fn begin_scancode(&mut self, scancode: u8) -> (r: ScancodeStep)
        ensures
            final(self).buffer == old(self).buffer,
            final(self).modifiers == old(self).modifiers,
            final(self).initialized == old(self).initialized,
            scancode == 0xE0 ==> r == ScancodeStep::Prefix && final(self).extended,
            scancode != 0xE0 ==> r == (ScancodeStep::Key { extended: old(self).extended })
                && !final(self).extended,
    {
        if scancode == 0xE0 {
            self.extended = true;
            return ScancodeStep::Prefix;
        }
        let extended = self.extended;
        self.extended = false;
        ScancodeStep::Key { extended }
    }

    /// Apply a decoded key event: characters, backspace, enter and tab go to
    /// the buffer (dropped when it is full); modifier presses and releases
    /// update the modifiers, the extended flag telling right control and
    /// alt from left; caps lock toggles; other keys are ignored.
    pub fn apply_key_event(&mut self, event: KeyEvent, extended: bool)
        requires
            old(self).wf(),
        ensures
            final(self).wf(),
            final(self).extended == old(self).extended,
            final(self).initialized == old(self).initialized,
            final(self).buffer@ == match event {
                KeyEvent::Ascii(c) => buffered(old(self).buffer@, c),
                KeyEvent::Special(SpecialKey::Backspace) => buffered(old(self).buffer@, 8),
                KeyEvent::Special(SpecialKey::Enter) => buffered(old(self).buffer@, 10),
                KeyEvent::Special(SpecialKey::Tab) => buffered(old(self).buffer@, 9),
                _ => old(self).buffer@,
            },
            final(self).modifiers == modifiers_after(old(self).modifiers, event, extended),
            event == KeyEvent::Release(0x36) ==> !final(self).modifiers.right_shift
                && final(self).modifiers.left_shift == old(self).modifiers.left_shift,
            event == KeyEvent::Release(0x2A) ==> !final(self).modifiers.left_shift
                && final(self).modifiers.right_shift == old(self).modifiers.right_shift,
    {
        match event {
            KeyEvent::Ascii(ascii) => {
                let _ = self.buffer.write(ascii);
            },
            KeyEvent::Special(special) => {
                match special {
                    SpecialKey::LeftShift => self.modifiers.left_shift = true,
                    SpecialKey::RightShift => self.modifiers.right_shift = true,
                    SpecialKey::LeftCtrl => self.modifiers.left_ctrl = true,
                    SpecialKey::RightCtrl => self.modifiers.right_ctrl = true,
                    SpecialKey::LeftAlt => self.modifiers.left_alt = true,
                    SpecialKey::RightAlt => self.modifiers.right_alt = true,
                    SpecialKey::CapsLock => {
                        self.modifiers.caps_lock = !self.modifiers.caps_lock;
                    },
                    SpecialKey::Backspace => {
                        let _ = self.buffer.write(8);
                    },
                    SpecialKey::Enter => {
                        let _ = self.buffer.write(10);
                    },
                    SpecialKey::Tab => {
                        let _ = self.buffer.write(9);
                    },
                    _ => {},
                }
            },
            KeyEvent::Release(code) => {
                if code == 0x2A {
                    self.modifiers.left_shift = false;
                } else if code == 0x36 {
                    self.modifiers.right_shift = false;
                } else if code == 0x1D {
                    if extended {
                        self.modifiers.right_ctrl = false;
                    } else {
                        self.modifiers.left_ctrl = false;
                    }
                } else if code == 0x38 {
                    if extended {
                        self.modifiers.right_alt = false;
                    } else {
                        self.modifiers.left_alt = false;
                    }
                }
            },
        }
    }

    /// Take the oldest character, if any.
    pub fn read_char(&mut self) -> (r: Option<u8>)
        requires
            old(self).wf(),
        ensures
            final(self).wf(),
            final(self).modifiers == old(self).modifiers,
            old(self).buffer@.len() == 0 ==> r is None && final(self).buffer@ == old(self).buffer@,
            old(self).buffer@.len() > 0 ==> r == Some(old(self).buffer@[0]) && final(self).buffer@
                == old(self).buffer@.drop_first(),
    {
        self.buffer.read()
    }

    /// Whether a character is waiting.
    pub fn has_data(&self) -> (r: bool)
        requires
            self.wf(),
        ensures
            r == (self.buffer@.len() > 0),
    {
        self.buffer.has_data()
    }

    /// The modifier state.
    pub fn get_modifiers(&self) -> (r: ModifierState)
        ensures
            r == self.modifiers,
    {
        self.modifiers
    }

    /// Drop every waiting character.
    pub fn flush(&mut self)
        requires
            old(self).wf(),
        ensures
            final(self).wf(),
            final(self).buffer@.len() == 0,
            final(self).modifiers == old(self).modifiers,
    {
        loop
            invariant
                self.wf(),
                self.modifiers == old(self).modifiers,
            ensures
                self.wf(),
                self.buffer@.len() == 0,
                self.modifiers == old(self).modifiers,
            decreases self.buffer@.len(),
        {
            let r = self.buffer.read();
            if r.is_none() {
                break;
            }
        }
    }

    /// Number of waiting characters.
    pub fn available(&self) -> (r: usize)
        requires
            self.wf(),
        ensures
            r == self.buffer@.len(),
    {
        self.buffer.available()
    }

    /// Whether the buffer is full.
    pub fn is_full(&self) -> (r: bool)
        requires
            self.wf(),
        ensures
            r == (self.buffer@.len() == INPUT_BUFFER_SIZE),
    {
        self.buffer.is_full()
    }
}

impl ModifierState {
    /// Nothing held, caps lock off.
    pub open spec fn new_spec() -> ModifierState {
        ModifierState {
            left_shift: false,
            right_shift: false,
            left_ctrl: false,
            right_ctrl: false,
            left_alt: false,
            right_alt: false,
            caps_lock: false,
        }
    }
}

/// The modifiers after `event`.
pub open spec fn modifiers_after(m: ModifierState, event: KeyEvent, extended: bool) -> ModifierState {
    match event {
        KeyEvent::Special(SpecialKey::LeftShift) => ModifierState { left_shift: true, ..m },
        KeyEvent::Special(SpecialKey::RightShift) => ModifierState { right_shift: true, ..m },
        KeyEvent::Special(SpecialKey::LeftCtrl) => ModifierState { left_ctrl: true, ..m },
        KeyEvent::Special(SpecialKey::RightCtrl) => ModifierState { right_ctrl: true, ..m },
        KeyEvent::Special(SpecialKey::LeftAlt) => ModifierState { left_alt: true, ..m },
        KeyEvent::Special(SpecialKey::RightAlt) => ModifierState { right_alt: true, ..m },
        KeyEvent::Special(SpecialKey::CapsLock) => ModifierState { caps_lock: !m.caps_lock, ..m },
        KeyEvent::Release(0x2A) => ModifierState { left_shift: false, ..m },
        KeyEvent::Release(0x36) => ModifierState { right_shift: false, ..m },
        KeyEvent::Release(0x1D) => if extended {
            ModifierState { right_ctrl: false, ..m }
        } else {
            ModifierState { left_ctrl: false, ..m }
        },
        KeyEvent::Release(0x38) => if extended {
            ModifierState { right_alt: false, ..m }
        } else {
            ModifierState { left_alt: false, ..m }
        },
        _ => m,
    }
}

/// Pressing and then releasing a shift key leaves the modifiers as they
/// were, when that shift key was not held before.
pub proof fn lemma_shift_press_release(m: ModifierState, extended: bool)
    requires
        !m.left_shift,
    ensures
        modifiers_after(
            modifiers_after(m, KeyEvent::Special(SpecialKey::LeftShift), extended),
            KeyEvent::Release(0x2A),
            extended,
        ) == m,
{
}

/// Pressing and then releasing the right shift key (make code 0x36)
/// leaves the modifiers as they were, when it was not held before.
pub proof fn lemma_right_shift_press_release(m: ModifierState, extended: bool)
    requires
        !m.right_shift,
    ensures
        modifiers_after(
            modifiers_after(m, KeyEvent::Special(SpecialKey::RightShift), extended),
            KeyEvent::Release(0x36),
            extended,
        ) == m,
{
}

/// Law: releasing a modifier key clears exactly that key's flag: 0x2A the
/// left shift, 0x36 the right shift, 0x1D and 0x38 the left control and
/// alt, or the right ones for an extended release; every other modifier,
/// caps lock included, stays as it was.
pub proof fn lemma_release_clears_only_its_key(m: ModifierState, extended: bool)
    ensures
        ({
            let r = modifiers_after(m, KeyEvent::Release(0x36), extended);
            &&& !r.right_shift
            &&& r.left_shift == m.left_shift && r.left_ctrl == m.left_ctrl && r.right_ctrl == m.right_ctrl
            &&& r.left_alt == m.left_alt && r.right_alt == m.right_alt && r.caps_lock == m.caps_lock
        }),
        ({
            let r = modifiers_after(m, KeyEvent::Release(0x2A), extended);
            &&& !r.left_shift
            &&& r.right_shift == m.right_shift && r.left_ctrl == m.left_ctrl && r.right_ctrl == m.right_ctrl
            &&& r.left_alt == m.left_alt && r.right_alt == m.right_alt && r.caps_lock == m.caps_lock
        }),
        ({
            let r = modifiers_after(m, KeyEvent::Release(0x1D), extended);
            &&& (if extended { !r.right_ctrl && r.left_ctrl == m.left_ctrl } else { !r.left_ctrl && r.right_ctrl == m.right_ctrl })
            &&& r.left_shift == m.left_shift && r.right_shift == m.right_shift
            &&& r.left_alt == m.left_alt && r.right_alt == m.right_alt && r.caps_lock == m.caps_lock
        }),
        ({
            let r = modifiers_after(m, KeyEvent::Release(0x38), extended);
            &&& (if extended { !r.right_alt && r.left_alt == m.left_alt } else { !r.left_alt && r.right_alt == m.right_alt })
            &&& r.left_shift == m.left_shift && r.right_shift == m.right_shift
            &&& r.left_ctrl == m.left_ctrl && r.right_ctrl == m.right_ctrl && r.caps_lock == m.caps_lock
        }),
        !m.left_shift ==> !modifiers_after(m, KeyEvent::Release(0x36), extended).left_shift
            && !modifiers_after(m, KeyEvent::Release(0x36), extended).right_shift,
{
}

/// Law: pressing a modifier key sets exactly that key's flag and leaves
/// the others; caps lock toggles.
pub proof fn lemma_press_sets_only_its_key(m: ModifierState, extended: bool)
    ensures
        ({
            let r = modifiers_after(m, KeyEvent::Special(SpecialKey::RightShift), extended);
            &&& r.right_shift
            &&& r.left_shift == m.left_shift && r.left_ctrl == m.left_ctrl && r.right_ctrl == m.right_ctrl
            &&& r.left_alt == m.left_alt && r.right_alt == m.right_alt && r.caps_lock == m.caps_lock
        }),
        ({
            let r = modifiers_after(m, KeyEvent::Special(SpecialKey::LeftShift), extended);
            &&& r.left_shift
            &&& r.right_shift == m.right_shift && r.left_ctrl == m.left_ctrl && r.right_ctrl == m.right_ctrl
            &&& r.left_alt == m.left_alt && r.right_alt == m.right_alt && r.caps_lock == m.caps_lock
        }),
        modifiers_after(m, KeyEvent::Special(SpecialKey::CapsLock), extended).caps_lock == !m.caps_lock,
{
}

} // verus!
