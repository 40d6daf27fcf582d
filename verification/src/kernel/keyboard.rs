//! Keyboard input handling: the input ring buffer, scancode-set-1 to ASCII
//! decoding with shift tracking, polled-input decoding and line editing.

use vstd::prelude::*;
use vstd::arithmetic::div_mod::lemma_small_mod;

verus! {

/// Keyboard data port.
pub const KEYBOARD_DATA_PORT: u16 = 0x60;
/// Keyboard command/status port.
pub const KEYBOARD_COMMAND_PORT: u16 = 0x64;
/// Size of the input ring (one slot stays free, so it holds 255 bytes).
pub const INPUT_BUFFER_SIZE: usize = 256;
/// Scancode of the left shift key.
pub const SC_LEFT_SHIFT: u8 = 0x2A;
/// Scancode of the right shift key.
pub const SC_RIGHT_SHIFT: u8 = 0x36;

/// US QWERTY scancode set 1 to ASCII (0 for keys without a character).
pub const SCAN_CODE_TO_ASCII: [u8; 128] = [
    0, 0, 0x31, 0x32, 0x33, 0x34, 0x35, 0x36, 0x37, 0x38, 0x39, 0x30, 0x2D, 0x3D, 0x08, 0x09,
    0x71, 0x77, 0x65, 0x72, 0x74, 0x79, 0x75, 0x69, 0x6F, 0x70, 0x5B, 0x5D, 0x0A, 0, 0x61, 0x73,
    0x64, 0x66, 0x67, 0x68, 0x6A, 0x6B, 0x6C, 0x3B, 0x27, 0x60, 0, 0x5C, 0x7A, 0x78, 0x63, 0x76,
    0x62, 0x6E, 0x6D, 0x2C, 0x2E, 0x2F, 0, 0, 0, 0x20, 0, 0, 0, 0, 0, 0,
    0, 0, 0, 0, 0, 0, 0, 0, 0, 0, 0, 0, 0, 0, 0, 0,
    0, 0, 0, 0, 0, 0, 0, 0, 0, 0, 0, 0, 0, 0, 0, 0,
    0, 0, 0, 0, 0, 0, 0, 0, 0, 0, 0, 0, 0, 0, 0, 0,
    0, 0, 0, 0, 0, 0, 0, 0, 0, 0, 0, 0, 0, 0, 0, 0,
];

/// Circular input buffer of bytes.
pub struct InputBuffer {
    data: Vec<u8>,
    read_pos: usize,
    write_pos: usize,
}

impl InputBuffer {
    /// Number of buffered bytes.
    pub closed spec fn len_of(&self) -> int {
        if self.write_pos >= self.read_pos {
            self.write_pos - self.read_pos
        } else {
            256 - self.read_pos + self.write_pos
        }
    }

    /// The buffered bytes, oldest first.
    pub closed spec fn view(&self) -> Seq<u8> {
        Seq::new(self.len_of() as nat, |i: int| self.data@[(self.read_pos + i) % 256])
    }

    /// Positions inside the ring.
    pub closed spec fn wf(&self) -> bool {
        self.data@.len() == 256 && self.read_pos < 256 && self.write_pos < 256
    }

    /// An empty buffer.
    pub fn new() -> (b: InputBuffer)
        ensures
            b.wf(),
            b@.len() == 0,
    {
        let mut data: Vec<u8> = Vec::new();
        let mut i: usize = 0;
        while i < INPUT_BUFFER_SIZE
            invariant
                i <= INPUT_BUFFER_SIZE,
                data@.len() == i,
            decreases INPUT_BUFFER_SIZE - i,
        {
            data.push(0u8);
            i = i + 1;
        }
        InputBuffer { data, read_pos: 0, write_pos: 0 }
    }

    /// Append a byte; false (and no change) when 255 bytes are buffered.
    pub fn write(&mut self, byte: u8) -> (ok: bool)
        requires
            old(self).wf(),
        ensures
            final(self).wf(),
            ok == (old(self)@.len() < 255),
            ok ==> final(self)@ == old(self)@.push(byte),
            !ok ==> final(self)@ == old(self)@,
    {
        let next_pos = if self.write_pos + 1 == INPUT_BUFFER_SIZE { 0 } else { self.write_pos + 1 };
        if next_pos == self.read_pos {
            return false;
        }
        let ghost old_view = self@;
        let ghost old_data = self.data@;
        let ghost w = self.write_pos as int;
        let ghost r = self.read_pos as int;
        self.data.set(self.write_pos, byte);
        self.write_pos = next_pos;
        proof {
            let len = old_view.len() as int;
            assert((r + len) % 256 == w) by {
                if w >= r {
                    lemma_small_mod((r + len) as nat, 256);
                } else {
                    vstd::arithmetic::div_mod::lemma_fundamental_div_mod_converse(r + len, 256, 1, w);
                }
            }
            assert forall|i: int| 0 <= i < len implies #[trigger] self.data@[(r + i) % 256] == old_data[(r + i) % 256] by {
                if r + i < 256 {
                    lemma_small_mod((r + i) as nat, 256);
                } else {
                    vstd::arithmetic::div_mod::lemma_fundamental_div_mod_converse(r + i, 256, 1, r + i - 256);
                }
            }
            assert(self@ =~= old_view.push(byte));
        }
        true
    }

    /// Remove and return the oldest byte, or `None` when empty.
    pub fn read(&mut self) -> (r: Option<u8>)
        requires
            old(self).wf(),
        ensures
            final(self).wf(),
            old(self)@.len() == 0 ==> r is None && final(self)@ == old(self)@,
            old(self)@.len() > 0 ==> r == Some(old(self)@[0]) && final(self)@ == old(
                self,
            )@.drop_first(),
    {
        if self.read_pos == self.write_pos {
            return None;
        }
        let ghost old_view = self@;
        let ghost rp = self.read_pos as int;
        proof {
            lemma_small_mod(rp as nat, 256);
        }
        let byte = self.data[self.read_pos];
        self.read_pos = if self.read_pos + 1 == INPUT_BUFFER_SIZE { 0 } else { self.read_pos + 1 };
        proof {
            assert forall|i: int| 0 <= i < old_view.len() - 1 implies #[trigger] self.data@[(
            self.read_pos + i) % 256] == self.data@[(rp + (i + 1)) % 256] by {
                vstd::arithmetic::div_mod::lemma_add_mod_noop(rp + 1, i, 256);
                if rp + 1 == 256 {
                    vstd::arithmetic::div_mod::lemma_mod_self_0(256);
                } else {
                    lemma_small_mod((rp + 1) as nat, 256);
                }
                lemma_small_mod(i as nat, 256);
                vstd::arithmetic::div_mod::lemma_mod_twice(self.read_pos + i, 256);
            }
            assert(self@ =~= old_view.drop_first());
        }
        Some(byte)
    }

    /// Whether any byte is buffered.
    pub fn has_data(&self) -> (r: bool)
        requires
            self.wf(),
        ensures
            r == (self@.len() > 0),
    {
        self.read_pos != self.write_pos
    }

    /// Number of buffered bytes.
    pub fn available(&self) -> (r: usize)
        requires
            self.wf(),
        ensures
            r == self@.len(),
    {
        if self.write_pos >= self.read_pos {
            self.write_pos - self.read_pos
        } else {
            INPUT_BUFFER_SIZE - self.read_pos + self.write_pos
        }
    }
}

/// The character a key press gives: the table entry, upper-cased for
/// letters while shift is held (0 for keys without a character).
pub open spec fn key_char(code: u8, shift: bool) -> u8 {
    let a = SCAN_CODE_TO_ASCII@[code as int];
    if shift && 0x61 <= a <= 0x7A { (a - 32) as u8 } else { a }
}

/// Keyboard state: buffered input and whether shift is held.
pub struct KeyboardState {
    pub buffer: InputBuffer,
    pub shift: bool,
}

impl KeyboardState {
    /// No input, shift released.
    pub fn new() -> (k: KeyboardState)
        ensures
            k.buffer.wf(),
            k.buffer@.len() == 0,
            !k.shift,
    {
        KeyboardState { buffer: InputBuffer::new(), shift: false }
    }

    /// Process one scancode: shift presses and releases update the shift
    /// state; other key presses append their character (if any) to the
    /// buffer; other releases are ignored.
    pub fn handle_scancode(&mut self, scan_code: u8)
        requires
            old(self).buffer.wf(),
        ensures
            final(self).buffer.wf(),
            scan_code >= 0x80 ==> {
                &&& final(self).buffer@ == old(self).buffer@
                &&& final(self).shift == (if scan_code - 0x80 == 0x2A || scan_code - 0x80 == 0x36 {
                    false
                } else {
                    old(self).shift
                })
            },
            scan_code < 0x80 && (scan_code == 0x2A || scan_code == 0x36) ==> final(self).shift
                && final(self).buffer@ == old(self).buffer@,
            scan_code < 0x80 && scan_code != 0x2A && scan_code != 0x36 ==> {
                let c = key_char(scan_code, old(self).shift);
                &&& final(self).shift == old(self).shift
                &&& (c == 0 || old(self).buffer@.len() >= 255) ==> final(self).buffer@ == old(self).buffer@
                &&& (c != 0 && old(self).buffer@.len() < 255) ==> final(self).buffer@ == old(
                    self,
                ).buffer@.push(c)
            },
    {
        if scan_code & 0x80 != 0 {
            let make_code = scan_code & 0x7F;
            assert(scan_code & 0x80 != 0 ==> scan_code >= 0x80 && scan_code & 0x7F == scan_code - 0x80) by (bit_vector);
            if make_code == SC_LEFT_SHIFT || make_code == SC_RIGHT_SHIFT {
                self.shift = false;
            }
        } else {
            assert(scan_code & 0x80 == 0 ==> scan_code < 0x80) by (bit_vector);
            if scan_code == SC_LEFT_SHIFT || scan_code == SC_RIGHT_SHIFT {
                self.shift = true;
                return;
            }
            let mut ascii = SCAN_CODE_TO_ASCII[scan_code as usize];
            if self.shift && ascii >= 0x61 && ascii <= 0x7A {
                ascii = ascii - 32;
            }
            if ascii != 0 {
                let _ = self.buffer.write(ascii);
            }
        }
    }
}

/// What to do after reading the controller status while polling.
#[derive(Debug, Clone, Copy, PartialEq, Eq, Structural)]
pub enum PollAction {
    /// Nothing is waiting.
    NoData,
    /// Read and drop the waiting byte (mouse data or an error).
    Discard,
    /// Read the waiting byte as a keyboard scancode.
    ReadScancode,
}

/// Decide, from the controller status, how to treat the waiting byte:
/// nothing waiting (bit 0 clear), mouse data (bit 5) or a timeout/parity
/// error (bits 6, 7) to drop, else a keyboard scancode.
pub fn poll_action(status: u8) -> (a: PollAction)
    ensures
        status & 0x01 == 0 ==> a == PollAction::NoData,
        status & 0x01 != 0 && (status & 0x20 != 0 || status & 0xC0 != 0) ==> a == PollAction::Discard,
        status & 0x01 != 0 && status & 0x20 == 0 && status & 0xC0 == 0 ==> a == PollAction::ReadScancode,
{
    if status & 0x01 == 0 {
        return PollAction::NoData;
    }
    if status & 0x20 != 0 {
        return PollAction::Discard;
    }
    if status & 0xC0 != 0 {
        return PollAction::Discard;
    }
    PollAction::ReadScancode
}

/// The character of a polled scancode: key presses with a character give
/// it (unshifted); releases and keys without one give `None`.
pub fn polled_char(scan_code: u8) -> (r: Option<u8>)
    ensures
        scan_code >= 0x80 ==> r is None,
        scan_code < 0x80 ==> (if SCAN_CODE_TO_ASCII@[scan_code as int] == 0 {
            r is None
        } else {
            r == Some(SCAN_CODE_TO_ASCII@[scan_code as int])
        }),
{
    if scan_code & 0x80 != 0 {
        assert(scan_code & 0x80 != 0 ==> scan_code >= 0x80) by (bit_vector);
        return None;
    }
    assert(scan_code & 0x80 == 0 ==> scan_code < 0x80) by (bit_vector);
    let ascii = SCAN_CODE_TO_ASCII[scan_code as usize];
    if ascii != 0 {
        Some(ascii)
    } else {
        None
    }
}

/// Outcome of one step of line editing.
#[derive(Debug, Clone, Copy, PartialEq, Eq, Structural)]
pub enum LineStep {
    /// Enter was pressed; the line holds this many bytes.
    Done(usize),
    /// Keep reading; the line holds this many bytes so far.
    Continue(usize),
}

/// Apply one input character to a line being edited in `buffer`, which
/// holds `count` bytes: newline ends the line, backspace drops the last
/// byte, other characters are appended while there is room.
pub fn edit_line(buffer: &mut [u8], count: usize, c: u8) -> (r: LineStep)
    requires
        count <= old(buffer)@.len(),
    ensures
        final(buffer)@.len() == old(buffer)@.len(),
        c == 10 ==> r == LineStep::Done(count) && final(buffer)@ == old(buffer)@,
        c == 8 ==> r == LineStep::Continue(if count > 0 { (count - 1) as usize } else { 0 })
            && final(buffer)@ == old(buffer)@,
        c != 10 && c != 8 && count < old(buffer)@.len() ==> r == LineStep::Continue(
            (count + 1) as usize,
        ) && final(buffer)@ == old(buffer)@.update(count as int, c),
        c != 10 && c != 8 && count >= old(buffer)@.len() ==> r == LineStep::Continue(count)
            && final(buffer)@ == old(buffer)@,
{
    if c == 10 {
        LineStep::Done(count)
    } else if c == 8 {
        if count > 0 {
            LineStep::Continue(count - 1)
        } else {
            LineStep::Continue(0)
        }
    } else if count < buffer.len() {
        buffer[count] = c;
        LineStep::Continue(count + 1)
    } else {
        LineStep::Continue(count)
    }
}

/// Empty polls of the input buffer after which reading switches to polling
/// the controller directly.
pub const POLLING_THRESHOLD: usize = 50000;

/// State of a line being read: characters so far, consecutive empty polls
/// of the input buffer, and whether the controller is being polled.
#[derive(Debug, Clone, Copy, PartialEq, Eq, Structural)]
pub struct LineReader {
    pub count: usize,
    pub empty_iterations: usize,
    pub polling_mode: bool,
}

impl LineReader {
    /// A fresh line.
    pub fn new() -> (r: LineReader)
        ensures
            r == (LineReader { count: 0, empty_iterations: 0, polling_mode: false }),
    {
        LineReader { count: 0, empty_iterations: 0, polling_mode: false }
    }

    /// A character arrived: edit the line; `Some(length)` when it ends it.
    /// The count of empty polls starts over.
    pub fn on_char(&mut self, buffer: &mut [u8], c: u8) -> (r: Option<usize>)
        requires
            old(self).count <= old(buffer)@.len(),
        ensures
            final(buffer)@.len() == old(buffer)@.len(),
            final(self).count <= final(buffer)@.len(),
            final(self).polling_mode == old(self).polling_mode,
            c == 10 ==> r == Some(old(self).count) && final(buffer)@ == old(buffer)@
                && *final(self) == *old(self),
            c != 10 ==> r is None && final(self).empty_iterations == 0,
            c == 8 ==> final(self).count == (if old(self).count > 0 {
                old(self).count - 1
            } else {
                0
            }) && final(buffer)@ == old(buffer)@,
            c != 10 && c != 8 && old(self).count < old(buffer)@.len() ==> final(self).count == old(
                self,
            ).count + 1 && final(buffer)@ == old(buffer)@.update(old(self).count as int, c),
            c != 10 && c != 8 && old(self).count >= old(buffer)@.len() ==> final(self).count == old(
                self,
            ).count && final(buffer)@ == old(buffer)@,
    {
        let count = self.count;
        let blen = buffer.len();
        let step = edit_line(buffer, count, c);
        match step {
            LineStep::Done(n) => Some(n),
            LineStep::Continue(n) => {
                self.count = n;
                self.empty_iterations = 0;
                None
            },
        }
    }

    /// The input buffer was empty: count it; past the threshold switch to
    /// polling the controller. True when this call made the switch.
    pub fn on_empty(&mut self) -> (switched: bool)
        requires
            old(self).empty_iterations < usize::MAX,
        ensures
            final(self).count == old(self).count,
            final(self).empty_iterations == old(self).empty_iterations + 1,
            switched == (!old(self).polling_mode && old(self).empty_iterations + 1 > POLLING_THRESHOLD),
            final(self).polling_mode == (old(self).polling_mode || switched),
    {
        self.empty_iterations = self.empty_iterations + 1;
        if !self.polling_mode && self.empty_iterations > POLLING_THRESHOLD {
            self.polling_mode = true;
            return true;
        }
        false
    }
}

/// State of a line read with an iteration limit: characters so far,
/// iterations begun, and the limit.
#[derive(Debug, Clone, Copy, PartialEq, Eq, Structural)]
pub struct TimedLineReader {
    pub count: usize,
    pub iterations: u64,
    pub max_iterations: u64,
}

impl TimedLineReader {
    /// A fresh line read that gives up after `max_iterations` iterations.
    pub fn new(max_iterations: u64) -> (r: TimedLineReader)
        ensures
            r == (TimedLineReader { count: 0, iterations: 0, max_iterations }),
    {
        TimedLineReader { count: 0, iterations: 0, max_iterations }
    }

    /// Begin an iteration: `Some(answer)` when the limit is passed, the
    /// answer of a read that timed out before Enter (none); `None` when the
    /// caller goes on to look for a character.
    pub fn begin_iteration(&mut self) -> (r: Option<Option<usize>>)
        requires
            old(self).iterations < u64::MAX,
        ensures
            final(self).iterations == old(self).iterations + 1,
            final(self).count == old(self).count,
            final(self).max_iterations == old(self).max_iterations,
            r == (if old(self).iterations + 1 > old(self).max_iterations {
                Some(None::<usize>)
            } else {
                None
            }),
    {
        self.iterations = self.iterations + 1;
        if self.iterations > self.max_iterations {
            return Some(timeout_outcome(self.count));
        }
        None
    }

    /// A character arrived: edit the line; `Some(length)` when Enter ends
    /// it.
    pub fn on_char(&mut self, buffer: &mut [u8], c: u8) -> (r: Option<usize>)
        requires
            old(self).count <= old(buffer)@.len(),
        ensures
            final(buffer)@.len() == old(buffer)@.len(),
            final(self).count <= final(buffer)@.len(),
            final(self).iterations == old(self).iterations,
            final(self).max_iterations == old(self).max_iterations,
            c == 10 ==> r == Some(old(self).count) && final(buffer)@ == old(buffer)@
                && final(self).count == old(self).count,
            c != 10 ==> r is None,
            c == 8 ==> final(self).count == (if old(self).count > 0 {
                old(self).count - 1
            } else {
                0
            }) && final(buffer)@ == old(buffer)@,
            c != 10 && c != 8 && old(self).count < old(buffer)@.len() ==> final(self).count == old(
                self,
            ).count + 1 && final(buffer)@ == old(buffer)@.update(old(self).count as int, c),
            c != 10 && c != 8 && old(self).count >= old(buffer)@.len() ==> final(self).count == old(
                self,
            ).count && final(buffer)@ == old(buffer)@,
    {
        let count = self.count;
        let blen = buffer.len();
        match edit_line(buffer, count, c) {
            LineStep::Done(n) => Some(n),
            LineStep::Continue(n) => {
                self.count = n;
                None
            },
        }
    }
}

/// The answer of a line read that times out before Enter, whatever
/// `count` characters it has stored: none (only Enter ends a line).
pub fn timeout_outcome(count: usize) -> (r: Option<usize>)
    ensures
        r is None,
{
    None
}

/// The hexadecimal digit shown for the interrupt count (its low 4 bits
/// taken as 0 to 15).
pub fn irq_count_digit(count: u8) -> (d: u8)
    requires
        count < 16,
    ensures
        d == (if count < 10 { 48 + count } else { 65 + count - 10 }),
{
    if count < 10 {
        48 + count
    } else {
        65 + count - 10
    }
}

/// What the keyboard interrupt does with the controller status: nothing
/// without data, ignore mouse data, else read the scancode.
pub fn irq_status_action(status: u8) -> (a: PollAction)
    ensures
        status & 0x01 == 0 ==> a == PollAction::NoData,
        status & 0x01 != 0 && status & 0x20 != 0 ==> a == PollAction::Discard,
        status & 0x01 != 0 && status & 0x20 == 0 ==> a == PollAction::ReadScancode,
{
    if status & 0x01 == 0 {
        PollAction::NoData
    } else if status & 0x20 != 0 {
        PollAction::Discard
    } else {
        PollAction::ReadScancode
    }
}

} // verus!
