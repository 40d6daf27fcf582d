//! PS/2 controller constants, status decoding and the keyboard event ring
//! buffer.

use vstd::prelude::*;
use vstd::arithmetic::div_mod::{lemma_add_mod_noop, lemma_mod_twice, lemma_small_mod};

verus! {

/// Data port (scancodes, device commands).
pub const PS2_DATA_PORT: u16 = 0x60;
/// Command/status port.
pub const PS2_CMD_PORT: u16 = 0x64;
/// Controller command: disable the keyboard port.
pub const CMD_DISABLE_KEYBOARD: u8 = 0xAD;
/// Controller command: enable the keyboard port.
pub const CMD_ENABLE_KEYBOARD: u8 = 0xAE;
/// Controller command: read the configuration byte.
pub const CMD_READ_CONFIG: u8 = 0x20;
/// Controller command: write the configuration byte.
pub const CMD_WRITE_CONFIG: u8 = 0x60;
/// Device command: disable scanning.
pub const KBD_DISABLE_SCANNING: u8 = 0xF5;
/// Device command: enable scanning.
pub const KBD_ENABLE_SCANNING: u8 = 0xF4;
/// Device acknowledgement.
pub const KBD_ACK: u8 = 0xFA;
/// Status bit: output buffer full.
pub const STATUS_OBF: u8 = 0x01;
/// Status bit: input buffer full.
pub const STATUS_IBF: u8 = 0x02;
/// Status bit: the data comes from the auxiliary (mouse) device.
pub const STATUS_AUXDATA: u8 = 0x20;
/// Size of the keyboard input buffer.
pub const INPUT_BUFFER_SIZE: usize = 256;
/// Configuration used when the controller does not answer a read.
pub const DEFAULT_CONFIG: u8 = 0x41;

/// The configuration byte to write back: the one read (or the default when
/// none arrived) with the keyboard interrupt (bit 0) enabled.
pub fn keyboard_irq_config(read: Option<u8>) -> (r: u8)
    ensures
        r == (match read {
            Some(c) => c | 1,
            None => 0x41u8,
        }),
{
    let config = match read {
        Some(c) => c,
        None => DEFAULT_CONFIG,
    };
    assert(0x41u8 | 1u8 == 0x41u8) by (bit_vector);
    config | 0x01
}

/// Whether the controller can take another byte (input buffer empty).
pub fn can_write(status: u8) -> (r: bool)
    ensures
        r == (status & STATUS_IBF == 0),
{
    status & STATUS_IBF == 0
}

/// Whether a byte is waiting in the output buffer.
pub fn has_output(status: u8) -> (r: bool)
    ensures
        r == (status & STATUS_OBF != 0),
{
    status & STATUS_OBF != 0
}

/// Circular buffer of keyboard events holding up to `N` items.
pub struct CircularBuffer<T, const N: usize> {
    data: Vec<Option<T>>,
    read_pos: usize,
    count: usize,
}

impl<T: Copy, const N: usize> CircularBuffer<T, N> {
    /// The buffered items, oldest first.
    pub closed spec fn view(&self) -> Seq<T> {
        Seq::new(self.count as nat, |i: int| self.data@[(self.read_pos + i) % (N as int)]->0)
    }

    /// Slots, read position and count are consistent.
    pub closed spec fn wf(&self) -> bool {
        &&& N > 0
        &&& self.data@.len() == N
        &&& self.read_pos < N
        &&& self.count <= N
        &&& forall|i: int| 0 <= i < self.count ==> #[trigger] self.data@[(self.read_pos + i) % (N as int)] is Some
    }

    /// An empty buffer.
    pub fn new() -> (b: Self)
        requires
            N > 0,
        ensures
            b.wf(),
            b@.len() == 0,
    {
        let mut data: Vec<Option<T>> = Vec::new();
        let mut i: usize = 0;
        while i < N
            invariant
                i <= N,
                data@.len() == i,
            decreases N - i,
        {
            data.push(None);
            i = i + 1;
        }
        CircularBuffer { data, read_pos: 0, count: 0 }
    }

    /// Append a value; false (and no change) when the buffer is full.
    pub fn write(&mut self, value: T) -> (ok: bool)
        requires
            old(self).wf(),
        ensures
            final(self).wf(),
            ok == (old(self)@.len() < N),
            ok ==> final(self)@ == old(self)@.push(value),
            !ok ==> final(self)@ == old(self)@,
    {
        if self.count == N {
            return false;
        }
        let ghost old_view = self@;
        let idx = if self.read_pos < N - self.count {
            self.read_pos + self.count
        } else {
            self.read_pos - (N - self.count)
        };
        proof {
            let n = N as int;
            let t = self.read_pos + self.count;
            if self.read_pos < N - self.count {
                lemma_small_mod(t as nat, n as nat);
            } else {
                vstd::arithmetic::div_mod::lemma_fundamental_div_mod_converse(t, n, 1, t - n);
            }
        }
        self.data.set(idx, Some(value));
        proof {
            let n = N as int;
            let rp = self.read_pos as int;
            let c = self.count as int;
            assert forall|i: int| 0 <= i < c + 1 implies #[trigger] self.data@[(rp + i) % n] is Some
                && (i < c ==> self.data@[(rp + i) % n] == old(self).data@[(rp + i) % n]) by {
                if i < c {
                    lemma_mod_distinct(rp, i, c, n);
                }
            }
        }
        self.count = self.count + 1;
        proof {
            assert(self@ =~= old_view.push(value));
        }
        true
    }

    /// Remove and return the oldest value, or `None` when empty.
    pub fn read(&mut self) -> (r: Option<T>)
        requires
            old(self).wf(),
        ensures
            final(self).wf(),
            old(self)@.len() == 0 ==> r is None && final(self)@ == old(self)@,
            old(self)@.len() > 0 ==> r == Some(old(self)@[0]) && final(self)@ == old(
                self,
            )@.drop_first(),
    {
        if self.count == 0 {
            return None;
        }
        proof {
            lemma_small_mod(self.read_pos as nat, N as nat);
            assert(self.data@[(self.read_pos + 0) % (N as int)] is Some);
        }
        let value = match self.data[self.read_pos] {
            Some(v) => v,
            None => {
                return None;
            },
        };
        let ghost old_view = self@;
        let ghost rp = self.read_pos as int;
        self.read_pos = if self.read_pos + 1 == N { 0 } else { self.read_pos + 1 };
        proof {
            let n = N as int;
            if rp + 1 == n {
                vstd::arithmetic::div_mod::lemma_mod_self_0(n);
            } else {
                lemma_small_mod((rp + 1) as nat, n as nat);
            }
        }
        self.count = self.count - 1;
        proof {
            let n = N as int;
            assert forall|i: int| 0 <= i < self.count implies #[trigger] self.data@[(self.read_pos + i) % n]
                == self.data@[(rp + (i + 1)) % n] by {
                lemma_add_mod_noop(rp + 1, i, n);
                lemma_mod_twice(i, n);
                lemma_small_mod(i as nat, n as nat);
            }
            assert(self@ =~= old_view.drop_first());
        }
        Some(value)
    }

    /// Whether any item is buffered.
    pub fn has_data(&self) -> (r: bool)
        requires
            self.wf(),
        ensures
            r == (self@.len() > 0),
    {
        self.count != 0
    }

    /// Number of buffered items.
    pub fn available(&self) -> (r: usize)
        requires
            self.wf(),
        ensures
            r == self@.len(),
    {
        self.count
    }

    /// Whether the buffer holds `N` items.
    pub fn is_full(&self) -> (r: bool)
        requires
            self.wf(),
        ensures
            r == (self@.len() == N),
    {
        self.count == N
    }

    /// Drop every buffered item.
    pub fn clear(&mut self)
        requires
            old(self).wf(),
        ensures
            final(self).wf(),
            final(self)@.len() == 0,
    {
        self.read_pos = 0;
        self.count = 0;
    }
}

/// Positions `rp + i` (i < c) and `rp + c` (c < n) fall in different slots.
proof fn lemma_mod_distinct(rp: int, i: int, c: int, n: int)
    requires
        0 <= rp < n,
        0 <= i < c,
        c < n,
    ensures
        (rp + i) % n != (rp + c) % n,
{
    if rp + c < n {
        lemma_small_mod((rp + i) as nat, n as nat);
        lemma_small_mod((rp + c) as nat, n as nat);
    } else if rp + i >= n {
        assert((rp + i) % n == rp + i - n) by {
            vstd::arithmetic::div_mod::lemma_fundamental_div_mod_converse(rp + i, n, 1, rp + i - n);
        }
        assert((rp + c) % n == rp + c - n) by {
            vstd::arithmetic::div_mod::lemma_fundamental_div_mod_converse(rp + c, n, 1, rp + c - n);
        }
    } else {
        lemma_small_mod((rp + i) as nat, n as nat);
        assert((rp + c) % n == rp + c - n) by {
            vstd::arithmetic::div_mod::lemma_fundamental_div_mod_converse(rp + c, n, 1, rp + c - n);
        }
    }
}

} // verus!
