//! 16550 UART: register layout, line status decoding and the
//! initialization sequence.

use vstd::prelude::*;

pub mod reg;

verus! {

/// COM1 base port.
pub const COM1_PORT: u16 = 0x3F8;
/// COM2 base port.
pub const COM2_PORT: u16 = 0x2F8;
/// COM3 base port.
pub const COM3_PORT: u16 = 0x3E8;
/// COM4 base port.
pub const COM4_PORT: u16 = 0x2E8;

/// Line control: 8 data bits.
pub const LCR_WLEN8: u8 = 0x03;
/// Line control: divisor latch access.
pub const LCR_DLAB: u8 = 0x80;
/// Line status: data ready.
pub const LSR_DR: u8 = 0x01;
/// Line status: transmit holding register empty.
pub const LSR_THRE: u8 = 0x20;
/// FIFO control: enable.
pub const FCR_ENABLE: u8 = 0x01;
/// FIFO control: clear receive FIFO.
pub const FCR_CLEAR_RX: u8 = 0x02;
/// FIFO control: clear transmit FIFO.
pub const FCR_CLEAR_TX: u8 = 0x04;

/// A 16550 UART at an I/O port base.
#[derive(Debug)]
pub struct Uart16550 {
    base_port: u16,
}

impl Uart16550 {
    /// The base port.
    pub closed spec fn port(&self) -> u16 {
        self.base_port
    }

    /// A UART at `base_port`.
    pub fn new(base_port: u16) -> (u: Uart16550)
        ensures
            u.port() == base_port,
    {
        Uart16550 { base_port }
    }

    /// The base port.
    pub fn base_port(&self) -> (r: u16)
        ensures
            r == self.port(),
    {
        self.base_port
    }

    /// The port of register `offset`.
    pub fn register(&self, offset: u16) -> (r: u16)
        requires
            self.port() + offset <= u16::MAX,
        ensures
            r == self.port() + offset,
    {
        self.base_port + offset
    }

    /// The port writes that initialize the UART, in order: interrupts off,
    /// divisor 1 (115200 baud) through the divisor latch, 8N1, FIFOs on and
    /// cleared, DTR and RTS set.
    pub fn init_writes(&self) -> (w: Vec<(u16, u8)>)
        requires
            self.port() + 7 <= u16::MAX,
        ensures
            w@ == seq![
                ((self.port() + 1) as u16, 0u8),
                ((self.port() + 3) as u16, 0x80u8),
                (self.port(), 1u8),
                ((self.port() + 1) as u16, 0u8),
                ((self.port() + 3) as u16, 0x03u8),
                ((self.port() + 2) as u16, 0x07u8),
                ((self.port() + 4) as u16, 0x03u8),
            ],
    {
        let mut w: Vec<(u16, u8)> = Vec::new();
        w.push((self.base_port + reg::IER, 0));
        w.push((self.base_port + reg::LCR, LCR_DLAB));
        w.push((self.base_port + reg::RBR_THR, 1));
        w.push((self.base_port + reg::IER, 0));
        w.push((self.base_port + reg::LCR, LCR_WLEN8));
        w.push((self.base_port + reg::FCR, 0x07));
        w.push((self.base_port + reg::MCR, 0x03));
        proof {
            assert(w@ =~= seq![
                ((self.port() + 1) as u16, 0u8),
                ((self.port() + 3) as u16, 0x80u8),
                (self.port(), 1u8),
                ((self.port() + 1) as u16, 0u8),
                ((self.port() + 3) as u16, 0x03u8),
                ((self.port() + 2) as u16, 0x07u8),
                ((self.port() + 4) as u16, 0x03u8),
            ]);
        }
        w
    }
}

/// Whether a byte may be sent: the transmit holding register is empty.
pub fn tx_ready(lsr: u8) -> (r: bool)
    ensures
        r == (lsr & LSR_THRE != 0),
{
    lsr & LSR_THRE != 0
}

/// Whether a received byte is waiting.
pub fn rx_ready(lsr: u8) -> (r: bool)
    ensures
        r == (lsr & LSR_DR != 0),
{
    lsr & LSR_DR != 0
}

} // verus!
