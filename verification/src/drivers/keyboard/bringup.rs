//! Bringing up the PS/2 controller and keyboard.
//!
//! The sequence disables the keyboard port, drains stale bytes, reads the
//! configuration byte and writes it back with the keyboard interrupt
//! enabled, re-enables the port, then has the keyboard stop and restart
//! scanning, draining its output in between and at the end. Every write
//! first waits, a bounded number of polls, for the controller's input
//! buffer to empty; every reply is awaited a bounded number of polls.
//!
//! [`Ps2Init`] takes the decisions; the caller does the port work. It
//! performs each [`Ps2Action`], and hands back the byte it read (for a
//! status or data read) or anything (otherwise) to get the next action.

use vstd::prelude::*;
use crate::drivers::keyboard::ps2::{
    keyboard_irq_config, CMD_DISABLE_KEYBOARD, CMD_ENABLE_KEYBOARD, CMD_READ_CONFIG,
    CMD_WRITE_CONFIG, KBD_DISABLE_SCANNING, KBD_ENABLE_SCANNING, STATUS_IBF, STATUS_OBF,
};

verus! {

/// Status polls before a write goes ahead or a reply is given up on.
pub const POLL_LIMIT: u32 = 100_000;
/// Spin iterations between two status polls.
pub const POLL_DELAY: u32 = 100;
/// Bytes a flush reads at most.
pub const FLUSH_LIMIT: u32 = 128;
/// Bytes a drain reads at most.
pub const DRAIN_LIMIT: u32 = 256;
/// Spin iterations after the controller is set up.
pub const CONTROLLER_SETTLE: u32 = 10_000;
/// Spin iterations after the keyboard starts scanning.
pub const KEYBOARD_SETTLE: u32 = 100_000;
/// Number of operations in the sequence.
pub const INIT_STEPS: usize = 17;

/// What the caller does next.
#[derive(Debug, Clone, Copy, PartialEq, Eq, Structural)]
pub enum Ps2Action {
    /// Read the status port and hand the byte back.
    ReadStatus,
    /// Read the data port and hand the byte back.
    ReadData,
    /// Write this byte to the command port.
    WriteCommand(u8),
    /// Write this byte to the data port.
    WriteData(u8),
    /// Spin this many iterations.
    Delay(u32),
    /// The sequence is over.
    Done,
}

/// One operation of the sequence.
#[derive(Debug, Clone, Copy, PartialEq, Eq, Structural)]
pub enum Ps2Op {
    /// Wait for room, then write a controller command.
    Command(u8),
    /// Wait for room, then write a byte to the data port.
    Data(u8),
    /// Await a byte and keep it as the configuration.
    ReadConfig,
    /// Await a byte and ignore it.
    ReadReply,
    /// Read stale bytes while the status shows one, at most `FLUSH_LIMIT`.
    Flush,
    /// Read stale bytes while the status shows one, at most `DRAIN_LIMIT`
    /// status checks.
    Drain,
    /// Spin.
    Delay(u32),
    /// Nothing left.
    End,
}

/// Where an operation stands.
#[derive(Debug, Clone, Copy, PartialEq, Eq, Structural)]
pub enum Phase {
    /// Not begun.
    Start,
    /// A status read was asked for.
    AwaitStatus,
    /// A data read was asked for.
    AwaitData,
    /// A spin was asked for.
    AwaitDelay,
    /// A write was asked for.
    AwaitWrite,
}

/// The bring-up sequence's state: the operation, its phase, its counter
/// (polls left, or bytes read so far), and the configuration byte read.
#[derive(Debug, Clone, Copy, PartialEq, Eq, Structural)]
pub struct Ps2Init {
    pub step: usize,
    pub phase: Phase,
    pub counter: u32,
    pub config: Option<u8>,
}

/// The operation at `step`, given the configuration byte read so far.
pub open spec fn op_at(step: int, config: Option<u8>) -> Ps2Op {
    if step == 0 {
        Ps2Op::Command(CMD_DISABLE_KEYBOARD)
    } else if step == 1 {
        Ps2Op::Flush
    } else if step == 2 {
        Ps2Op::Command(CMD_READ_CONFIG)
    } else if step == 3 {
        Ps2Op::ReadConfig
    } else if step == 4 {
        Ps2Op::Command(CMD_WRITE_CONFIG)
    } else if step == 5 {
        Ps2Op::Data(
            match config {
                Some(c) => c | 1,
                None => 0x41u8,
            },
        )
    } else if step == 6 {
        Ps2Op::Command(CMD_ENABLE_KEYBOARD)
    } else if step == 7 {
        Ps2Op::Delay(CONTROLLER_SETTLE)
    } else if step == 8 {
        Ps2Op::Data(KBD_DISABLE_SCANNING)
    } else if step == 9 {
        Ps2Op::ReadReply
    } else if step == 10 {
        Ps2Op::Flush
    } else if step == 11 {
        Ps2Op::Drain
    } else if step == 12 {
        Ps2Op::Data(KBD_ENABLE_SCANNING)
    } else if step == 13 {
        Ps2Op::ReadReply
    } else if step == 14 {
        Ps2Op::Delay(KEYBOARD_SETTLE)
    } else if step == 15 {
        Ps2Op::Flush
    } else if step == 16 {
        Ps2Op::Drain
    } else {
        Ps2Op::End
    }
}

/// Whether an operation writes after waiting for room.
pub open spec fn is_write(op: Ps2Op) -> bool {
    op is Command || op is Data
}

/// Whether an operation awaits one reply byte.
pub open spec fn is_read(op: Ps2Op) -> bool {
    op is ReadConfig || op is ReadReply
}

/// The write that a write operation makes.
pub open spec fn write_action(op: Ps2Op) -> Ps2Action {
    match op {
        Ps2Op::Command(c) => Ps2Action::WriteCommand(c),
        Ps2Op::Data(d) => Ps2Action::WriteData(d),
        _ => Ps2Action::Done,
    }
}

/// The state and first action when the operation at `step` begins.
pub open spec fn start_spec(step: usize, config: Option<u8>) -> (Ps2Init, Ps2Action) {
    let op = op_at(step as int, config);
    let st = |phase: Phase, counter: u32| Ps2Init { step, phase, counter, config };
    if is_write(op) || is_read(op) {
        (st(Phase::AwaitStatus, POLL_LIMIT), Ps2Action::ReadStatus)
    } else if op is Flush || op is Drain {
        (st(Phase::AwaitStatus, 0), Ps2Action::ReadStatus)
    } else if op is Delay {
        (st(Phase::AwaitDelay, 0), Ps2Action::Delay(op->Delay_0))
    } else {
        (st(Phase::Start, 0), Ps2Action::Done)
    }
}

/// The state and action after `s` gets `input` (the byte read, when the
/// last action was a read).
pub open spec fn next_spec(s: Ps2Init, input: u8) -> (Ps2Init, Ps2Action) {
    let op = op_at(s.step as int, s.config);
    let with = |phase: Phase, counter: u32| Ps2Init { phase, counter, ..s };
    let advance = start_spec((s.step + 1) as usize, s.config);
    match s.phase {
        Phase::Start => start_spec(s.step, s.config),
        Phase::AwaitStatus => {
            if is_write(op) {
                if input & STATUS_IBF == 0 {
                    (with(Phase::AwaitWrite, s.counter), write_action(op))
                } else {
                    (with(Phase::AwaitDelay, (s.counter - 1) as u32), Ps2Action::Delay(POLL_DELAY))
                }
            } else if is_read(op) {
                if input & STATUS_OBF != 0 {
                    (with(Phase::AwaitData, s.counter), Ps2Action::ReadData)
                } else {
                    (with(Phase::AwaitDelay, (s.counter - 1) as u32), Ps2Action::Delay(POLL_DELAY))
                }
            } else if op is Flush {
                if input & STATUS_OBF != 0 && s.counter < FLUSH_LIMIT {
                    (with(Phase::AwaitData, s.counter), Ps2Action::ReadData)
                } else {
                    advance
                }
            } else {
                if input & STATUS_OBF == 0 {
                    advance
                } else {
                    (with(Phase::AwaitData, s.counter), Ps2Action::ReadData)
                }
            }
        },
        Phase::AwaitDelay => {
            if is_write(op) {
                if s.counter > 0 {
                    (with(Phase::AwaitStatus, s.counter), Ps2Action::ReadStatus)
                } else {
                    (with(Phase::AwaitWrite, s.counter), write_action(op))
                }
            } else if is_read(op) {
                if s.counter > 0 {
                    (with(Phase::AwaitStatus, s.counter), Ps2Action::ReadStatus)
                } else if op is ReadConfig {
                    start_spec((s.step + 1) as usize, None)
                } else {
                    advance
                }
            } else {
                advance
            }
        },
        Phase::AwaitData => {
            if op is ReadConfig {
                start_spec((s.step + 1) as usize, Some(input))
            } else if op is ReadReply {
                advance
            } else if op is Flush {
                (with(Phase::AwaitStatus, (s.counter + 1) as u32), Ps2Action::ReadStatus)
            } else {
                if s.counter + 1 < DRAIN_LIMIT {
                    (with(Phase::AwaitStatus, (s.counter + 1) as u32), Ps2Action::ReadStatus)
                } else {
                    advance
                }
            }
        },
        Phase::AwaitWrite => advance,
    }
}

impl Ps2Init {
    /// The state is one the sequence can reach: each phase belongs to the
    /// operation at hand, with its counter in range.
    pub open spec fn wf(&self) -> bool {
        let op = op_at(self.step as int, self.config);
        &&& self.step <= INIT_STEPS
        &&& match self.phase {
            Phase::Start => true,
            Phase::AwaitStatus => {
                ||| (is_write(op) || is_read(op)) && 1 <= self.counter <= POLL_LIMIT
                ||| op is Flush && self.counter <= FLUSH_LIMIT
                ||| op is Drain && self.counter < DRAIN_LIMIT
            },
            Phase::AwaitData => {
                ||| is_read(op)
                ||| op is Flush && self.counter < FLUSH_LIMIT
                ||| op is Drain && self.counter < DRAIN_LIMIT
            },
            Phase::AwaitDelay => {
                ||| (is_write(op) || is_read(op)) && self.counter < POLL_LIMIT
                ||| op is Delay
            },
            Phase::AwaitWrite => is_write(op),
        }
    }

    /// Steps left before `Done`, at most.
    pub open spec fn measure(&self) -> int {
        let op = op_at(self.step as int, self.config);
        let budget: int = match self.phase {
            Phase::Start => 2 * POLL_LIMIT + 3,
            Phase::AwaitStatus => if op is Flush {
                2 * (FLUSH_LIMIT - self.counter) + 2
            } else if op is Drain {
                2 * (DRAIN_LIMIT - self.counter) + 2
            } else {
                2 * self.counter + 1
            },
            Phase::AwaitData => if op is Flush {
                2 * (FLUSH_LIMIT - self.counter) + 1
            } else if op is Drain {
                2 * (DRAIN_LIMIT - self.counter) + 1
            } else {
                1
            },
            Phase::AwaitDelay => if op is Delay {
                1
            } else {
                2 * self.counter + 2
            },
            Phase::AwaitWrite => 1,
        };
        (INIT_STEPS - self.step) * (2 * POLL_LIMIT + 4) + budget
    }

    /// The sequence at its beginning.
    pub fn new() -> (s: Ps2Init)
        ensures
            s.wf(),
            s == (Ps2Init { step: 0, phase: Phase::Start, counter: 0, config: None }),
    {
        Ps2Init { step: 0, phase: Phase::Start, counter: 0, config: None }
    }

    /// The operation at hand.
    pub fn op(&self) -> (r: Ps2Op)
        ensures
            r == op_at(self.step as int, self.config),
    {
        match self.step {
            0 => Ps2Op::Command(CMD_DISABLE_KEYBOARD),
            1 => Ps2Op::Flush,
            2 => Ps2Op::Command(CMD_READ_CONFIG),
            3 => Ps2Op::ReadConfig,
            4 => Ps2Op::Command(CMD_WRITE_CONFIG),
            5 => Ps2Op::Data(keyboard_irq_config(self.config)),
            6 => Ps2Op::Command(CMD_ENABLE_KEYBOARD),
            7 => Ps2Op::Delay(CONTROLLER_SETTLE),
            8 => Ps2Op::Data(KBD_DISABLE_SCANNING),
            9 => Ps2Op::ReadReply,
            10 => Ps2Op::Flush,
            11 => Ps2Op::Drain,
            12 => Ps2Op::Data(KBD_ENABLE_SCANNING),
            13 => Ps2Op::ReadReply,
            14 => Ps2Op::Delay(KEYBOARD_SETTLE),
            15 => Ps2Op::Flush,
            16 => Ps2Op::Drain,
            _ => Ps2Op::End,
        }
    }

    /// Begin the operation at `step`.
    fn start(step: usize, config: Option<u8>) -> (r: (Ps2Init, Ps2Action))
        ensures
            r == start_spec(step, config),
    {
        let s = Ps2Init { step, phase: Phase::Start, counter: 0, config };
        match s.op() {
            Ps2Op::Command(_) | Ps2Op::Data(_) | Ps2Op::ReadConfig | Ps2Op::ReadReply => (
                Ps2Init { phase: Phase::AwaitStatus, counter: POLL_LIMIT, ..s },
                Ps2Action::ReadStatus,
            ),
            Ps2Op::Flush | Ps2Op::Drain => (Ps2Init { phase: Phase::AwaitStatus, ..s }, Ps2Action::ReadStatus),
            Ps2Op::Delay(n) => (Ps2Init { phase: Phase::AwaitDelay, ..s }, Ps2Action::Delay(n)),
            Ps2Op::End => (s, Ps2Action::Done),
        }
    }

    /// Take `input` (the byte read, when the last action was a read) and
    /// answer the next action.
    pub fn step(&mut self, input: u8) -> (a: Ps2Action)
        requires
            old(self).wf(),
        ensures
            final(self).wf(),
            (*final(self), a) == next_spec(*old(self), input),
    {
        let s = *self;
        let op = s.op();
        let r = match s.phase {
            Phase::Start => Ps2Init::start(s.step, s.config),
            Phase::AwaitStatus => match op {
                Ps2Op::Command(c) => if input & STATUS_IBF == 0 {
                    (Ps2Init { phase: Phase::AwaitWrite, ..s }, Ps2Action::WriteCommand(c))
                } else {
                    (Ps2Init { phase: Phase::AwaitDelay, counter: s.counter - 1, ..s }, Ps2Action::Delay(POLL_DELAY))
                },
                Ps2Op::Data(d) => if input & STATUS_IBF == 0 {
                    (Ps2Init { phase: Phase::AwaitWrite, ..s }, Ps2Action::WriteData(d))
                } else {
                    (Ps2Init { phase: Phase::AwaitDelay, counter: s.counter - 1, ..s }, Ps2Action::Delay(POLL_DELAY))
                },
                Ps2Op::ReadConfig | Ps2Op::ReadReply => if input & STATUS_OBF != 0 {
                    (Ps2Init { phase: Phase::AwaitData, ..s }, Ps2Action::ReadData)
                } else {
                    (Ps2Init { phase: Phase::AwaitDelay, counter: s.counter - 1, ..s }, Ps2Action::Delay(POLL_DELAY))
                },
                Ps2Op::Flush => if input & STATUS_OBF != 0 && s.counter < FLUSH_LIMIT {
                    (Ps2Init { phase: Phase::AwaitData, ..s }, Ps2Action::ReadData)
                } else {
                    Ps2Init::start(s.step + 1, s.config)
                },
                _ => if input & STATUS_OBF == 0 {
                    Ps2Init::start(s.step + 1, s.config)
                } else {
                    (Ps2Init { phase: Phase::AwaitData, ..s }, Ps2Action::ReadData)
                },
            },
            Phase::AwaitDelay => match op {
                Ps2Op::Command(c) => if s.counter > 0 {
                    (Ps2Init { phase: Phase::AwaitStatus, ..s }, Ps2Action::ReadStatus)
                } else {
                    (Ps2Init { phase: Phase::AwaitWrite, ..s }, Ps2Action::WriteCommand(c))
                },
                Ps2Op::Data(d) => if s.counter > 0 {
                    (Ps2Init { phase: Phase::AwaitStatus, ..s }, Ps2Action::ReadStatus)
                } else {
                    (Ps2Init { phase: Phase::AwaitWrite, ..s }, Ps2Action::WriteData(d))
                },
                Ps2Op::ReadConfig => if s.counter > 0 {
                    (Ps2Init { phase: Phase::AwaitStatus, ..s }, Ps2Action::ReadStatus)
                } else {
                    Ps2Init::start(s.step + 1, None)
                },
                Ps2Op::ReadReply => if s.counter > 0 {
                    (Ps2Init { phase: Phase::AwaitStatus, ..s }, Ps2Action::ReadStatus)
                } else {
                    Ps2Init::start(s.step + 1, s.config)
                },
                _ => Ps2Init::start(s.step + 1, s.config),
            },
            Phase::AwaitData => match op {
                Ps2Op::ReadConfig => Ps2Init::start(s.step + 1, Some(input)),
                Ps2Op::ReadReply => Ps2Init::start(s.step + 1, s.config),
                Ps2Op::Flush => (Ps2Init { phase: Phase::AwaitStatus, counter: s.counter + 1, ..s }, Ps2Action::ReadStatus),
                _ => if s.counter + 1 < DRAIN_LIMIT {
                    (Ps2Init { phase: Phase::AwaitStatus, counter: s.counter + 1, ..s }, Ps2Action::ReadStatus)
                } else {
                    Ps2Init::start(s.step + 1, s.config)
                },
            },
            Phase::AwaitWrite => Ps2Init::start(s.step + 1, s.config),
        };
        *self = r.0;
        r.1
    }
}

/// Law: every action but `Done` brings the sequence closer to its end, so
/// it ends; `Done` comes only once all operations are through.
pub proof fn lemma_bringup_ends(s: Ps2Init, input: u8)
    requires
        s.wf(),
    ensures
        ({
            let (s2, a) = next_spec(s, input);
            &&& a is Done ==> s2.step == INIT_STEPS
            &&& !(a is Done) ==> 0 <= s2.measure() < s.measure()
        }),
{
}

} // verus!
