//! x86_64 exceptions and faults: decoding page fault error codes and
//! deciding what each exception leads to.
//!
//! Halting the processor is left to the caller: a handler answers with a
//! [`FaultOutcome`], and `Halt` carries the message to report first.

use vstd::prelude::*;

pub mod pf_error;
pub mod exception_vector;
pub mod pf_flags;

verus! {

/// RFLAGS alignment-check bit.
pub const X86_FLAGS_AC: u64 = 0x40000;

/// What an exception leads to.
#[derive(Debug, Clone, Copy, PartialEq, Eq)]
pub enum FaultOutcome {
    /// Return to the interrupted code.
    Resume,
    /// Report the message and halt the system.
    Halt(&'static str),
}

/// Whether an address lies in the lower, user half of the address space.
pub fn is_user_address(addr: usize) -> (r: bool)
    ensures
        r == (addr < 0x0000_8000_0000_0000),
{
    (addr as u64) < 0x0000_8000_0000_0000u64
}

/// A decoded page fault error code.
#[derive(Debug, Clone, Copy, PartialEq, Eq)]
pub struct PfeReport {
    /// "write" or "read"
    pub access_type: &'static str,
    /// "user" or "supervisor"
    pub mode: &'static str,
    /// "instruction" or "data"
    pub fetch_type: &'static str,
    /// " rsv" when the reserved bit is set, else empty
    pub rsv: &'static str,
    /// "protection violation" or "page not present"
    pub present: &'static str,
    /// The faulting address
    pub cr2: u64,
}

/// Decode a page fault error code for the report.
pub fn x86_dump_pfe(cr2: u64, err_code: u64) -> (r: PfeReport)
    ensures
        r.cr2 == cr2,
        r.access_type == (if err_code & pf_error::W != 0 { "write" } else { "read" }),
        r.mode == (if err_code & pf_error::U != 0 { "user" } else { "supervisor" }),
        r.fetch_type == (if err_code & pf_error::I != 0 { "instruction" } else { "data" }),
        r.rsv == (if err_code & pf_error::RSV != 0 { " rsv" } else { "" }),
        r.present == (if err_code & pf_error::P != 0 {
            "protection violation"
        } else {
            "page not present"
        }),
{
    let access_type = if err_code & pf_error::W != 0 { "write" } else { "read" };
    let mode = if err_code & pf_error::U != 0 { "user" } else { "supervisor" };
    let fetch_type = if err_code & pf_error::I != 0 { "instruction" } else { "data" };
    let rsv = if err_code & pf_error::RSV != 0 { " rsv" } else { "" };
    let present = if err_code & pf_error::P != 0 {
        "protection violation"
    } else {
        "page not present"
    };
    PfeReport { access_type, mode, fetch_type, rsv, present, cr2 }
}

/// A fatal page fault: decode it and halt.
pub fn x86_fatal_pfe_handler(cr2: u64, err_code: u64) -> (r: (PfeReport, FaultOutcome))
    ensures
        r.0 == x86_dump_pfe_spec(cr2, err_code),
        r.1 == FaultOutcome::Halt("fatal page fault, halting\n"),
{
    (x86_dump_pfe(cr2, err_code), FaultOutcome::Halt("fatal page fault, halting\n"))
}

/// The report `x86_dump_pfe` builds.
pub open spec fn x86_dump_pfe_spec(cr2: u64, err_code: u64) -> PfeReport {
    PfeReport {
        access_type: if err_code & pf_error::W != 0 { "write" } else { "read" },
        mode: if err_code & pf_error::U != 0 { "user" } else { "supervisor" },
        fetch_type: if err_code & pf_error::I != 0 { "instruction" } else { "data" },
        rsv: if err_code & pf_error::RSV != 0 { " rsv" } else { "" },
        present: if err_code & pf_error::P != 0 { "protection violation" } else { "page not present" },
        cr2,
    }
}

/// The page fault flags for an error code: write, user, instruction fetch,
/// and not-present when the present bit is clear.
pub fn page_fault_flags(error_code: u64) -> (r: u32)
    ensures
        r == (if error_code & pf_error::W != 0 { pf_flags::WRITE } else { 0 }) | (if error_code
            & pf_error::U != 0 {
            pf_flags::USER
        } else {
            0
        }) | (if error_code & pf_error::I != 0 {
            pf_flags::INSTRUCTION
        } else {
            0
        }) | (if error_code & pf_error::P == 0 {
            pf_flags::NOT_PRESENT
        } else {
            0
        }),
{
    let w: u32 = if error_code & pf_error::W != 0 { pf_flags::WRITE } else { 0 };
    let u: u32 = if error_code & pf_error::U != 0 { pf_flags::USER } else { 0 };
    let i: u32 = if error_code & pf_error::I != 0 { pf_flags::INSTRUCTION } else { 0 };
    let n: u32 = if error_code & pf_error::P == 0 { pf_flags::NOT_PRESENT } else { 0 };
    w | u | i | n
}

/// Page fault handler for a fault at `va` with `error_code`, taken with
/// `rflags`. Error codes with bits besides present, write, user and fetch,
/// and supervisor accesses to present user pages with AC clear (a potential
/// SMAP failure), are refused first; no virtual memory handler serves the
/// rest, so every fault is refused.
pub fn x86_pfe_handler(rflags: u64, error_code: u64, va: usize) -> (r: Result<(), ()>)
    ensures
        r == Err::<(), ()>(()),
{
    let unhandled_bits = error_code & !(pf_error::I | pf_error::U | pf_error::W | pf_error::P);
    if unhandled_bits != 0 {
        return Err(());
    }
    let supervisor_access = error_code & pf_error::U == 0;
    let page_present = error_code & pf_error::P != 0;
    let ac_clear = (rflags & X86_FLAGS_AC) == 0;
    let user_addr = is_user_address(va);
    if supervisor_access && page_present && ac_clear && user_addr {
        return Err(());
    }
    let _flags = page_fault_flags(error_code);
    Err(())
}

/// Debug exception: unhandled hardware breakpoint.
pub fn x86_debug_handler() -> (r: FaultOutcome)
    ensures
        r == FaultOutcome::Halt("unhandled hw breakpoint, halting\n"),
{
    FaultOutcome::Halt("unhandled hw breakpoint, halting\n")
}

/// Breakpoint exception: unhandled software breakpoint.
pub fn x86_breakpoint_handler() -> (r: FaultOutcome)
    ensures
        r == FaultOutcome::Halt("unhandled sw breakpoint, halting\n"),
{
    FaultOutcome::Halt("unhandled sw breakpoint, halting\n")
}

/// General protection fault.
pub fn x86_gpf_handler() -> (r: FaultOutcome)
    ensures
        r == FaultOutcome::Halt("unhandled gpf, halting\n"),
{
    FaultOutcome::Halt("unhandled gpf, halting\n")
}

/// Invalid opcode.
pub fn x86_invop_handler() -> (r: FaultOutcome)
    ensures
        r == FaultOutcome::Halt("invalid opcode, halting\n"),
{
    FaultOutcome::Halt("invalid opcode, halting\n")
}

/// Double fault: never handed to user handlers.
pub fn x86_df_handler() -> (r: FaultOutcome)
    ensures
        r == FaultOutcome::Halt("double fault, halting\n"),
{
    FaultOutcome::Halt("double fault, halting\n")
}

/// Non-maskable interrupt: nothing to do.
pub fn x86_nmi_handler() -> (r: FaultOutcome)
    ensures
        r == FaultOutcome::Resume,
{
    FaultOutcome::Resume
}

/// Any other exception.
pub fn x86_unhandled_exception() -> (r: FaultOutcome)
    ensures
        r == FaultOutcome::Halt("unhandled exception, halting\n"),
{
    FaultOutcome::Halt("unhandled exception, halting\n")
}

/// What an exception with vector `vector` leads to. A page fault is taken
/// with the present bit as its error code, at address `cr2`.
pub open spec fn exception_outcome(vector: u64) -> FaultOutcome {
    if vector == exception_vector::DEBUG {
        FaultOutcome::Halt("unhandled hw breakpoint, halting\n")
    } else if vector == exception_vector::NMI {
        FaultOutcome::Resume
    } else if vector == exception_vector::BREAKPOINT {
        FaultOutcome::Halt("unhandled sw breakpoint, halting\n")
    } else if vector == exception_vector::INVALID_OP {
        FaultOutcome::Halt("invalid opcode, halting\n")
    } else if vector == exception_vector::DEVICE_NA {
        FaultOutcome::Halt("device na fault\n")
    } else if vector == exception_vector::DOUBLE_FAULT {
        FaultOutcome::Halt("double fault, halting\n")
    } else if vector == exception_vector::GP_FAULT {
        FaultOutcome::Halt("unhandled gpf, halting\n")
    } else if vector == exception_vector::PAGE_FAULT {
        FaultOutcome::Halt("fatal page fault, halting\n")
    } else {
        FaultOutcome::Halt("unhandled exception, halting\n")
    }
}

/// Dispatch an exception to its handler. A page fault goes to the page
/// fault handler with the present bit as error code and, refused, to the
/// fatal path, whose report is returned too.
pub fn x86_exception_handler(vector: u64, rflags: u64, cr2: u64) -> (r: (FaultOutcome, Option<
    PfeReport,
>))
    ensures
        r.0 == exception_outcome(vector),
        r.1 == (if vector == exception_vector::PAGE_FAULT {
            Some(x86_dump_pfe_spec(cr2, pf_error::P))
        } else {
            None
        }),
{
    if vector == exception_vector::DEBUG {
        (x86_debug_handler(), None)
    } else if vector == exception_vector::NMI {
        (x86_nmi_handler(), None)
    } else if vector == exception_vector::BREAKPOINT {
        (x86_breakpoint_handler(), None)
    } else if vector == exception_vector::INVALID_OP {
        (x86_invop_handler(), None)
    } else if vector == exception_vector::DEVICE_NA {
        (FaultOutcome::Halt("device na fault\n"), None)
    } else if vector == exception_vector::DOUBLE_FAULT {
        (x86_df_handler(), None)
    } else if vector == exception_vector::GP_FAULT {
        (x86_gpf_handler(), None)
    } else if vector == exception_vector::PAGE_FAULT {
        let error_code = pf_error::P;
        #[verifier::truncate]
        let va = cr2 as usize;
        let _ = x86_pfe_handler(rflags, error_code, va);
        let (report, outcome) = x86_fatal_pfe_handler(cr2, error_code);
        (outcome, Some(report))
    } else {
        (x86_unhandled_exception(), None)
    }
}

/// Exception context handed to user-space dispatch.
#[derive(Debug, Clone, Copy)]
pub struct ArchExceptionContext {
    pub is_page_fault: bool,
    /// Address of the interrupt frame
    pub frame: u64,
    pub cr2: u64,
}

} // verus!
