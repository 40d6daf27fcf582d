//! x86_64 exception vectors.

use vstd::prelude::*;

verus! {

pub const DEBUG: u64 = 1;
pub const NMI: u64 = 2;
pub const BREAKPOINT: u64 = 3;
pub const OVERFLOW: u64 = 4;
pub const BOUND_RANGE: u64 = 5;
pub const INVALID_OP: u64 = 6;
pub const DEVICE_NA: u64 = 7;
pub const DOUBLE_FAULT: u64 = 8;
pub const INVALID_TSS: u64 = 10;
pub const SEGMENT_NP: u64 = 11;
pub const STACK_FAULT: u64 = 12;
pub const GP_FAULT: u64 = 13;
pub const PAGE_FAULT: u64 = 14;
pub const X87_FP_ERROR: u64 = 16;
pub const ALIGNMENT_CHECK: u64 = 17;
pub const MACHINE_CHECK: u64 = 18;
pub const SIMD_FP_ERROR: u64 = 19;
pub const VIRTUALIZATION: u64 = 20;
pub const SECURITY: u64 = 30;

} // verus!
