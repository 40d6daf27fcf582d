//! Architecture support: x86_64 page tables and fault decoding, ARM64
//! translation descriptors and GIC, RISC-V PLIC.

pub mod amd64;
pub mod arm64;
pub mod riscv64;
