//! ACPI tables: system description headers, the root table and the
//! interrupt-controller table (MADT), decoded from the bytes of the tables.

pub mod rsdt;
pub mod madt;
