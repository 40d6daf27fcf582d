//! x86_64 memory management.

pub mod page_tables;
