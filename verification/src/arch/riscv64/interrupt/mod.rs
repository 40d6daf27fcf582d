pub mod plic;
