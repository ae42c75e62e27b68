//! An interpreter for the RV64I base integer instruction set (with `MUL`),
//! over a flat little-endian memory reached through a bus.

pub mod dram;
pub mod bus;
pub mod isa;
pub mod cpu;
