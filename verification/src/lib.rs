//! Verified core of a small historical virtual machine: 4KB of memory, 16
//! 8-bit registers, a bounded call stack, two 60 Hz countdown timers, a
//! 64x32 monochrome display mutated by XOR-drawn sprites, and a 16-key
//! input vector, driven by a fetch-decode-execute cycle over a fixed
//! instruction set.

pub mod draw;
pub mod emu;
pub mod font;
pub mod instr;
pub mod stack;
