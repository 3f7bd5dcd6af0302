//! An interpreter for a small subset of an 8-bit virtual machine: 4 KiB of memory,
//! sixteen 8-bit registers, a 12-bit address register, a program counter and a 64 by 32
//! monochrome display drawn by XOR.
//!
//! - `machine`: the machine state, program loading and instruction fetch.
//! - `display`: the pixel grid.
//! - `opcode`: decoding of instruction words.
//! - `execute`: the instruction handlers and the fetch-decode-execute cycle.
use vstd::prelude::*;

pub mod display;
pub mod execute;
pub mod machine;
pub mod opcode;

verus! {

} // verus!
