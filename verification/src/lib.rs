//! A CHIP-8 virtual machine core: byte-addressable memory, sixteen 8-bit
//! registers, a call stack, two countdown timers, a monochrome framebuffer,
//! and the fetch-decode-execute cycle over two-byte opcodes.
//!
//! The interpreter never blocks: waiting for a key press is modelled as an
//! explicit suspend/resume state, and an outside driver invokes one unit of
//! work (a batch of instructions followed by one timer tick) at whatever
//! cadence it chooses.

pub mod cpu;
pub mod display;
pub mod instr;
pub mod keyboard;
pub mod semantics;

use vstd::prelude::*;

verus! {

} // verus!
