//! A CHIP-8 virtual machine: a fixed 35-opcode instruction set over a
//! small register and memory model, a 64x32 monochrome framebuffer, and
//! two countdown timers. The machine state and its invariants live in
//! `machine`, instruction decoding in `decode`, the instruction
//! semantics in `ops` and `draw`, the fetch-decode-execute cycle in
//! `cycle`, the per-frame batching and audio gating in `frame`, and the
//! proved laws of the instruction set in `laws`.

pub mod cycle;
pub mod decode;
pub mod draw;
pub mod frame;
pub mod laws;
pub mod machine;
pub mod ops;

use vstd::prelude::*;

verus! {

/// A fault raised when an instruction would step outside the machine's
/// fixed-capacity state: the 4096-byte memory, the 16-entry call stack,
/// or the 16-key keypad.
#[derive(Clone, Copy, PartialEq, Eq, Structural, Debug)]
pub enum Fault {
    /// More than 16 nested subroutine calls.
    StackOverflow,
    /// A subroutine return with no matching call.
    StackUnderflow,
    /// A memory access outside the 4096-byte address space.
    MemOutOfBounds,
    /// A keypad lookup with a register value above 0xF.
    KeyOutOfRange,
}

} // verus!
