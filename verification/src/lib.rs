//! A verified CHIP-8 virtual machine core.
//!
//! The library holds the machine state (memory, registers, call stack,
//! timers, framebuffer, keypad latch) and the fetch-decode-execute engine.
//! Rendering, audio and host input stay outside; the host drives the engine
//! one cycle at a time and inspects the dirty and tone flags in between.

use vstd::prelude::*;

pub mod vm;
pub mod insn;
pub mod draw;
pub mod step;
pub mod laws;

verus! {

/// Fatal conditions of the machine, surfaced at the cycle or load boundary.
#[derive(Clone, Copy, Debug, PartialEq, Eq, Structural)]
pub enum Chip8Error {
    /// A derived address or index fell outside its addressable range.
    MemoryOutOfBounds,
    /// A subroutine call would exceed the 16-entry stack.
    StackOverflow,
    /// A return was executed with an empty stack.
    StackUnderflow,
    /// A program image longer than the space past the entry point.
    RomTooLarge,
}

} // verus!
