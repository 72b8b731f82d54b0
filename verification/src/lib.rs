//! A verified CHIP-8 interpreter core.
//!
//! The interpreter fetches two-byte instructions from a 4 KiB address space,
//! mutates a small register file and a monochrome framebuffer, and advances a
//! program counter according to the CHIP-8 instruction set.  Presentation,
//! audio and host input are left to the embedding program; the core exposes
//! plain state that a host can read and drive.

use vstd::prelude::*;

pub mod chip8;
pub mod laws;
pub mod video;

verus! {

/// Size of the CHIP-8 address space in bytes.
pub const MEMORY_SIZE: usize = 4096;

/// Address at which loaded programs start, and the initial program counter.
pub const START_PROGRAM: u16 = 0x200;

/// Largest ROM that fits between `START_PROGRAM` and the end of memory.
pub const MAX_ROM_SIZE: usize = 3584;

/// Address of the built-in font table.
pub const FONT_BASE: u16 = 0x50;

/// Width of the display in pixels.
pub const WIDTH: usize = 64;

/// Height of the display in pixels.
pub const HEIGHT: usize = 32;

/// Number of pixels in the display.
pub const PIXEL_COUNT: usize = 2048;

/// Depth of the call stack.
pub const STACK_DEPTH: usize = 16;

/// Structured outcome of one interpreter step that did not complete normally.
///
/// Every variant is recoverable from the host's point of view: the interpreter
/// state stays well formed and the host decides whether to halt, reset, or
/// keep stepping.
#[derive(Clone, Copy, Debug, PartialEq, Eq, Structural)]
pub enum Chip8Error {
    /// An instruction named register 0xF as a general operand, although the
    /// instruction set reserves it as the flag register.  The instruction is
    /// skipped: the program counter still advances.
    InvalidRegisterOperand,
    /// No handler matches the decoded nibbles.  The program counter still
    /// advances.
    UnknownOpcode,
    /// A call was attempted with the stack already at full depth.  The state
    /// is left unchanged.
    StackOverflow,
    /// A return was attempted with the stack empty.  The state is left
    /// unchanged.
    StackUnderflow,
    /// The program counter or index register resolved to an address outside
    /// the address space.  The instruction is not executed and the state is
    /// left unchanged.
    MemoryOutOfRange,
}

} // verus!
