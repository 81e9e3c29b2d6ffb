//! The failures the machine reports to its host.

use vstd::prelude::*;

verus! {

/// Why an operation on the machine was refused. Every refusal leaves the
/// machine exactly as it was.
#[derive(Clone, Copy, Debug, PartialEq, Eq)]
pub enum Chip8Error {
    /// A memory address, framebuffer coordinate, register index or key index
    /// lies outside the machine.
    OutOfRange,
    /// A return was executed with an empty call stack.
    StackUnderflow,
    /// A call was executed with a full call stack.
    StackOverflow,
    /// The instruction word matches no instruction.
    InvalidOpcode,
    /// The program does not fit between the load origin and the end of memory.
    LoadTooLarge,
}

} // verus!
