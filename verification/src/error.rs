//! The fatal conditions of the machine.

use vstd::prelude::*;

verus! {

/// Why the machine stopped. Every one of these is fatal: the state of the
/// machine is left as it was before the failing operation.
#[derive(Clone, Copy, Debug, PartialEq, Eq, Structural)]
pub enum Chip8Error {
    /// The fetched word matches no instruction, at the first or at a later
    /// level of dispatch.
    InvalidOpcode { pc: u16, instruction: u16 },
    /// A call found the stack of return addresses full.
    StackOverflow,
    /// A return found the stack of return addresses empty.
    StackUnderflow,
    /// The program counter is where it was at the start of the previous step.
    EngineStall,
    /// An address outside memory, or a sprite row outside the display.
    OutOfBounds,
}

} // verus!
