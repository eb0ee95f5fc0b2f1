//! The conditions on which the machine stops instead of going on.

use vstd::prelude::*;

verus! {

/// Why a program could not be loaded or a cycle could not be run. The
/// machine is left as it was before the call that reports one of these.
#[derive(Clone, Copy, Debug, PartialEq, Eq, Structural)]
pub enum CpuError {
    /// A program of `len` bytes does not fit into memory above the load
    /// address.
    ProgramTooLarge { len: usize },
    /// The two bytes of the next instruction do not both lie in memory.
    PcOutOfBounds { pc: usize },
    /// A call was made with sixteen return addresses already on the stack.
    StackOverflow { opcode: u16, pc: usize },
    /// A return was made with no return address on the stack.
    StackUnderflow { opcode: u16, pc: usize },
    /// The instruction reads or writes memory past its end.
    MemoryOutOfBounds { opcode: u16, pc: usize },
}

} // verus!
