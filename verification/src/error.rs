use vstd::prelude::*;

verus! {

/// Failure conditions the machine can report. All of them signal a malformed
/// program or a defect in the host, never a transient condition: none should
/// be retried.
#[derive(Clone, Copy, Debug, PartialEq, Eq, Structural)]
pub enum Chip8Error {
    /// A memory access fell outside the 4096-byte address space.
    OutOfBounds,
    /// A call was made with the stack already at its full depth of 16.
    StackOverflow,
    /// A return was executed with an empty call stack.
    StackUnderflow,
    /// The fetched word decodes to no recognized instruction.
    UnimplementedOpcode,
    /// A program image does not fit in memory above the load address.
    ProgramTooLarge,
}

} // verus!
