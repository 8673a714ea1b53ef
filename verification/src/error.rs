use vstd::prelude::*;

verus! {

/// The ways in which the machine refuses to act. A refusal never changes the
/// machine: memory, registers and display stay exactly as they were.
#[derive(Clone, Copy, Debug, PartialEq, Eq, Structural)]
pub enum Chip8Error {
    /// A program image does not fit between its start address and the end of
    /// memory.
    ImageTooLarge,
    /// The program counter points so close to the end of memory that no whole
    /// two-byte instruction can be fetched there.
    ProgramCounterOutOfBounds,
    /// An instruction would read or write beyond the last memory cell.
    MemoryOutOfBounds,
}

} // verus!
