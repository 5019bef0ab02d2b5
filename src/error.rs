use vstd::prelude::*;

verus! {

/// What can go wrong while loading or running a program.
#[derive(Debug, Clone, Copy, PartialEq, Eq, Structural)]
pub enum Chip8Error {
    /// The program does not fit in memory above the load address.
    ProgramTooLarge,
    /// The word fetched at `address` is no instruction.
    IllegalOpcode { opcode: u16, address: u16 },
    /// A call was made with every stack slot in use.
    StackOverflow { address: u16 },
    /// A return was made with an empty stack.
    StackUnderflow { address: u16 },
    /// The instruction at `address`, or its fetch, reaches past the end of
    /// memory.
    MemoryOutOfBounds { address: u16 },
}

impl Chip8Error {
    /// A short description of the error.
    pub fn message(&self) -> (r: &'static str)
        ensures
            r@ == self.message_text(),
    {
        match self {
            Chip8Error::ProgramTooLarge => "The program size is too large",
            Chip8Error::IllegalOpcode { .. } => "Illegal opcode",
            Chip8Error::StackOverflow { .. } => "Stack overflow",
            Chip8Error::StackUnderflow { .. } => "Stack underflow",
            Chip8Error::MemoryOutOfBounds { .. } => "Memory access out of bounds",
        }
    }

    pub open spec fn message_text(&self) -> Seq<char> {
        match self {
            Chip8Error::ProgramTooLarge => "The program size is too large"@,
            Chip8Error::IllegalOpcode { .. } => "Illegal opcode"@,
            Chip8Error::StackOverflow { .. } => "Stack overflow"@,
            Chip8Error::StackUnderflow { .. } => "Stack underflow"@,
            Chip8Error::MemoryOutOfBounds { .. } => "Memory access out of bounds"@,
        }
    }
}

} // verus!
