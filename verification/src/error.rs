//! The faults that the machine reports instead of corrupting its state.

use vstd::prelude::*;

verus! {

/// A condition under which the machine refuses to go on.
#[derive(Clone, Copy, Debug, PartialEq, Eq, Structural)]
pub enum Chip8Error {
    /// A call would put a 17th return address on the stack.
    StackOverflow,
    /// A return was executed with an empty stack.
    StackUnderflow,
    /// An instruction would read or write memory beyond address 0xFFF.
    MemoryOutOfBounds,
    /// A key index above 0xF was asked for.
    InvalidKey,
    /// The program does not fit between 0x200 and the end of memory.
    RomTooLarge,
}

impl Chip8Error {
    /// A short description for a report.
    pub fn describe(&self) -> (text: &'static str)
        ensures
            text@ == match *self {
                Chip8Error::StackOverflow => "stack overflow: more than 16 nested calls"@,
                Chip8Error::StackUnderflow => "stack underflow: return without a call"@,
                Chip8Error::MemoryOutOfBounds => "memory access beyond address 0xFFF"@,
                Chip8Error::InvalidKey => "key index above 0xF"@,
                Chip8Error::RomTooLarge => "program larger than 3584 bytes"@,
            },
    {
        match self {
            Chip8Error::StackOverflow => "stack overflow: more than 16 nested calls",
            Chip8Error::StackUnderflow => "stack underflow: return without a call",
            Chip8Error::MemoryOutOfBounds => "memory access beyond address 0xFFF",
            Chip8Error::InvalidKey => "key index above 0xF",
            Chip8Error::RomTooLarge => "program larger than 3584 bytes",
        }
    }
}

} // verus!
