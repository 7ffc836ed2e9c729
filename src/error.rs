//! Faults reported by the assembler and by the CPU.
use vstd::prelude::*;

verus! {

/// Every failure of assembly or execution, with the context needed to diagnose it.
///
/// Assembly faults carry the 1-based number of the source line they arose on;
/// execution faults carry the byte or the address involved.
#[derive(Clone, Copy, Debug, PartialEq, Eq, Structural)]
pub enum Error {
    /// A byte in an opcode position is not one of the defined opcodes.
    InvalidOpcode(u8),
    /// A mnemonic that names no opcode.
    UnknownMnemonic { line: usize },
    /// An operand or data value that is malformed or does not fit in a byte.
    InvalidOperand { line: usize },
    /// A record that appears before any section directive.
    MissingSection { line: usize },
    /// A label reference that no record declares.
    UndefinedLabel { line: usize },
    /// An access at or past the end of a memory.
    OutOfBounds(u32),
    /// A division whose divisor, read from the given data address, is zero.
    DivisionByZero(u8),
}

} // verus!
