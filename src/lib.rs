//! An 8-bit accumulator machine: its instruction set, a two-section
//! assembler that produces its binary images, and a virtual CPU that runs them.
pub mod assembler;
pub mod cpu;
pub mod error;
pub mod instructions;
pub mod memory;
pub mod registers;
pub mod text;
