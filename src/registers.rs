//! The CPU's registers: the program counter, the fetch latch, the current
//! instruction register and the accumulator.
use vstd::prelude::*;

use crate::error::Error;
use crate::instructions::{decoded, Instruction};

verus! {

/// A single-byte register; its view is the byte it holds.
pub trait Register: View<V = u8> {
    /// The value held.
    fn get(&self) -> (r: u8)
        ensures
            r == self@,
    ;

    /// Replaces the value held.
    fn set(&mut self, value: u8)
        ensures
            final(self)@ == value,
    ;
}

/// Program counter: the address of the next instruction.
pub struct PC {
    data: u8,
}

/// Memory data register: the last byte fetched from instruction memory.
pub struct MDR {
    data: u8,
}

/// Current instruction register: the decoded instruction under execution,
/// if any. It holds only the decoded form; there is no raw-byte view of it.
pub struct CIR {
    data: Option<Instruction>,
}

/// Accumulator: where arithmetic results are kept.
pub struct ACC {
    data: u8,
}

impl View for PC {
    type V = u8;

    closed spec fn view(&self) -> u8 {
        self.data
    }
}

impl View for MDR {
    type V = u8;

    closed spec fn view(&self) -> u8 {
        self.data
    }
}

impl View for ACC {
    type V = u8;

    closed spec fn view(&self) -> u8 {
        self.data
    }
}

impl View for CIR {
    type V = Option<Instruction>;

    closed spec fn view(&self) -> Option<Instruction> {
        self.data
    }
}

impl Register for PC {
    fn get(&self) -> (r: u8) {
        self.data
    }

    fn set(&mut self, value: u8) {
        self.data = value;
    }
}

impl Register for MDR {
    fn get(&self) -> (r: u8) {
        self.data
    }

    fn set(&mut self, value: u8) {
        self.data = value;
    }
}

impl Register for ACC {
    fn get(&self) -> (r: u8) {
        self.data
    }

    fn set(&mut self, value: u8) {
        self.data = value;
    }
}

impl PC {
    /// A program counter at address 0.
    pub fn new() -> (r: PC)
        ensures
            r@ == 0,
    {
        PC { data: 0 }
    }
}

impl MDR {
    /// A fetch latch holding 0.
    pub fn new() -> (r: MDR)
        ensures
            r@ == 0,
    {
        MDR { data: 0 }
    }
}

impl ACC {
    /// An accumulator holding 0.
    pub fn new() -> (r: ACC)
        ensures
            r@ == 0,
    {
        ACC { data: 0 }
    }
}

impl CIR {
    /// An empty instruction register.
    pub fn new() -> (r: CIR)
        ensures
            r@ == None::<Instruction>,
    {
        CIR { data: None }
    }

    /// The instruction held, if any.
    pub fn get_instruction(&self) -> (r: Option<Instruction>)
        ensures
            r == self@,
    {
        self.data
    }

    /// Decodes an opcode byte and its operand byte into the register. On an
    /// invalid opcode the register is left empty and `InvalidOpcode` returned.
    pub fn set(&mut self, opcode: u8, operand: u8) -> (r: Result<Instruction, Error>)
        ensures
            r == match decoded(opcode) {
                Ok(o) => Ok(Instruction { opcode: o, operand }),
                Err(e) => Err(e),
            },
            final(self)@ == match r {
                Ok(i) => Some(i),
                Err(_) => None::<Instruction>,
            },
    {
        match Instruction::from_byte(opcode, operand) {
            Ok(i) => {
                self.data = Some(i);
                Ok(i)
            },
            Err(e) => {
                self.data = None;
                Err(e)
            },
        }
    }
}

} // verus!
