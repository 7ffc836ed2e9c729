use cpu_emulator::error::Error;
use cpu_emulator::instructions::{Instruction, Opcode};
use cpu_emulator::registers::{Register, ACC, CIR, MDR, PC};

#[test]
fn byte_registers_start_at_zero_and_hold_what_is_set() {
    let mut pc = PC::new();
    let mut mdr = MDR::new();
    let mut acc = ACC::new();
    assert_eq!((pc.get(), mdr.get(), acc.get()), (0, 0, 0));
    pc.set(10);
    mdr.set(0x0E);
    acc.set(255);
    assert_eq!((pc.get(), mdr.get(), acc.get()), (10, 0x0E, 255));
}

#[test]
fn instruction_register_decodes() {
    let mut cir = CIR::new();
    assert_eq!(cir.get_instruction(), None);
    assert_eq!(cir.set(0x01, 5), Ok(Instruction::new(Opcode::ADD, 5)));
    assert_eq!(cir.get_instruction(), Some(Instruction::new(Opcode::ADD, 5)));
    assert_eq!(cir.set(0x40, 5), Err(Error::InvalidOpcode(0x40)));
    assert_eq!(cir.get_instruction(), None);
}
