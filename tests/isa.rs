use cpu_emulator::error::Error;
use cpu_emulator::instructions::{Instruction, Opcode};

const ALL: [Opcode; 17] = [
    Opcode::ADD,
    Opcode::SUB,
    Opcode::MUL,
    Opcode::DIV,
    Opcode::STA,
    Opcode::LDA,
    Opcode::JMP,
    Opcode::JEQ,
    Opcode::JNE,
    Opcode::JGT,
    Opcode::JLT,
    Opcode::JZ,
    Opcode::JNZ,
    Opcode::HLT,
    Opcode::INP,
    Opcode::OUT,
    Opcode::DAT,
];

#[test]
fn every_opcode_round_trips_through_its_byte() {
    for o in ALL {
        assert_eq!(Opcode::from_byte(o.to_bin()), Ok(o));
    }
}

#[test]
fn opcode_bytes_run_from_one_to_seventeen() {
    for (i, o) in ALL.iter().enumerate() {
        assert_eq!(o.to_bin() as usize, i + 1);
    }
    assert_eq!(Opcode::ADD.to_bin(), 0x01);
    assert_eq!(Opcode::HLT.to_bin(), 0x0E);
    assert_eq!(Opcode::DAT.to_bin(), 0x11);
}

#[test]
fn bytes_outside_the_table_are_invalid_opcodes() {
    assert_eq!(Opcode::from_byte(0x00), Err(Error::InvalidOpcode(0x00)));
    assert_eq!(Opcode::from_byte(0x12), Err(Error::InvalidOpcode(0x12)));
    assert_eq!(Opcode::from_byte(0xFF), Err(Error::InvalidOpcode(0xFF)));
}

#[test]
fn mnemonics_parse_exactly() {
    assert_eq!(Opcode::from_str("ADD", 1), Ok(Opcode::ADD));
    assert_eq!(Opcode::from_str("JZ", 1), Ok(Opcode::JZ));
    assert_eq!(Opcode::from_str("DAT", 1), Ok(Opcode::DAT));
    for o in ALL {
        assert_eq!(Opcode::from_mnemonic(&o.mnemonic()), Some(o));
    }
}

#[test]
fn mnemonics_are_case_sensitive() {
    assert_eq!(Opcode::from_str("add", 4), Err(Error::UnknownMnemonic { line: 4 }));
    assert_eq!(Opcode::from_str("ADDX", 2), Err(Error::UnknownMnemonic { line: 2 }));
    assert_eq!(Opcode::from_str("", 3), Err(Error::UnknownMnemonic { line: 3 }));
}

#[test]
fn instruction_encodes_as_two_bytes() {
    let i = Instruction::new(Opcode::LDA, 0x2A);
    assert_eq!(i.to_bin(), vec![0x06, 0x2A]);
    assert_eq!(Instruction::from_byte(0x06, 0x2A), Ok(i));
    assert_eq!(Instruction::from_byte(0x00, 0x2A), Err(Error::InvalidOpcode(0x00)));
}
