use cpu_emulator::assembler::assemble;
use cpu_emulator::cpu::{Effect, Stop, CPU};
use cpu_emulator::error::Error;
use cpu_emulator::instructions::{Instruction, Opcode};

fn machine(src: &str) -> CPU {
    let b = assemble(src).unwrap();
    let mut cpu = CPU::new(256, 256);
    cpu.load_data(b.data).unwrap();
    cpu.load_program(b.code).unwrap();
    cpu
}

fn code(pairs: &[(Opcode, u8)]) -> Vec<u8> {
    pairs.iter().flat_map(|(o, a)| Instruction::new(*o, *a).to_bin()).collect()
}

#[test]
fn addition_program_outputs_six_once() {
    let mut cpu = machine(".data\n  A DAT 4\n  B DAT 2\n.code\n  LDA A\n  ADD B\n  OUT\n  HLT\n");
    let out = cpu.run(&vec![], 100);
    assert_eq!(out.end, Ok(Stop::Halted));
    assert_eq!(out.output, vec![6]);
    assert_eq!(out.cycles, 4);
    assert_eq!(cpu.accumulator(), 6);
    assert!(!cpu.is_running());
}

#[test]
fn division_by_zero_faults_and_keeps_the_accumulator() {
    let mut cpu = CPU::new(4, 16);
    cpu.load_data(vec![9, 0]).unwrap();
    cpu.load_program(code(&[(Opcode::LDA, 0), (Opcode::DIV, 1), (Opcode::HLT, 0)])).unwrap();
    let out = cpu.run(&vec![], 10);
    assert_eq!(out.end, Err(Error::DivisionByZero(1)));
    assert_eq!(out.cycles, 2);
    assert_eq!(cpu.accumulator(), 9);
    assert!(!cpu.is_running());
}

#[test]
fn halt_alone_stops_after_one_cycle() {
    let mut cpu = CPU::new(8, 8);
    cpu.load_program(code(&[(Opcode::HLT, 0)])).unwrap();
    let out = cpu.run(&vec![], 10);
    assert_eq!(out.end, Ok(Stop::Halted));
    assert_eq!(out.cycles, 1);
    assert!(out.output.is_empty());
    assert_eq!(cpu.accumulator(), 0);
    assert_eq!(cpu.pc(), 2);
    assert_eq!(cpu.data_memory.data, vec![0; 8]);
}

#[test]
fn forward_jump_halts_at_the_later_label() {
    let mut cpu = machine(".code\n  LDA X\n  JMP END\n  OUT\nEND HLT\n.data\nX DAT 9\n");
    let out = cpu.run(&vec![], 100);
    assert_eq!(out.end, Ok(Stop::Halted));
    assert!(out.output.is_empty());
    assert_eq!(out.cycles, 3);
    assert_eq!(cpu.accumulator(), 9);
    assert_eq!(cpu.instruction(), Some(Instruction::new(Opcode::HLT, 0)));
    assert_eq!(cpu.pc(), 8);
}

#[test]
fn arithmetic_wraps_modulo_256() {
    let mut cpu = CPU::new(8, 32);
    cpu.load_data(vec![200, 100, 4, 7]).unwrap();
    cpu.load_program(code(&[
        (Opcode::LDA, 0),
        (Opcode::ADD, 1),
        (Opcode::OUT, 0),
        (Opcode::SUB, 1),
        (Opcode::SUB, 1),
        (Opcode::OUT, 0),
        (Opcode::MUL, 2),
        (Opcode::OUT, 0),
        (Opcode::DIV, 3),
        (Opcode::OUT, 0),
        (Opcode::HLT, 0),
    ]))
    .unwrap();
    let out = cpu.run(&vec![], 100);
    assert_eq!(out.end, Ok(Stop::Halted));
    assert_eq!(out.output, vec![44, 100, 144, 20]);
}

#[test]
fn store_and_dat_write_data_memory() {
    let mut cpu = CPU::new(8, 16);
    cpu.load_data(vec![5]).unwrap();
    cpu.load_program(code(&[(Opcode::LDA, 0), (Opcode::STA, 3), (Opcode::DAT, 6), (Opcode::HLT, 0)])).unwrap();
    cpu.run(&vec![], 10);
    assert_eq!(cpu.data_memory.data, vec![5, 0, 0, 5, 0, 0, 6, 0]);
}

#[test]
fn conditional_jumps_read_the_accumulator_as_signed() {
    let src = ".code\n  LDA NEG\n  JLT L1\n  HLT\nL1 LDA POS\n  JGT L2\n  HLT\nL2 LDA ZERO\n  JEQ L3\n  HLT\nL3 JNZ L3\n  OUT\n  HLT\n.data\nNEG DAT 200\nPOS DAT 100\nZERO DAT 0\n";
    let mut cpu = machine(src);
    let out = cpu.run(&vec![], 100);
    assert_eq!(out.end, Ok(Stop::Halted));
    assert_eq!(out.output, vec![0]);
    let mut neg = machine(".code\n  LDA N\n  JGT X\n  OUT\nX HLT\n.data\nN DAT 200\n");
    assert_eq!(neg.run(&vec![], 100).output, vec![200]);
}

#[test]
fn input_is_taken_in_order() {
    let mut cpu = machine(".code\n  INP\n  STA S\n  INP\n  ADD S\n  OUT\n  HLT\n.data\nS DAT 0\n");
    let out = cpu.run(&vec![3, 4], 100);
    assert_eq!(out.end, Ok(Stop::Halted));
    assert_eq!(out.output, vec![7]);
}

#[test]
fn missing_input_stops_the_run() {
    let mut cpu = machine(".code\n  INP\n  OUT\n  HLT\n");
    let out = cpu.run(&vec![], 100);
    assert_eq!(out.end, Ok(Stop::NeedsInput));
    assert_eq!(out.cycles, 0);
    assert!(cpu.is_running());
    assert!(cpu.awaits_input());
    assert_eq!(cpu.cycle(None), Ok(Effect::AwaitingInput));
    assert_eq!(cpu.pc(), 0);
    assert_eq!(cpu.cycle(Some(42)), Ok(Effect::Input));
    assert_eq!(cpu.cycle(None), Ok(Effect::Output(42)));
    assert_eq!(cpu.cycle(None), Ok(Effect::Halt));
}

#[test]
fn cycle_budget_bounds_a_loop() {
    let mut cpu = machine(".code\nTOP JMP TOP\n");
    let out = cpu.run(&vec![], 50);
    assert_eq!(out.end, Ok(Stop::OutOfCycles));
    assert_eq!(out.cycles, 50);
    assert!(cpu.is_running());
}

#[test]
fn invalid_opcode_faults() {
    let mut cpu = CPU::new(4, 4);
    cpu.load_program(vec![0x00, 0x00]).unwrap();
    let out = cpu.run(&vec![], 10);
    assert_eq!(out.end, Err(Error::InvalidOpcode(0x00)));
    assert_eq!(cpu.instruction(), None);
    assert_eq!(cpu.mdr(), 0x00);
}

#[test]
fn running_off_instruction_memory_is_out_of_bounds() {
    let mut cpu = CPU::new(4, 4);
    cpu.load_program(code(&[(Opcode::LDA, 0), (Opcode::OUT, 0)])).unwrap();
    let out = cpu.run(&vec![], 10);
    assert_eq!(out.end, Err(Error::OutOfBounds(4)));
    assert_eq!(out.output, vec![0]);
}

#[test]
fn data_address_past_the_end_is_out_of_bounds() {
    let mut cpu = CPU::new(2, 8);
    cpu.load_program(code(&[(Opcode::LDA, 2)])).unwrap();
    assert_eq!(cpu.run(&vec![], 10).end, Err(Error::OutOfBounds(2)));
}

#[test]
fn oversized_images_are_refused() {
    let mut cpu = CPU::new(1, 2);
    assert_eq!(cpu.load_program(vec![1, 2, 3]), Err(Error::OutOfBounds(2)));
    assert_eq!(cpu.load_data(vec![1, 2]), Err(Error::OutOfBounds(1)));
    assert_eq!(cpu.instruction_memory.data, vec![0, 0]);
}

#[test]
fn new_cpu_is_stopped_and_zeroed() {
    let mut cpu = CPU::new(2, 2);
    assert!(!cpu.is_running());
    assert_eq!((cpu.pc(), cpu.mdr(), cpu.accumulator()), (0, 0, 0));
    assert_eq!(cpu.instruction(), None);
    cpu.start();
    assert!(cpu.is_running());
}
