use cpu_emulator::assembler::{assemble, assemble_bytes, parse_source, OperandType};
use cpu_emulator::error::Error;
use cpu_emulator::instructions::Opcode;

const ADDITION: &str = ".data
    A\tDAT\t4
    B\tDAT\t2

.code
    LDA A
    ADD B
    OUT
    HLT
";

#[test]
fn sample_program_assembles_to_two_images() {
    let b = assemble(ADDITION).unwrap();
    assert_eq!(b.data, vec![4, 2]);
    assert_eq!(b.code, vec![0x06, 0, 0x01, 1, 0x10, 0, 0x0E, 0]);
}

#[test]
fn records_are_read_with_their_lines() {
    let (data, code) = parse_source(ADDITION.as_bytes()).unwrap();
    assert_eq!(data.len(), 2);
    assert_eq!(data[0].label, b"A".to_vec());
    assert_eq!(data[1].value, 2);
    assert_eq!(code.len(), 4);
    assert_eq!(code[0].opcode, Opcode::LDA);
    assert!(matches!(&code[0].operand, Some(OperandType::Label(l)) if l == b"A"));
    assert_eq!(code[0].line, 6);
    assert!(code[2].operand.is_none());
    assert!(code[3].label.is_none());
}

#[test]
fn undeclared_label_fails_without_an_image() {
    let src = ".code\n    LDA NOPE\n    HLT\n";
    assert!(matches!(assemble(src), Err(Error::UndefinedLabel { line: 2 })));
}

#[test]
fn record_before_any_section_is_refused() {
    assert!(matches!(assemble("    LDA A\n.data\nA DAT 1\n"), Err(Error::MissingSection { line: 1 })));
}

#[test]
fn unknown_mnemonic_is_refused() {
    assert!(matches!(assemble(".code\n    FOO 0x01\n"), Err(Error::UnknownMnemonic { line: 2 })));
    assert!(matches!(assemble(".code\n    add 0x01\n"), Err(Error::UnknownMnemonic { line: 2 })));
    assert!(matches!(assemble(".data\nA ADD 1\n"), Err(Error::UnknownMnemonic { line: 2 })));
}

#[test]
fn bad_data_values_are_invalid_operands() {
    assert!(matches!(assemble(".data\nA DAT 256\n"), Err(Error::InvalidOperand { line: 2 })));
    assert!(matches!(assemble(".data\nA DAT x1\n"), Err(Error::InvalidOperand { line: 2 })));
    assert!(matches!(assemble(".data\nA DAT\n"), Err(Error::InvalidOperand { line: 2 })));
    assert!(matches!(assemble(".data\nA DAT -1\n"), Err(Error::InvalidOperand { line: 2 })));
    assert_eq!(assemble(".data\nA DAT 255\nB DAT 0\n").unwrap().data, vec![255, 0]);
}

#[test]
fn hexadecimal_operands_are_bytes() {
    let b = assemble(".code\n    JMP 0x1F\n    LDA 0xff\n").unwrap();
    assert_eq!(b.code, vec![0x07, 0x1F, 0x06, 0xFF]);
    assert!(matches!(assemble(".code\n    JMP 0x100\n"), Err(Error::InvalidOperand { line: 2 })));
    assert!(matches!(assemble(".code\n    JMP 0x\n"), Err(Error::InvalidOperand { line: 2 })));
    assert!(matches!(assemble(".code\n    JMP 0xZZ\n"), Err(Error::InvalidOperand { line: 2 })));
}

#[test]
fn comments_blank_lines_and_carriage_returns_are_ignored() {
    let src = "// header\r\n.data   // values\r\n\r\n  A  DAT  7 // seven\r\n.code\r\n  LDA A//load\r\n";
    let b = assemble(src).unwrap();
    assert_eq!(b.data, vec![7]);
    assert_eq!(b.code, vec![0x06, 0]);
}

#[test]
fn labels_resolve_forward_and_backward() {
    let src = ".code
        LDA X
        JMP END
        OUT
END     HLT
.data
X       DAT 9
";
    let b = assemble(src).unwrap();
    assert_eq!(b.data, vec![9]);
    assert_eq!(b.code, vec![0x06, 0, 0x07, 6, 0x10, 0, 0x0E, 0]);
    let back = assemble(".code\nTOP LDA 0x00\n    JMP TOP\n").unwrap();
    assert_eq!(back.code, vec![0x06, 0, 0x07, 0]);
}

#[test]
fn too_many_tokens_is_an_invalid_operand() {
    assert!(matches!(assemble(".code\nL LDA A B\n"), Err(Error::InvalidOperand { line: 2 })));
}

#[test]
fn data_labels_win_over_code_labels() {
    let src = ".code\nL OUT\n  LDA L\n.data\nZ DAT 3\nL DAT 5\n";
    let b = assemble(src).unwrap();
    assert_eq!(b.code, vec![0x10, 0, 0x06, 1]);
}

#[test]
fn too_many_data_records_are_refused() {
    let mut src = String::from(".data\n");
    for i in 0..257 {
        src.push_str(&format!("V{} DAT 1\n", i));
    }
    assert!(matches!(assemble(&src), Err(Error::InvalidOperand { line: 258 })));
}

#[test]
fn empty_source_gives_empty_images() {
    let b = assemble_bytes(b"").unwrap();
    assert!(b.data.is_empty());
    assert!(b.code.is_empty());
}
