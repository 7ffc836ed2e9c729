//! The instruction set: opcodes, their byte encoding and mnemonics, and
//! two-byte instructions (one opcode byte followed by one operand byte).
use vstd::prelude::*;

use crate::error::Error;
use crate::text::same_bytes;
use vstd::string::StringSliceAdditionalSpecFns;

verus! {

/// The seventeen operations of the machine.
#[allow(clippy::upper_case_acronyms)]
#[derive(Clone, Copy, Debug, PartialEq, Eq, Structural)]
pub enum Opcode {
    ADD,
    SUB,
    MUL,
    DIV,
    STA,
    LDA,
    JMP,
    JEQ,
    JNE,
    JGT,
    JLT,
    JZ,
    JNZ,
    HLT,
    INP,
    OUT,
    DAT,
}

/// An opcode together with its single operand byte.
#[derive(Clone, Copy, Debug, PartialEq, Eq, Structural)]
pub struct Instruction {
    pub opcode: Opcode,
    /// A data address, a jump target, or an immediate value, by opcode.
    pub operand: u8,
}

/// The byte that encodes each opcode: `ADD` is 0x01 and so on, in declaration
/// order, up to `DAT` at 0x11.
pub open spec fn encoding(o: Opcode) -> u8 {
    match o {
        Opcode::ADD => 0x01,
        Opcode::SUB => 0x02,
        Opcode::MUL => 0x03,
        Opcode::DIV => 0x04,
        Opcode::STA => 0x05,
        Opcode::LDA => 0x06,
        Opcode::JMP => 0x07,
        Opcode::JEQ => 0x08,
        Opcode::JNE => 0x09,
        Opcode::JGT => 0x0A,
        Opcode::JLT => 0x0B,
        Opcode::JZ => 0x0C,
        Opcode::JNZ => 0x0D,
        Opcode::HLT => 0x0E,
        Opcode::INP => 0x0F,
        Opcode::OUT => 0x10,
        Opcode::DAT => 0x11,
    }
}

/// The opcode that a byte encodes, if any: the inverse of `encoding`.
pub open spec fn opcode_of(b: u8) -> Option<Opcode> {
    match b {
        0x01 => Some(Opcode::ADD),
        0x02 => Some(Opcode::SUB),
        0x03 => Some(Opcode::MUL),
        0x04 => Some(Opcode::DIV),
        0x05 => Some(Opcode::STA),
        0x06 => Some(Opcode::LDA),
        0x07 => Some(Opcode::JMP),
        0x08 => Some(Opcode::JEQ),
        0x09 => Some(Opcode::JNE),
        0x0A => Some(Opcode::JGT),
        0x0B => Some(Opcode::JLT),
        0x0C => Some(Opcode::JZ),
        0x0D => Some(Opcode::JNZ),
        0x0E => Some(Opcode::HLT),
        0x0F => Some(Opcode::INP),
        0x10 => Some(Opcode::OUT),
        0x11 => Some(Opcode::DAT),
        _ => None,
    }
}

/// What decoding a byte yields: its opcode, or `InvalidOpcode` for a byte
/// that encodes none.
pub open spec fn decoded(b: u8) -> Result<Opcode, Error> {
    match opcode_of(b) {
        Some(o) => Ok(o),
        None => Err(Error::InvalidOpcode(b)),
    }
}

/// The ASCII text of each opcode's mnemonic, upper case.
pub open spec fn mnemonic(o: Opcode) -> Seq<u8> {
    match o {
        Opcode::ADD => seq!['A' as u8, 'D' as u8, 'D' as u8],
        Opcode::SUB => seq!['S' as u8, 'U' as u8, 'B' as u8],
        Opcode::MUL => seq!['M' as u8, 'U' as u8, 'L' as u8],
        Opcode::DIV => seq!['D' as u8, 'I' as u8, 'V' as u8],
        Opcode::STA => seq!['S' as u8, 'T' as u8, 'A' as u8],
        Opcode::LDA => seq!['L' as u8, 'D' as u8, 'A' as u8],
        Opcode::JMP => seq!['J' as u8, 'M' as u8, 'P' as u8],
        Opcode::JEQ => seq!['J' as u8, 'E' as u8, 'Q' as u8],
        Opcode::JNE => seq!['J' as u8, 'N' as u8, 'E' as u8],
        Opcode::JGT => seq!['J' as u8, 'G' as u8, 'T' as u8],
        Opcode::JLT => seq!['J' as u8, 'L' as u8, 'T' as u8],
        Opcode::JZ => seq!['J' as u8, 'Z' as u8],
        Opcode::JNZ => seq!['J' as u8, 'N' as u8, 'Z' as u8],
        Opcode::HLT => seq!['H' as u8, 'L' as u8, 'T' as u8],
        Opcode::INP => seq!['I' as u8, 'N' as u8, 'P' as u8],
        Opcode::OUT => seq!['O' as u8, 'U' as u8, 'T' as u8],
        Opcode::DAT => seq!['D' as u8, 'A' as u8, 'T' as u8],
    }
}

/// The opcode whose mnemonic is exactly `text`, if any.
pub open spec fn opcode_named(text: Seq<u8>) -> Option<Opcode> {
    if exists|o: Opcode| mnemonic(o) == text {
        Some(choose|o: Opcode| mnemonic(o) == text)
    } else {
        None
    }
}

/// The two bytes that an instruction occupies in a code image.
pub open spec fn instruction_bytes(i: Instruction) -> Seq<u8> {
    seq![encoding(i.opcode), i.operand]
}

/// No two opcodes share a mnemonic.
pub proof fn lemma_mnemonic_injective(a: Opcode, b: Opcode)
    ensures
        mnemonic(a) == mnemonic(b) ==> a == b,
{
    if mnemonic(a) == mnemonic(b) {
        assert(mnemonic(a).len() == mnemonic(b).len());
        assert(mnemonic(a)[0] == mnemonic(b)[0]);
        assert(mnemonic(a)[1] == mnemonic(b)[1]);
        if mnemonic(a).len() == 3 {
            assert(mnemonic(a)[2] == mnemonic(b)[2]);
        }
    }
}

/// Decoding undoes encoding: every opcode comes back from its own byte, a
/// byte that decodes at all decodes to the opcode that encodes it, and the
/// bytes that decode are exactly 0x01 to 0x11.
pub proof fn lemma_decode_encode(o: Opcode, b: u8)
    ensures
        decoded(encoding(o)) == Ok::<Opcode, Error>(o),
        decoded(b) == Ok::<Opcode, Error>(o) ==> encoding(o) == b,
        decoded(b) is Ok <==> 0x01 <= b <= 0x11,
{
}

impl Opcode {
    /// Decodes an opcode byte; any byte outside 0x01..=0x11 is `InvalidOpcode`.
    pub fn from_byte(byte: u8) -> (r: Result<Opcode, Error>)
        ensures
            r == decoded(byte),
    {
        let r = match byte {
            0x01 => Ok(Opcode::ADD),
            0x02 => Ok(Opcode::SUB),
            0x03 => Ok(Opcode::MUL),
            0x04 => Ok(Opcode::DIV),
            0x05 => Ok(Opcode::STA),
            0x06 => Ok(Opcode::LDA),
            0x07 => Ok(Opcode::JMP),
            0x08 => Ok(Opcode::JEQ),
            0x09 => Ok(Opcode::JNE),
            0x0A => Ok(Opcode::JGT),
            0x0B => Ok(Opcode::JLT),
            0x0C => Ok(Opcode::JZ),
            0x0D => Ok(Opcode::JNZ),
            0x0E => Ok(Opcode::HLT),
            0x0F => Ok(Opcode::INP),
            0x10 => Ok(Opcode::OUT),
            0x11 => Ok(Opcode::DAT),
            _ => Err(Error::InvalidOpcode(byte)),
        };
        r
    }

    /// The byte that encodes this opcode.
    pub fn to_bin(&self) -> (r: u8)
        ensures
            r == encoding(*self),
    {
        match self {
            Opcode::ADD => 0x01,
            Opcode::SUB => 0x02,
            Opcode::MUL => 0x03,
            Opcode::DIV => 0x04,
            Opcode::STA => 0x05,
            Opcode::LDA => 0x06,
            Opcode::JMP => 0x07,
            Opcode::JEQ => 0x08,
            Opcode::JNE => 0x09,
            Opcode::JGT => 0x0A,
            Opcode::JLT => 0x0B,
            Opcode::JZ => 0x0C,
            Opcode::JNZ => 0x0D,
            Opcode::HLT => 0x0E,
            Opcode::INP => 0x0F,
            Opcode::OUT => 0x10,
            Opcode::DAT => 0x11,
        }
    }


    /// The mnemonic of this opcode, as ASCII bytes.
    pub fn mnemonic(&self) -> (r: Vec<u8>)
        ensures
            r@ == mnemonic(*self),
    {
        let r = match self {
            Opcode::ADD => vec!['A' as u8, 'D' as u8, 'D' as u8],
            Opcode::SUB => vec!['S' as u8, 'U' as u8, 'B' as u8],
            Opcode::MUL => vec!['M' as u8, 'U' as u8, 'L' as u8],
            Opcode::DIV => vec!['D' as u8, 'I' as u8, 'V' as u8],
            Opcode::STA => vec!['S' as u8, 'T' as u8, 'A' as u8],
            Opcode::LDA => vec!['L' as u8, 'D' as u8, 'A' as u8],
            Opcode::JMP => vec!['J' as u8, 'M' as u8, 'P' as u8],
            Opcode::JEQ => vec!['J' as u8, 'E' as u8, 'Q' as u8],
            Opcode::JNE => vec!['J' as u8, 'N' as u8, 'E' as u8],
            Opcode::JGT => vec!['J' as u8, 'G' as u8, 'T' as u8],
            Opcode::JLT => vec!['J' as u8, 'L' as u8, 'T' as u8],
            Opcode::JZ => vec!['J' as u8, 'Z' as u8],
            Opcode::JNZ => vec!['J' as u8, 'N' as u8, 'Z' as u8],
            Opcode::HLT => vec!['H' as u8, 'L' as u8, 'T' as u8],
            Opcode::INP => vec!['I' as u8, 'N' as u8, 'P' as u8],
            Opcode::OUT => vec!['O' as u8, 'U' as u8, 'T' as u8],
            Opcode::DAT => vec!['D' as u8, 'A' as u8, 'T' as u8],
        };
        assert(r@ =~= mnemonic(*self));
        r
    }

    /// Parses a mnemonic given as ASCII bytes: an exact, case-sensitive match
    /// against the seventeen mnemonics. `None` when it names no opcode.
    pub fn from_mnemonic(text: &[u8]) -> (r: Option<Opcode>)
        ensures
            r == opcode_named(text@),
    {
        let mut b: u8 = 0x01;
        while b <= 0x11
            invariant
                0x01 <= b <= 0x12,
                forall|c: u8| 0x01 <= c < b ==> mnemonic(#[trigger] opcode_of(c)->Some_0) != text@,
            decreases 0x12 - b,
        {
            let o = match Opcode::from_byte(b) {
                Ok(o) => o,
                Err(_) => {
                    return None;
                },
            };
            let m = o.mnemonic();
            if same_bytes(m.as_slice(), text) {
                proof {
                    lemma_opcode_named(o, text@);
                }
                return Some(o);
            }
            b = b + 1;
        }
        proof {
            if exists|o: Opcode| mnemonic(o) == text@ {
                let o = choose|o: Opcode| mnemonic(o) == text@;
                assert(opcode_of(encoding(o)) == Some(o));
                assert(mnemonic(opcode_of(encoding(o))->Some_0) != text@);
            }
        }
        None
    }

    /// Parses a mnemonic: an exact, case-sensitive match against the
    /// seventeen mnemonics; any other text is `UnknownMnemonic`, reported
    /// against the given source line.
    pub fn from_str(string: &str, line: usize) -> (r: Result<Opcode, Error>)
        ensures
            r == match opcode_named(string.spec_bytes()) {
                Some(o) => Ok(o),
                None => Err(Error::UnknownMnemonic { line }),
            },
    {
        match Opcode::from_mnemonic(string.as_bytes()) {
            Some(o) => Ok(o),
            None => Err(Error::UnknownMnemonic { line }),
        }
    }
}

/// A mnemonic names its own opcode.
pub proof fn lemma_opcode_named(o: Opcode, text: Seq<u8>)
    requires
        mnemonic(o) == text,
    ensures
        opcode_named(text) == Some(o),
{
    let c = choose|p: Opcode| mnemonic(p) == text;
    lemma_mnemonic_injective(c, o);
}

impl Instruction {
    /// An instruction from its parts.
    pub fn new(opcode: Opcode, operand: u8) -> (r: Instruction)
        ensures
            r == (Instruction { opcode, operand }),
    {
        Instruction { opcode, operand }
    }

    /// Decodes an instruction from its opcode byte and its operand byte.
    pub fn from_byte(opcode: u8, operand: u8) -> (r: Result<Instruction, Error>)
        ensures
            r == match decoded(opcode) {
                Ok(o) => Ok(Instruction { opcode: o, operand }),
                Err(e) => Err(e),
            },
    {
        match Opcode::from_byte(opcode) {
            Ok(o) => Ok(Instruction::new(o, operand)),
            Err(e) => Err(e),
        }
    }

    /// The two bytes of this instruction: its opcode byte, then its operand.
    pub fn to_bin(&self) -> (r: Vec<u8>)
        ensures
            r@ == instruction_bytes(*self),
    {
        let mut bin: Vec<u8> = Vec::new();
        bin.push(self.opcode.to_bin());
        bin.push(self.operand);
        assert(bin@ =~= instruction_bytes(*self));
        bin
    }
}

} // verus!
