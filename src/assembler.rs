//! The assembler: source text in two sections to a binary image.
//!
//! ```text
//! .data
//!     A   DAT 4
//!     B   DAT 2
//! .code
//!         LDA A
//!         ADD B
//!         OUT
//!         HLT
//! ```
//!
//! Each line loses what follows `//` and splits into tokens at spaces, tabs
//! and carriage returns;
//! lines without tokens are skipped. A line whose first token is `.data` or
//! `.code` switches the current section; any other line is a record of the
//! current section. A data record is `LABEL DAT VALUE` with a decimal value
//! from 0 to 255. A code record is `[LABEL] MNEMONIC [OPERAND]`, where an
//! operand written `0x..` is a hexadecimal byte and any other operand names a
//! label; with two tokens the first is the mnemonic when it is one, and a
//! label otherwise.
//!
//! Data and code go to separate memories, so assembly yields two images. The
//! data image holds one byte per data record, in order; the code image two
//! bytes per code record, its opcode then its operand (0 when it has none).
//! A label stands for the address of the record that declares it: the index
//! of a data record, or twice the index of a code record. Labels are resolved
//! once every record is read, so a label may be used before its declaration.
//! Where a label is declared more than once, the first data declaration wins,
//! then the first code declaration. Both images fit the 8-bit address space:
//! at most 256 data records and 128 code records.
use vstd::prelude::*;

use crate::error::Error;
use crate::instructions::{encoding, opcode_named, Opcode};
use crate::text::{
    clean_source, copy_range, find_line_end, line_end, line_tokens, numeral_byte, parse_numeral,
    same_bytes, views,
};
use vstd::string::StringSliceAdditionalSpecFns;

verus! {

/// The most data records an image can hold.
pub const MAX_DATA: usize = 256;

/// The most code records an image can hold.
pub const MAX_CODE: usize = 128;

/// The section that records currently belong to.
#[derive(Clone, Copy, Debug, PartialEq, Eq, Structural)]
pub enum Section {
    /// No section directive has been read yet.
    Unset,
    /// After `.data`.
    Data,
    /// After `.code`.
    Code,
}

/// A data record: `LABEL DAT VALUE`.
#[derive(Debug)]
pub struct DataLine {
    pub label: Vec<u8>,
    pub value: u8,
}

/// The operand of a code record as written: a label or a byte.
#[derive(Debug)]
pub enum OperandType {
    Label(Vec<u8>),
    Value(u8),
}

/// A code record: `[LABEL] MNEMONIC [OPERAND]`, with the number of the source
/// line it came from.
#[derive(Debug)]
pub struct CodeLine {
    pub label: Option<Vec<u8>>,
    pub opcode: Opcode,
    pub operand: Option<OperandType>,
    pub line: usize,
}

/// The two images that assembly yields: one for data memory and one for
/// instruction memory, each to be loaded at address 0.
#[derive(Debug)]
pub struct Binary {
    pub data: Vec<u8>,
    pub code: Vec<u8>,
}

/// A data record, as values.
pub struct DataRec {
    pub label: Seq<u8>,
    pub value: u8,
}

/// An operand, as values.
pub enum OperandRef {
    Label(Seq<u8>),
    Value(u8),
}

/// A code record, as values.
pub struct CodeRec {
    pub label: Option<Seq<u8>>,
    pub opcode: Opcode,
    pub operand: Option<OperandRef>,
    pub line: usize,
}

/// What reading a prefix of the source has produced.
pub struct Parsed {
    pub section: Section,
    pub data: Seq<DataRec>,
    pub code: Seq<CodeRec>,
}

impl View for DataLine {
    type V = DataRec;

    open spec fn view(&self) -> DataRec {
        DataRec { label: self.label@, value: self.value }
    }
}

impl View for OperandType {
    type V = OperandRef;

    open spec fn view(&self) -> OperandRef {
        match self {
            OperandType::Label(l) => OperandRef::Label(l@),
            OperandType::Value(v) => OperandRef::Value(*v),
        }
    }
}

impl View for CodeLine {
    type V = CodeRec;

    open spec fn view(&self) -> CodeRec {
        CodeRec {
            label: match self.label {
                Some(l) => Some(l@),
                None => None,
            },
            opcode: self.opcode,
            operand: match self.operand {
                Some(o) => Some(o@),
                None => None,
            },
            line: self.line,
        }
    }
}

impl View for Binary {
    type V = (Seq<u8>, Seq<u8>);

    open spec fn view(&self) -> (Seq<u8>, Seq<u8>) {
        (self.data@, self.code@)
    }
}

/// The views of a sequence of data records.
pub open spec fn data_views(v: Seq<DataLine>) -> Seq<DataRec> {
    v.map_values(|d: DataLine| d@)
}

/// The views of a sequence of code records.
pub open spec fn code_views(v: Seq<CodeLine>) -> Seq<CodeRec> {
    v.map_values(|c: CodeLine| c@)
}

/// The directive `.data`.
pub open spec fn dot_data() -> Seq<u8> {
    seq!['.' as u8, 'd' as u8, 'a' as u8, 't' as u8, 'a' as u8]
}

/// The directive `.code`.
pub open spec fn dot_code() -> Seq<u8> {
    seq!['.' as u8, 'c' as u8, 'o' as u8, 'd' as u8, 'e' as u8]
}

/// The prefix `0x` of a hexadecimal operand.
pub open spec fn hex_prefix() -> Seq<u8> {
    seq!['0' as u8, 'x' as u8]
}

/// An operand token: `0x` and one or more hexadecimal digits worth at most
/// 255 is a byte, any other `0x..` is `InvalidOperand`, and anything else
/// names a label.
pub open spec fn operand_of(t: Seq<u8>, line: usize) -> Result<OperandRef, Error> {
    if t.len() >= 2 && t.take(2) == hex_prefix() {
        match numeral_byte(t.skip(2), 16) {
            Some(v) => Ok(OperandRef::Value(v)),
            None => Err(Error::InvalidOperand { line }),
        }
    } else {
        Ok(OperandRef::Label(t))
    }
}

/// The tokens of a data record: exactly three, the second `DAT`
/// (`UnknownMnemonic` otherwise), the third a decimal byte
/// (`InvalidOperand` otherwise, as for any other number of tokens).
pub open spec fn data_record(t: Seq<Seq<u8>>, line: usize) -> Result<DataRec, Error> {
    if t.len() != 3 {
        Err(Error::InvalidOperand { line })
    } else if opcode_named(t[1]) != Some(Opcode::DAT) {
        Err(Error::UnknownMnemonic { line })
    } else {
        match numeral_byte(t[2], 10) {
            Some(v) => Ok(DataRec { label: t[0], value: v }),
            None => Err(Error::InvalidOperand { line }),
        }
    }
}

/// Whether the tokens of a code record start with a label: three tokens, or
/// two whose first is not a mnemonic.
pub open spec fn labelled(t: Seq<Seq<u8>>) -> bool {
    t.len() == 3 || (t.len() == 2 && opcode_named(t[0]) is None)
}

/// The tokens of a code record: one to three, read as the module
/// documentation says.
pub open spec fn code_record(t: Seq<Seq<u8>>, line: usize) -> Result<CodeRec, Error> {
    if t.len() == 0 || t.len() > 3 {
        Err(Error::InvalidOperand { line })
    } else {
        let label = if labelled(t) {
            Some(t[0])
        } else {
            None
        };
        let m = if labelled(t) {
            t[1]
        } else {
            t[0]
        };
        match opcode_named(m) {
            None => Err(Error::UnknownMnemonic { line }),
            Some(o) => if t.len() == 1 || (t.len() == 2 && labelled(t)) {
                Ok(CodeRec { label, opcode: o, operand: None, line })
            } else {
                match operand_of(t.last(), line) {
                    Ok(x) => Ok(CodeRec { label, opcode: o, operand: Some(x), line }),
                    Err(e) => Err(e),
                }
            },
        }
    }
}

/// One line's tokens applied to what has been read so far.
pub open spec fn record(p: Parsed, t: Seq<Seq<u8>>, line: usize) -> Result<Parsed, Error> {
    if t.len() == 0 {
        Ok(p)
    } else if t[0] == dot_data() {
        Ok(Parsed { section: Section::Data, ..p })
    } else if t[0] == dot_code() {
        Ok(Parsed { section: Section::Code, ..p })
    } else {
        match p.section {
            Section::Unset => Err(Error::MissingSection { line }),
            Section::Data => match data_record(t, line) {
                Err(e) => Err(e),
                Ok(d) => if p.data.len() >= MAX_DATA {
                    Err(Error::InvalidOperand { line })
                } else {
                    Ok(Parsed { data: p.data.push(d), ..p })
                },
            },
            Section::Code => match code_record(t, line) {
                Err(e) => Err(e),
                Ok(c) => if p.code.len() >= MAX_CODE {
                    Err(Error::InvalidOperand { line })
                } else {
                    Ok(Parsed { code: p.code.push(c), ..p })
                },
            },
        }
    }
}

/// The lines of `s` from index `from` on, the first of them line `k + 1`,
/// applied in order to `p`; the first failing line gives the error.
pub open spec fn parse_from(s: Seq<u8>, from: int, k: nat, p: Parsed) -> Result<Parsed, Error>
    decreases s.len() - from,
    when 0 <= from <= s.len()
    via parse_from_decreases
{
    let e = line_end(s, from);
    match record(p, line_tokens(s.subrange(from, e)), (k + 1) as usize) {
        Err(err) => Err(err),
        Ok(q) => if e >= s.len() {
            Ok(q)
        } else {
            parse_from(s, e + 1, k + 1, q)
        },
    }
}

#[via_fn]
proof fn parse_from_decreases(s: Seq<u8>, from: int, k: nat, p: Parsed) {
    lemma_line_end_bounds(s, from);
}

/// A line ends at or after its start, and within the text.
pub proof fn lemma_line_end_bounds(s: Seq<u8>, from: int)
    requires
        0 <= from <= s.len(),
    ensures
        from <= line_end(s, from) <= s.len(),
    decreases s.len() - from,
{
    if from < s.len() && s[from] != crate::text::NEWLINE {
        lemma_line_end_bounds(s, from + 1);
    }
}

/// Nothing read yet.
pub open spec fn empty_parse() -> Parsed {
    Parsed { section: Section::Unset, data: seq![], code: seq![] }
}

/// The records of a whole source text.
pub open spec fn parsed(s: Seq<u8>) -> Result<Parsed, Error> {
    parse_from(s, 0, 0, empty_parse())
}

/// The index of the first data record from `i` on that declares `name`.
pub open spec fn first_data(d: Seq<DataRec>, name: Seq<u8>, i: int) -> Option<nat>
    decreases d.len() - i,
{
    if i < 0 || i >= d.len() {
        None
    } else if d[i].label == name {
        Some(i as nat)
    } else {
        first_data(d, name, i + 1)
    }
}

/// The index of the first code record from `j` on that declares `name`.
pub open spec fn first_code(c: Seq<CodeRec>, name: Seq<u8>, j: int) -> Option<nat>
    decreases c.len() - j,
{
    if j < 0 || j >= c.len() {
        None
    } else if c[j].label == Some(name) {
        Some(j as nat)
    } else {
        first_code(c, name, j + 1)
    }
}

/// The address that a label stands for: the index of the first data record
/// that declares it, else twice the index of the first code record that does.
pub open spec fn address_of(p: Parsed, name: Seq<u8>) -> Option<nat> {
    address_in(p.data, p.code, name)
}

/// The address of a label among the given data and code records.
pub open spec fn address_in(d: Seq<DataRec>, c: Seq<CodeRec>, name: Seq<u8>) -> Option<nat> {
    match first_data(d, name, 0) {
        Some(i) => Some(i),
        None => match first_code(c, name, 0) {
            Some(j) => Some(2 * j),
            None => None,
        },
    }
}

/// The operand byte of a code record: 0 when it has none, its value, or the
/// address of its label (`UndefinedLabel` when no record declares it).
pub open spec fn operand_byte(p: Parsed, c: CodeRec) -> Result<u8, Error> {
    match c.operand {
        None => Ok(0),
        Some(OperandRef::Value(v)) => Ok(v),
        Some(OperandRef::Label(n)) => match address_of(p, n) {
            Some(a) => Ok(a as u8),
            None => Err(Error::UndefinedLabel { line: c.line }),
        },
    }
}

/// The code image of the records from index `j` on, appended to `img`.
pub open spec fn emit_from(p: Parsed, j: int, img: Seq<u8>) -> Result<Seq<u8>, Error>
    decreases p.code.len() - j,
{
    if j < 0 || j >= p.code.len() {
        Ok(img)
    } else {
        match operand_byte(p, p.code[j]) {
            Err(e) => Err(e),
            Ok(b) => emit_from(p, j + 1, img + seq![encoding(p.code[j].opcode), b]),
        }
    }
}

/// The data image: each data record's value, in order.
pub open spec fn data_image(p: Parsed) -> Seq<u8> {
    p.data.map_values(|d: DataRec| d.value)
}

/// What assembling a source text yields: the data image and the code image.
pub open spec fn assembled(s: Seq<u8>) -> Result<(Seq<u8>, Seq<u8>), Error> {
    match parsed(s) {
        Err(e) => Err(e),
        Ok(p) => match emit_from(p, 0, seq![]) {
            Err(e) => Err(e),
            Ok(code) => Ok((data_image(p), code)),
        },
    }
}

/// Reading a source text never yields more records than the images can hold.
pub proof fn lemma_parse_bounds(s: Seq<u8>, from: int, k: nat, p: Parsed)
    requires
        0 <= from <= s.len(),
        p.data.len() <= MAX_DATA,
        p.code.len() <= MAX_CODE,
        parse_from(s, from, k, p) is Ok,
    ensures
        parse_from(s, from, k, p)->Ok_0.data.len() <= MAX_DATA,
        parse_from(s, from, k, p)->Ok_0.code.len() <= MAX_CODE,
    decreases s.len() - from,
{
    lemma_line_end_bounds(s, from);
    let e = line_end(s, from);
    let q = record(p, line_tokens(s.subrange(from, e)), (k + 1) as usize)->Ok_0;
    if e < s.len() {
        lemma_parse_bounds(s, e + 1, k + 1, q);
    }
}

/// Whether a token is the given directive.
fn is_directive(t: &Vec<u8>, data: bool) -> (r: bool)
    ensures
        r == (t@ == if data {
            dot_data()
        } else {
            dot_code()
        }),
{
    let d: Vec<u8> = if data {
        vec!['.' as u8, 'd' as u8, 'a' as u8, 't' as u8, 'a' as u8]
    } else {
        vec!['.' as u8, 'c' as u8, 'o' as u8, 'd' as u8, 'e' as u8]
    };
    proof {
        if data {
            assert(d@ =~= dot_data());
        } else {
            assert(d@ =~= dot_code());
        }
    }
    same_bytes(t.as_slice(), d.as_slice())
}

/// Reads an operand token.
fn parse_operand(t: &Vec<u8>, line: usize) -> (r: Result<OperandType, Error>)
    ensures
        match operand_of(t@, line) {
            Ok(x) => r matches Ok(o) && o@ == x,
            Err(e) => r == Err::<OperandType, Error>(e),
        },
{
    if t.len() >= 2 && t[0] == '0' as u8 && t[1] == 'x' as u8 {
        let digits = copy_range(t.as_slice(), 2, t.len());
        proof {
            assert(t@.take(2) =~= hex_prefix());
            assert(digits@ =~= t@.skip(2));
        }
        match parse_numeral(digits.as_slice(), 16) {
            Some(v) => Ok(OperandType::Value(v)),
            None => Err(Error::InvalidOperand { line }),
        }
    } else {
        proof {
            if t@.len() >= 2 && t@.take(2) == hex_prefix() {
                assert(t@.take(2)[0] == t@[0]);
                assert(t@.take(2)[1] == t@[1]);
            }
        }
        let l = copy_range(t.as_slice(), 0, t.len());
        assert(l@ =~= t@);
        Ok(OperandType::Label(l))
    }
}

/// Reads the tokens of a data record.
fn parse_data_record(t: &Vec<Vec<u8>>, line: usize) -> (r: Result<DataLine, Error>)
    ensures
        match data_record(views(t@), line) {
            Ok(x) => r matches Ok(d) && d@ == x,
            Err(e) => r == Err::<DataLine, Error>(e),
        },
{
    if t.len() != 3 {
        return Err(Error::InvalidOperand { line });
    }
    assert(views(t@)[1] == t@[1]@);
    assert(views(t@)[2] == t@[2]@);
    assert(views(t@)[0] == t@[0]@);
    match Opcode::from_mnemonic(t[1].as_slice()) {
        Some(Opcode::DAT) => {},
        _ => {
            return Err(Error::UnknownMnemonic { line });
        },
    }
    match parse_numeral(t[2].as_slice(), 10) {
        Some(v) => {
            let label = copy_range(t[0].as_slice(), 0, t[0].len());
            assert(label@ =~= t@[0]@);
            Ok(DataLine { label, value: v })
        },
        None => Err(Error::InvalidOperand { line }),
    }
}

/// Reads the tokens of a code record.
fn parse_code_record(t: &Vec<Vec<u8>>, line: usize) -> (r: Result<CodeLine, Error>)
    ensures
        match code_record(views(t@), line) {
            Ok(x) => r matches Ok(c) && c@ == x,
            Err(e) => r == Err::<CodeLine, Error>(e),
        },
{
    let n = t.len();
    if n == 0 || n > 3 {
        return Err(Error::InvalidOperand { line });
    }
    let ghost v = views(t@);
    assert(v[0] == t@[0]@);
    assert(v[n - 1] == t@[n - 1]@);
    assert(v.last() == t@[n - 1]@);
    let first_is_mnemonic = Opcode::from_mnemonic(t[0].as_slice()).is_some();
    let has_label = n == 3 || (n == 2 && !first_is_mnemonic);
    assert(has_label == labelled(v));
    let m: usize = if has_label {
        1
    } else {
        0
    };
    assert(v[m as int] == t@[m as int]@);
    let opcode = match Opcode::from_mnemonic(t[m].as_slice()) {
        Some(o) => o,
        None => {
            return Err(Error::UnknownMnemonic { line });
        },
    };
    let label = if has_label {
        let l = copy_range(t[0].as_slice(), 0, t[0].len());
        assert(l@ =~= t@[0]@);
        Some(l)
    } else {
        None
    };
    let operand = if n == 1 || (n == 2 && has_label) {
        None
    } else {
        match parse_operand(&t[n - 1], line) {
            Ok(x) => Some(x),
            Err(e) => {
                return Err(e);
            },
        }
    };
    Ok(CodeLine { label, opcode, operand, line })
}

/// What has been read so far, as values.
pub open spec fn parse_state(section: Section, data: Seq<DataLine>, code: Seq<CodeLine>) -> Parsed {
    Parsed { section, data: data_views(data), code: code_views(code) }
}

/// Applies one line's tokens to what has been read so far.
fn apply_record(
    section: &mut Section,
    data: &mut Vec<DataLine>,
    code: &mut Vec<CodeLine>,
    t: &Vec<Vec<u8>>,
    line: usize,
) -> (r: Result<(), Error>)
    ensures
        match record(parse_state(*old(section), old(data)@, old(code)@), views(t@), line) {
            Ok(q) => r is Ok && q == parse_state(*final(section), final(data)@, final(code)@),
            Err(e) => r == Err::<(), Error>(e),
        },
{
    let ghost before = parse_state(*section, data@, code@);
    if t.len() == 0 {
        return Ok(());
    }
    assert(views(t@)[0] == t@[0]@);
    if is_directive(&t[0], true) {
        *section = Section::Data;
        return Ok(());
    }
    if is_directive(&t[0], false) {
        *section = Section::Code;
        return Ok(());
    }
    match *section {
        Section::Unset => Err(Error::MissingSection { line }),
        Section::Data => {
            let d = match parse_data_record(t, line) {
                Ok(d) => d,
                Err(e) => {
                    return Err(e);
                },
            };
            if data.len() >= MAX_DATA {
                return Err(Error::InvalidOperand { line });
            }
            let ghost dv = d@;
            data.push(d);
            assert(data_views(data@) =~= before.data.push(dv));
            Ok(())
        },
        Section::Code => {
            let c = match parse_code_record(t, line) {
                Ok(c) => c,
                Err(e) => {
                    return Err(e);
                },
            };
            if code.len() >= MAX_CODE {
                return Err(Error::InvalidOperand { line });
            }
            let ghost cv = c@;
            code.push(c);
            assert(code_views(code@) =~= before.code.push(cv));
            Ok(())
        },
    }
}

/// Reads the records of a source text, line by line.
pub fn parse_source(src: &[u8]) -> (r: Result<(Vec<DataLine>, Vec<CodeLine>), Error>)
    ensures
        match parsed(src@) {
            Ok(p) => r matches Ok((d, c)) && data_views(d@) == p.data && code_views(c@) == p.code
                && d@.len() <= MAX_DATA && c@.len() <= MAX_CODE,
            Err(e) => r == Err::<(Vec<DataLine>, Vec<CodeLine>), Error>(e),
        },
{
    let mut section = Section::Unset;
    let mut data: Vec<DataLine> = Vec::new();
    let mut code: Vec<CodeLine> = Vec::new();
    let mut start: usize = 0;
    let mut k: usize = 0;
    proof {
        assert(data_views(data@) =~= Seq::<DataRec>::empty());
        assert(code_views(code@) =~= Seq::<CodeRec>::empty());
    }
    loop
        invariant
            start <= src@.len(),
            k <= start,
            data@.len() <= MAX_DATA,
            code@.len() <= MAX_CODE,
            parsed(src@) == parse_from(src@, start as int, k as nat, parse_state(section, data@, code@)),
        decreases src@.len() - start,
    {
        let e = find_line_end(src, start);
        let line = copy_range(src, start, e);
        let toks = clean_source(line.as_slice());
        if toks.len() > 0 {
            assert(k < src@.len());
        }
        let number: usize = if toks.len() > 0 {
            k + 1
        } else {
            0
        };
        let ghost state = parse_state(section, data@, code@);
        match apply_record(&mut section, &mut data, &mut code, &toks, number) {
            Ok(()) => {
                assert(data_views(data@).len() == data@.len());
                assert(code_views(code@).len() == code@.len());
            },
            Err(err) => {
                return Err(err);
            },
        }
        if e == src.len() {
            return Ok((data, code));
        }
        start = e + 1;
        k = k + 1;
    }
}

/// The address of a label among the given records, if it is declared.
fn lookup(data: &Vec<DataLine>, code: &Vec<CodeLine>, name: &Vec<u8>) -> (r: Option<u8>)
    requires
        data@.len() <= MAX_DATA,
        code@.len() <= MAX_CODE,
    ensures
        match address_in(data_views(data@), code_views(code@), name@) {
            Some(a) => a <= 255 && r == Some(a as u8),
            None => r is None,
        },
{
    let ghost d = data_views(data@);
    let ghost c = code_views(code@);
    let mut i: usize = 0;
    while i < data.len()
        invariant
            i <= data@.len(),
            data@.len() <= MAX_DATA,
            d == data_views(data@),
            first_data(d, name@, 0) == first_data(d, name@, i as int),
        decreases data@.len() - i,
    {
        assert(d[i as int] == data@[i as int]@);
        if same_bytes(data[i].label.as_slice(), name.as_slice()) {
            return Some(i as u8);
        }
        i = i + 1;
    }
    let mut j: usize = 0;
    while j < code.len()
        invariant
            j <= code@.len(),
            code@.len() <= MAX_CODE,
            c == code_views(code@),
            d == data_views(data@),
            first_data(d, name@, 0) is None,
            first_code(c, name@, 0) == first_code(c, name@, j as int),
        decreases code@.len() - j,
    {
        assert(c[j as int] == code@[j as int]@);
        match &code[j].label {
            Some(l) => {
                if same_bytes(l.as_slice(), name.as_slice()) {
                    assert(c[j as int].label == Some(name@));
                    assert(first_code(c, name@, j as int) == Some(j as nat));
                    return Some((2 * j) as u8);
                }
            },
            None => {},
        }
        j = j + 1;
    }
    None
}

/// The code image of the given records, with every label resolved.
fn emit_code(data: &Vec<DataLine>, code: &Vec<CodeLine>, Ghost(p): Ghost<Parsed>) -> (r: Result<
    Vec<u8>,
    Error,
>)
    requires
        data@.len() <= MAX_DATA,
        code@.len() <= MAX_CODE,
        p.data == data_views(data@),
        p.code == code_views(code@),
    ensures
        match emit_from(p, 0, seq![]) {
            Ok(img) => r matches Ok(v) && v@ == img,
            Err(e) => r == Err::<Vec<u8>, Error>(e),
        },
{
    let mut out: Vec<u8> = Vec::new();
    let mut j: usize = 0;
    while j < code.len()
        invariant
            j <= code@.len(),
            data@.len() <= MAX_DATA,
            code@.len() <= MAX_CODE,
            p.data == data_views(data@),
            p.code == code_views(code@),
            emit_from(p, 0, seq![]) == emit_from(p, j as int, out@),
        decreases code@.len() - j,
    {
        let c = &code[j];
        assert(p.code[j as int] == c@);
        let operand: u8 = match &c.operand {
            None => 0,
            Some(OperandType::Value(v)) => *v,
            Some(OperandType::Label(name)) => match lookup(data, code, name) {
                Some(a) => a,
                None => {
                    return Err(Error::UndefinedLabel { line: c.line });
                },
            },
        };
        let ghost before = out@;
        out.push(c.opcode.to_bin());
        out.push(operand);
        assert(out@ =~= before + seq![encoding(p.code[j as int].opcode), operand]);
        j = j + 1;
    }
    Ok(out)
}

/// Assembles source text given as bytes into a data image and a code image.
/// Fails with the first error of the first faulty line, or, when every line
/// reads, with `UndefinedLabel` for the first code record whose label no
/// record declares. No image is produced on failure.
pub fn assemble_bytes(src: &[u8]) -> (r: Result<Binary, Error>)
    ensures
        match assembled(src@) {
            Ok(images) => r matches Ok(b) && b@ == images,
            Err(e) => r == Err::<Binary, Error>(e),
        },
{
    let (data, code) = match parse_source(src) {
        Ok(records) => records,
        Err(e) => {
            return Err(e);
        },
    };
    let ghost p = parsed(src@)->Ok_0;
    let code_image = match emit_code(&data, &code, Ghost(p)) {
        Ok(v) => v,
        Err(e) => {
            return Err(e);
        },
    };
    let mut data_image_bytes: Vec<u8> = Vec::new();
    let mut i: usize = 0;
    while i < data.len()
        invariant
            i <= data@.len(),
            p.data == data_views(data@),
            data_image_bytes@ == data_image(p).take(i as int),
        decreases data@.len() - i,
    {
        assert(p.data[i as int] == data@[i as int]@);
        data_image_bytes.push(data[i].value);
        i = i + 1;
        assert(data_image_bytes@ =~= data_image(p).take(i as int));
    }
    assert(data_image_bytes@ =~= data_image(p));
    Ok(Binary { data: data_image_bytes, code: code_image })
}

/// Assembles source text into a data image and a code image, as
/// `assemble_bytes` does with the text's UTF-8 bytes.
pub fn assemble(source: &str) -> (r: Result<Binary, Error>)
    ensures
        match assembled(source.spec_bytes()) {
            Ok(images) => r matches Ok(b) && b@ == images,
            Err(e) => r == Err::<Binary, Error>(e),
        },
{
    assemble_bytes(source.as_bytes())
}

/// Once some record from `k` on names an undeclared label, emission fails,
/// and every failure of emission is `UndefinedLabel`.
proof fn lemma_emit_fails(p: Parsed, k: int, img: Seq<u8>, j: int, n: Seq<u8>)
    requires
        0 <= k <= j < p.code.len(),
        p.code[j].operand == Some(OperandRef::Label(n)),
        address_of(p, n) is None,
    ensures
        emit_from(p, k, img) matches Err(Error::UndefinedLabel { .. }),
    decreases j - k,
{
    match operand_byte(p, p.code[k]) {
        Err(_) => {},
        Ok(b) => {
            lemma_emit_fails(p, k + 1, img + seq![encoding(p.code[k].opcode), b], j, n);
        },
    }
}

/// A program whose records all read, but one of whose code records names a
/// label that no record declares, fails to assemble with `UndefinedLabel`,
/// and so yields no image.
pub proof fn lemma_undefined_label_fails(s: Seq<u8>, j: int, n: Seq<u8>)
    requires
        parsed(s) is Ok,
        0 <= j < parsed(s)->Ok_0.code.len(),
        parsed(s)->Ok_0.code[j].operand == Some(OperandRef::Label(n)),
        address_of(parsed(s)->Ok_0, n) is None,
    ensures
        assembled(s) matches Err(Error::UndefinedLabel { .. }),
{
    lemma_emit_fails(parsed(s)->Ok_0, 0, seq![], j, n);
}

/// The first data record from `i` on that declares a label does declare it.
proof fn lemma_first_data(d: Seq<DataRec>, name: Seq<u8>, i: int)
    requires
        first_data(d, name, i) is Some,
    ensures
        i <= first_data(d, name, i)->Some_0 < d.len(),
        d[first_data(d, name, i)->Some_0 as int].label == name,
    decreases d.len() - i,
{
    if 0 <= i < d.len() && d[i].label != name {
        lemma_first_data(d, name, i + 1);
    }
}

/// The first code record from `j` on that declares a label does declare it.
proof fn lemma_first_code(c: Seq<CodeRec>, name: Seq<u8>, j: int)
    requires
        first_code(c, name, j) is Some,
    ensures
        j <= first_code(c, name, j)->Some_0 < c.len(),
        c[first_code(c, name, j)->Some_0 as int].label == Some(name),
    decreases c.len() - j,
{
    if 0 <= j < c.len() && c[j].label != Some(name) {
        lemma_first_code(c, name, j + 1);
    }
}

/// A successful emission from record `k` keeps what was emitted before and
/// puts each later record at twice its index: its opcode byte, then its
/// resolved operand.
proof fn lemma_emit_layout(p: Parsed, k: int, img: Seq<u8>)
    requires
        0 <= k <= p.code.len(),
        img.len() == 2 * k,
        emit_from(p, k, img) is Ok,
    ensures
        ({
            let out = emit_from(p, k, img)->Ok_0;
            &&& out.len() == 2 * p.code.len()
            &&& out.take(2 * k) == img
            &&& forall|j: int|
                k <= j < p.code.len() ==> out[2 * j] == encoding(p.code[j].opcode)
                    && operand_byte(p, #[trigger] p.code[j]) == Ok::<u8, Error>(out[2 * j + 1])
        }),
    decreases p.code.len() - k,
{
    if k < p.code.len() {
        let b = operand_byte(p, p.code[k])->Ok_0;
        let next = img + seq![encoding(p.code[k].opcode), b];
        lemma_emit_layout(p, k + 1, next);
        let out = emit_from(p, k, img)->Ok_0;
        assert(out.take(2 * k + 2) == next);
        assert(out[2 * k] == next[2 * k]);
        assert(out[2 * k + 1] == next[2 * k + 1]);
        assert(out.take(2 * k) =~= next.take(2 * k));
        assert(next.take(2 * k) =~= img);
    } else {
        assert(img.take(2 * k) =~= img);
    }
}

/// Labels resolve to the record that declares them, wherever that record
/// stands: a code record that names a label gets, as its operand byte in the
/// code image, the index of the first data record declaring the label (whose
/// value the data image holds there), or else twice the index of the first
/// code record declaring it. In particular, a label used before its
/// declaration resolves like any other.
pub proof fn lemma_label_resolves(s: Seq<u8>, j: int, n: Seq<u8>)
    requires
        assembled(s) is Ok,
        0 <= j < parsed(s)->Ok_0.code.len(),
        parsed(s)->Ok_0.code[j].operand == Some(OperandRef::Label(n)),
    ensures
        ({
            let p = parsed(s)->Ok_0;
            let (data, code) = assembled(s)->Ok_0;
            &&& code[2 * j] == encoding(p.code[j].opcode)
            &&& match first_data(p.data, n, 0) {
                Some(i) => {
                    &&& code[2 * j + 1] == i
                    &&& p.data[i as int].label == n
                    &&& data[i as int] == p.data[i as int].value
                },
                None => {
                    &&& first_code(p.code, n, 0) matches Some(k)
                    &&& code[2 * j + 1] == 2 * k
                    &&& p.code[k as int].label == Some(n)
                },
            }
        }),
{
    let p = parsed(s)->Ok_0;
    lemma_parse_bounds(s, 0, 0, empty_parse());
    lemma_emit_layout(p, 0, seq![]);
    let out = emit_from(p, 0, seq![])->Ok_0;
    assert(operand_byte(p, p.code[j]) == Ok::<u8, Error>(out[2 * j + 1]));
    match first_data(p.data, n, 0) {
        Some(i) => {
            lemma_first_data(p.data, n, 0);
        },
        None => {
            if first_code(p.code, n, 0) is None {
                assert(operand_byte(p, p.code[j]) is Err);
            }
            lemma_first_code(p.code, n, 0);
        },
    }
}

} // verus!
