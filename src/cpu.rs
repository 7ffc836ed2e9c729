//! The execution engine: registers, a data memory and an instruction memory,
//! and the fetch-decode-execute cycle over them.
//!
//! One call of `CPU::cycle` performs one whole cycle. Input and output are
//! left to the caller: a cycle that reaches `INP` takes the byte it is given,
//! and one that reaches `OUT` reports the byte to emit. `CPU::run` drives
//! cycles over a given input until the machine halts.
use vstd::prelude::*;

use crate::error::Error;
use crate::instructions::{decoded, encoding, Instruction, Opcode};
use crate::memory::Memory;
use crate::registers::{Register, ACC, CIR, MDR, PC};

verus! {

/// The abstract state of a CPU: its registers and the contents of its two
/// memories (whose lengths are their sizes).
pub struct CpuState {
    pub pc: u8,
    pub mdr: u8,
    pub cir: Option<Instruction>,
    pub acc: u8,
    pub data: Seq<u8>,
    pub code: Seq<u8>,
    pub running: bool,
}

/// What one cycle asks of the world outside the CPU.
#[derive(Clone, Copy, Debug, PartialEq, Eq, Structural)]
pub enum Effect {
    /// Nothing: the cycle completed on its own.
    Continue,
    /// The cycle executed `INP` and consumed the input byte it was given.
    Input,
    /// The cycle executed `OUT`: the byte is to be emitted.
    Output(u8),
    /// The cycle executed `HLT`.
    Halt,
    /// The next instruction is `INP` and no input was given: nothing changed.
    AwaitingInput,
}

/// Why `CPU::run` stopped without a fault.
#[derive(Clone, Copy, Debug, PartialEq, Eq, Structural)]
pub enum Stop {
    /// The machine executed `HLT` (or was not running).
    Halted,
    /// The next instruction is `INP` and the input is used up.
    NeedsInput,
    /// The cycle budget ran out while the machine was still running.
    OutOfCycles,
}

/// What `CPU::run` did: the bytes emitted by `OUT`, in order, the number of
/// cycles executed, and how it stopped.
pub struct Outcome {
    pub output: Vec<u8>,
    pub cycles: u64,
    pub end: Result<Stop, Error>,
}

/// The program counter two bytes on, modulo 256.
pub open spec fn advanced(pc: u8) -> u8 {
    ((pc as int + 2) % 256) as u8
}

/// Comparisons read the accumulator as a two's-complement byte.
pub open spec fn is_negative(v: u8) -> bool {
    v >= 128
}

/// The state with the machine stopped.
pub open spec fn halted(s: CpuState) -> CpuState {
    CpuState { running: false, ..s }
}

/// Whether the instruction at the program counter is `INP`.
pub open spec fn awaits_input(s: CpuState) -> bool {
    s.pc < s.code.len() && s.code[s.pc as int] == encoding(Opcode::INP)
}

/// Fetch: the byte at the program counter goes to the fetch latch and the
/// program counter moves on by one instruction (two bytes).
pub open spec fn fetched(s: CpuState) -> Result<CpuState, Error> {
    if s.pc >= s.code.len() {
        Err(Error::OutOfBounds(s.pc as u32))
    } else {
        Ok(CpuState { mdr: s.code[s.pc as int], pc: advanced(s.pc), ..s })
    }
}

/// Decode, for an opcode fetched from address `at`: the operand is the byte
/// after it, and the latched opcode byte with that operand is decoded into
/// the instruction register (which is emptied on an invalid opcode).
pub open spec fn decode_result(s: CpuState, at: u8) -> (CpuState, Result<Instruction, Error>) {
    let a = at as int + 1;
    if a >= s.code.len() {
        (s, Err(Error::OutOfBounds(a as u32)))
    } else {
        match decoded(s.mdr) {
            Ok(o) => {
                let i = Instruction { opcode: o, operand: s.code[a] };
                (CpuState { cir: Some(i), ..s }, Ok(i))
            },
            Err(e) => (CpuState { cir: None, ..s }, Err(e)),
        }
    }
}

/// The state with the accumulator replaced.
pub open spec fn with_acc(s: CpuState, v: int) -> CpuState {
    CpuState { acc: v as u8, ..s }
}

/// The state with the program counter at `target` when `taken`.
pub open spec fn jump_if(s: CpuState, taken: bool, target: u8) -> CpuState {
    if taken {
        CpuState { pc: target, ..s }
    } else {
        s
    }
}

/// Execute the instruction in the instruction register. Arithmetic wraps
/// modulo 256; the operand is a data address, a jump target (jumps), or the
/// value to store at that same address (`DAT`).
pub open spec fn executed(s: CpuState, input: Option<u8>) -> Result<(CpuState, Effect), Error> {
    match s.cir {
        None => Ok((s, Effect::Continue)),
        Some(i) => {
            let a = i.operand;
            let inside = (a as int) < s.data.len();
            let v = s.data[a as int];
            let oob = Err(Error::OutOfBounds(a as u32));
            match i.opcode {
                Opcode::ADD => if inside {
                    Ok((with_acc(s, (s.acc + v) % 256), Effect::Continue))
                } else {
                    oob
                },
                Opcode::SUB => if inside {
                    Ok((with_acc(s, (s.acc - v + 256) % 256), Effect::Continue))
                } else {
                    oob
                },
                Opcode::MUL => if inside {
                    Ok((with_acc(s, (s.acc * v) % 256), Effect::Continue))
                } else {
                    oob
                },
                Opcode::DIV => if !inside {
                    oob
                } else if v == 0 {
                    Err(Error::DivisionByZero(a))
                } else {
                    Ok((with_acc(s, s.acc as int / v as int), Effect::Continue))
                },
                Opcode::STA => if inside {
                    Ok((CpuState { data: s.data.update(a as int, s.acc), ..s }, Effect::Continue))
                } else {
                    oob
                },
                Opcode::LDA => if inside {
                    Ok((with_acc(s, v as int), Effect::Continue))
                } else {
                    oob
                },
                Opcode::JMP => Ok((jump_if(s, true, a), Effect::Continue)),
                Opcode::JEQ | Opcode::JZ => Ok((jump_if(s, s.acc == 0, a), Effect::Continue)),
                Opcode::JNE | Opcode::JNZ => Ok((jump_if(s, s.acc != 0, a), Effect::Continue)),
                Opcode::JGT => Ok(
                    (jump_if(s, s.acc != 0 && !is_negative(s.acc), a), Effect::Continue),
                ),
                Opcode::JLT => Ok((jump_if(s, is_negative(s.acc), a), Effect::Continue)),
                Opcode::HLT => Ok((halted(s), Effect::Halt)),
                Opcode::INP => match input {
                    Some(b) => Ok((with_acc(s, b as int), Effect::Input)),
                    None => Ok((s, Effect::AwaitingInput)),
                },
                Opcode::OUT => Ok((s, Effect::Output(s.acc))),
                Opcode::DAT => if inside {
                    Ok((CpuState { data: s.data.update(a as int, a), ..s }, Effect::Continue))
                } else {
                    oob
                },
            }
        },
    }
}

/// One fetch-decode-execute cycle. A fault stops the machine where it arose:
/// what earlier phases of the cycle did stays, and the faulting phase
/// changes nothing but `running`.
#[verifier::opaque]
pub open spec fn cycle_result(s: CpuState, input: Option<u8>) -> (CpuState, Result<Effect, Error>) {
    if awaits_input(s) && input is None {
        (s, Ok(Effect::AwaitingInput))
    } else {
        match fetched(s) {
            Err(e) => (halted(s), Err(e)),
            Ok(f) => {
                let (d, r) = decode_result(f, s.pc);
                match r {
                    Err(e) => (halted(d), Err(e)),
                    Ok(_) => match executed(d, input) {
                        Err(e) => (halted(d), Err(e)),
                        Ok((x, eff)) => (x, Ok(eff)),
                    },
                }
            },
        }
    }
}

/// A cycle consumes input only when it is given some.
pub proof fn lemma_input_needs_byte(s: CpuState)
    ensures
        cycle_result(s, None).1 != Ok::<Effect, Error>(Effect::Input),
{
    reveal(cycle_result);
}

/// `DIV` whose operand addresses a zero byte of data memory faults with
/// `DivisionByZero` and stops the machine, leaving the accumulator and data
/// memory as they were before the instruction.
pub proof fn lemma_div_by_zero(s: CpuState, input: Option<u8>)
    requires
        s.pc + 1 < s.code.len(),
        s.code[s.pc as int] == encoding(Opcode::DIV),
        s.code[s.pc + 1] < s.data.len(),
        s.data[s.code[s.pc + 1] as int] == 0,
    ensures
        ({
            let (t, r) = cycle_result(s, input);
            &&& r == Err::<Effect, Error>(Error::DivisionByZero(s.code[s.pc + 1]))
            &&& t.acc == s.acc
            &&& t.data == s.data
            &&& !t.running
        }),
{
    reveal(cycle_result);
    crate::instructions::lemma_decode_encode(Opcode::DIV, encoding(Opcode::DIV));
}

/// A running machine whose next instruction is `HLT` stops after exactly
/// one cycle, with no output, the accumulator and data memory untouched, and
/// the program counter one instruction on.
pub proof fn lemma_halt_stops(s: CpuState, input: Seq<u8>, fuel: nat)
    requires
        s.running,
        fuel >= 1,
        s.pc + 1 < s.code.len(),
        s.code[s.pc as int] == encoding(Opcode::HLT),
    ensures
        ({
            let (t, out, n, end) = run_result(s, input, fuel);
            &&& out.len() == 0
            &&& n == 1
            &&& end == Ok::<Stop, Error>(Stop::Halted)
            &&& t.acc == s.acc
            &&& t.data == s.data
            &&& t.pc == advanced(s.pc)
            &&& !t.running
        }),
{
    reveal(cycle_result);
    crate::instructions::lemma_decode_encode(Opcode::HLT, encoding(Opcode::HLT));
    let (t, r) = cycle_result(s, next_input(input));
    assert(r == Ok::<Effect, Error>(Effect::Halt));
    assert(run_result(t, input, (fuel - 1) as nat) == (t, Seq::<u8>::empty(), 0nat, Ok::<Stop, Error>(Stop::Halted)));
    assert(Seq::<u8>::empty() + Seq::<u8>::empty() =~= Seq::<u8>::empty());
}

/// The first input byte, if any.
pub open spec fn next_input(input: Seq<u8>) -> Option<u8> {
    if input.len() > 0 {
        Some(input[0])
    } else {
        None
    }
}

/// Cycles run from `s` on `input`, at most `fuel` of them, while the machine
/// runs: the final state, the bytes output, the number of cycles executed,
/// and how it stopped. A cycle that executes `INP` consumes one input byte.
pub open spec fn run_result(s: CpuState, input: Seq<u8>, fuel: nat) -> (
    CpuState,
    Seq<u8>,
    nat,
    Result<Stop, Error>,
)
    decreases fuel,
{
    if !s.running {
        (s, seq![], 0, Ok(Stop::Halted))
    } else if fuel == 0 {
        (s, seq![], 0, Ok(Stop::OutOfCycles))
    } else {
        let (t, r) = cycle_result(s, next_input(input));
        match r {
            Err(e) => (t, seq![], 1, Err(e)),
            Ok(Effect::AwaitingInput) => (t, seq![], 0, Ok(Stop::NeedsInput)),
            Ok(eff) => {
                let rest = if eff == Effect::Input {
                    input.drop_first()
                } else {
                    input
                };
                let out = match eff {
                    Effect::Output(b) => seq![b],
                    _ => seq![],
                };
                let (u, o, n, end) = run_result(t, rest, (fuel - 1) as nat);
                (u, out + o, n + 1, end)
            },
        }
    }
}

/// The CPU. It owns its registers and both memories.
pub struct CPU {
    pc: PC,
    mdr: MDR,
    cir: CIR,
    pub acc: ACC,
    pub data_memory: Memory,
    pub instruction_memory: Memory,
    running: bool,
}

impl View for CPU {
    type V = CpuState;

    closed spec fn view(&self) -> CpuState {
        CpuState {
            pc: self.pc@,
            mdr: self.mdr@,
            cir: self.cir@,
            acc: self.acc@,
            data: self.data_memory@,
            code: self.instruction_memory@,
            running: self.running,
        }
    }
}

impl CPU {
    /// Both memories hold as many bytes as their sizes say.
    pub closed spec fn wf(&self) -> bool {
        self.data_memory.wf() && self.instruction_memory.wf()
    }

    /// A stopped CPU with zeroed registers, an empty instruction register,
    /// and zeroed memories of the given sizes.
    pub fn new(data_memory_size: u32, instruction_memory_size: u32) -> (r: CPU)
        ensures
            r.wf(),
            r@ == (CpuState {
                pc: 0,
                mdr: 0,
                cir: None,
                acc: 0,
                data: Seq::new(data_memory_size as nat, |i: int| 0u8),
                code: Seq::new(instruction_memory_size as nat, |i: int| 0u8),
                running: false,
            }),
    {
        CPU {
            pc: PC::new(),
            mdr: MDR::new(),
            cir: CIR::new(),
            acc: ACC::new(),
            data_memory: Memory::new(data_memory_size),
            instruction_memory: Memory::new(instruction_memory_size),
            running: false,
        }
    }

    /// Copies `image` into `memory` from address 0; the rest is kept.
    fn copy_into(memory: &mut Memory, image: &Vec<u8>)
        requires
            old(memory).wf(),
            image@.len() <= old(memory).size,
        ensures
            final(memory).wf(),
            final(memory).size == old(memory).size,
            final(memory)@ == image@ + old(memory)@.skip(image@.len() as int),
    {
        let mut i: usize = 0;
        while i < image.len()
            invariant
                memory.wf(),
                memory.size == old(memory).size,
                old(memory)@.len() == memory.size,
                image@.len() <= memory.size,
                i <= image@.len(),
                memory@ == image@.take(i as int) + old(memory)@.skip(i as int),
            decreases image@.len() - i,
        {
            let _ = memory.write(i as u32, image[i]);
            i = i + 1;
            assert(memory@ =~= image@.take(i as int) + old(memory)@.skip(i as int));
        }
        assert(image@.take(i as int) =~= image@);
    }

    /// Loads a code image into instruction memory from address 0, resets the
    /// program counter to 0 and stops the machine. An image longer than the
    /// memory is refused with `OutOfBounds` at the memory's size, and nothing
    /// changes.
    pub fn load_program(&mut self, program: Vec<u8>) -> (r: Result<(), Error>)
        requires
            old(self).wf(),
        ensures
            final(self).wf(),
            program@.len() <= old(self)@.code.len() ==> r is Ok && final(self)@ == (CpuState {
                code: program@ + old(self)@.code.skip(program@.len() as int),
                pc: 0,
                running: false,
                ..old(self)@
            }),
            program@.len() > old(self)@.code.len() ==> r == Err::<(), Error>(
                Error::OutOfBounds(old(self)@.code.len() as u32),
            ) && final(self)@ == old(self)@,
    {
        if program.len() > self.instruction_memory.size as usize {
            return Err(Error::OutOfBounds(self.instruction_memory.size));
        }
        CPU::copy_into(&mut self.instruction_memory, &program);
        self.pc.set(0);
        self.running = false;
        Ok(())
    }

    /// Loads a data image into data memory from address 0. An image longer
    /// than the memory is refused with `OutOfBounds` at the memory's size,
    /// and nothing changes.
    pub fn load_data(&mut self, data: Vec<u8>) -> (r: Result<(), Error>)
        requires
            old(self).wf(),
        ensures
            final(self).wf(),
            data@.len() <= old(self)@.data.len() ==> r is Ok && final(self)@ == (CpuState {
                data: data@ + old(self)@.data.skip(data@.len() as int),
                ..old(self)@
            }),
            data@.len() > old(self)@.data.len() ==> r == Err::<(), Error>(
                Error::OutOfBounds(old(self)@.data.len() as u32),
            ) && final(self)@ == old(self)@,
    {
        if data.len() > self.data_memory.size as usize {
            return Err(Error::OutOfBounds(self.data_memory.size));
        }
        CPU::copy_into(&mut self.data_memory, &data);
        Ok(())
    }

    /// Sets the machine running; nothing else changes.
    pub fn start(&mut self)
        ensures
            final(self).wf() == old(self).wf(),
            final(self)@ == (CpuState { running: true, ..old(self)@ }),
    {
        self.running = true;
    }

    /// Fetch; returns the address the opcode was fetched from.
    fn fetch(&mut self) -> (r: Result<u8, Error>)
        requires
            old(self).wf(),
        ensures
            final(self).wf(),
            match fetched(old(self)@) {
                Ok(t) => r == Ok::<u8, Error>(old(self)@.pc) && final(self)@ == t,
                Err(e) => r == Err::<u8, Error>(e) && final(self)@ == old(self)@,
            },
    {
        let address = self.pc.get();
        let byte = match self.instruction_memory.read(address as u32) {
            Ok(b) => b,
            Err(e) => return Err(e),
        };
        let next = ((address as u16 + 2) % 256) as u8;
        self.pc.set(next);
        self.mdr.set(byte);
        Ok(address)
    }

    /// Decode the opcode fetched from address `at`.
    fn decode(&mut self, at: u8) -> (r: Result<(), Error>)
        requires
            old(self).wf(),
        ensures
            final(self).wf(),
            final(self)@ == decode_result(old(self)@, at).0,
            r is Ok <==> decode_result(old(self)@, at).1 is Ok,
            r is Err ==> r == Err::<(), Error>(decode_result(old(self)@, at).1->Err_0),
    {
        let operand = match self.instruction_memory.read(at as u32 + 1) {
            Ok(b) => b,
            Err(e) => return Err(e),
        };
        let opcode = self.mdr.get();
        match self.cir.set(opcode, operand) {
            Ok(_) => Ok(()),
            Err(e) => Err(e),
        }
    }

    /// The data byte at an operand address.
    fn operand_value(&self, a: u8) -> (r: Result<u8, Error>)
        requires
            self.wf(),
        ensures
            (a as int) < self@.data.len() ==> r == Ok::<u8, Error>(self@.data[a as int]),
            (a as int) >= self@.data.len() ==> r == Err::<u8, Error>(Error::OutOfBounds(a as u32)),
    {
        self.data_memory.read(a as u32)
    }

    /// Jumps to `target` when `taken`.
    fn jump_if(&mut self, taken: bool, target: u8)
        ensures
            final(self).wf() == old(self).wf(),
            final(self)@ == jump_if(old(self)@, taken, target),
    {
        if taken {
            self.pc.set(target);
        }
    }

    /// Execute the instruction in the instruction register.
    fn execute(&mut self, input: Option<u8>) -> (r: Result<Effect, Error>)
        requires
            old(self).wf(),
        ensures
            final(self).wf(),
            match executed(old(self)@, input) {
                Ok((t, e)) => r == Ok::<Effect, Error>(e) && final(self)@ == t,
                Err(e) => r == Err::<Effect, Error>(e) && final(self)@ == old(self)@,
            },
    {
        let instr = match self.cir.get_instruction() {
            Some(i) => i,
            None => return Ok(Effect::Continue),
        };
        let a = instr.operand;
        let acc = self.acc.get();
        match instr.opcode {
            Opcode::ADD => {
                let v = match self.operand_value(a) {
                    Ok(v) => v,
                    Err(e) => return Err(e),
                };
                self.acc.set(((acc as u16 + v as u16) % 256) as u8);
                Ok(Effect::Continue)
            },
            Opcode::SUB => {
                let v = match self.operand_value(a) {
                    Ok(v) => v,
                    Err(e) => return Err(e),
                };
                self.acc.set(((acc as u16 + 256 - v as u16) % 256) as u8);
                Ok(Effect::Continue)
            },
            Opcode::MUL => {
                let v = match self.operand_value(a) {
                    Ok(v) => v,
                    Err(e) => return Err(e),
                };
                assert((acc as int) * (v as int) <= 255 * 255) by (nonlinear_arith)
                    requires
                        acc <= 255,
                        v <= 255,
                ;
                self.acc.set(((acc as u32 * v as u32) % 256) as u8);
                Ok(Effect::Continue)
            },
            Opcode::DIV => {
                let v = match self.operand_value(a) {
                    Ok(v) => v,
                    Err(e) => return Err(e),
                };
                if v == 0 {
                    return Err(Error::DivisionByZero(a));
                }
                self.acc.set(acc / v);
                Ok(Effect::Continue)
            },
            Opcode::STA => {
                match self.data_memory.write(a as u32, acc) {
                    Ok(()) => Ok(Effect::Continue),
                    Err(e) => Err(e),
                }
            },
            Opcode::LDA => {
                let v = match self.operand_value(a) {
                    Ok(v) => v,
                    Err(e) => return Err(e),
                };
                self.acc.set(v);
                Ok(Effect::Continue)
            },
            Opcode::JMP => {
                self.jump_if(true, a);
                Ok(Effect::Continue)
            },
            Opcode::JEQ | Opcode::JZ => {
                self.jump_if(acc == 0, a);
                Ok(Effect::Continue)
            },
            Opcode::JNE | Opcode::JNZ => {
                self.jump_if(acc != 0, a);
                Ok(Effect::Continue)
            },
            Opcode::JGT => {
                self.jump_if(acc != 0 && acc < 128, a);
                Ok(Effect::Continue)
            },
            Opcode::JLT => {
                self.jump_if(acc >= 128, a);
                Ok(Effect::Continue)
            },
            Opcode::HLT => {
                self.running = false;
                Ok(Effect::Halt)
            },
            Opcode::INP => {
                match input {
                    Some(b) => {
                        self.acc.set(b);
                        Ok(Effect::Input)
                    },
                    None => Ok(Effect::AwaitingInput),
                }
            },
            Opcode::OUT => Ok(Effect::Output(acc)),
            Opcode::DAT => {
                match self.data_memory.write(a as u32, a) {
                    Ok(()) => Ok(Effect::Continue),
                    Err(e) => Err(e),
                }
            },
        }
    }

    /// Whether the instruction at the program counter is `INP`.
    pub fn awaits_input(&self) -> (r: bool)
        requires
            self.wf(),
        ensures
            r == awaits_input(self@),
    {
        match self.instruction_memory.read(self.pc.get() as u32) {
            Ok(b) => b == Opcode::INP.to_bin(),
            Err(_) => false,
        }
    }

    /// One fetch-decode-execute cycle. `input` is the byte that `INP` would
    /// load; when the next instruction is `INP` and no byte is given, nothing
    /// happens and `AwaitingInput` is returned. A fault stops the machine.
    pub fn cycle(&mut self, input: Option<u8>) -> (r: Result<Effect, Error>)
        requires
            old(self).wf(),
        ensures
            final(self).wf(),
            (final(self)@, r) == cycle_result(old(self)@, input),
    {
        proof {
            reveal(cycle_result);
        }
        if input.is_none() && self.awaits_input() {
            return Ok(Effect::AwaitingInput);
        }
        let at = match self.fetch() {
            Ok(at) => at,
            Err(e) => {
                self.running = false;
                return Err(e);
            },
        };
        match self.decode(at) {
            Ok(()) => {},
            Err(e) => {
                self.running = false;
                return Err(e);
            },
        }
        match self.execute(input) {
            Ok(eff) => Ok(eff),
            Err(e) => {
                self.running = false;
                Err(e)
            },
        }
    }

    /// Starts the machine and runs cycles until it halts, faults, needs input
    /// beyond `input`, or has run `max_cycles` cycles. `INP` takes the bytes
    /// of `input` in order; the bytes of `OUT` are collected in order.
    pub fn run(&mut self, input: &Vec<u8>, max_cycles: u64) -> (r: Outcome)
        requires
            old(self).wf(),
        ensures
            final(self).wf(),
            ({
                let (s, out, n, end) = run_result(
                    CpuState { running: true, ..old(self)@ },
                    input@,
                    max_cycles as nat,
                );
                &&& final(self)@ == s
                &&& r.output@ == out
                &&& r.cycles == n
                &&& r.end == end
            }),
    {
        self.start();
        let ghost s0 = self@;
        let mut output: Vec<u8> = Vec::new();
        let mut next: usize = 0;
        let mut cycles: u64 = 0;
        proof {
            assert(input@.skip(0) =~= input@);
            let (s, out, n, end) = run_result(s0, input@, max_cycles as nat);
            assert(output@ + out =~= out);
        }
        loop
            invariant
                self.wf(),
                s0 == (CpuState { running: true, ..old(self)@ }),
                next <= input@.len(),
                cycles <= max_cycles,
                ({
                    let (s, out, n, end) = run_result(
                        self@,
                        input@.skip(next as int),
                        (max_cycles - cycles) as nat,
                    );
                    run_result(s0, input@, max_cycles as nat) == (
                        s,
                        output@ + out,
                        (cycles + n) as nat,
                        end,
                    )
                }),
            decreases max_cycles - cycles,
        {
            if !self.running {
                assert(output@ + seq![] =~= output@);
                return Outcome { output, cycles, end: Ok(Stop::Halted) };
            }
            if cycles == max_cycles {
                assert(output@ + seq![] =~= output@);
                return Outcome { output, cycles, end: Ok(Stop::OutOfCycles) };
            }
            let ghost before = self@;
            let ghost rest = input@.skip(next as int);
            let given = if next < input.len() {
                Some(input[next])
            } else {
                None
            };
            assert(given == next_input(rest));
            match self.cycle(given) {
                Err(e) => {
                    assert(output@ + seq![] =~= output@);
                    return Outcome { output, cycles: cycles + 1, end: Err(e) };
                },
                Ok(Effect::AwaitingInput) => {
                    assert(output@ + seq![] =~= output@);
                    return Outcome { output, cycles, end: Ok(Stop::NeedsInput) };
                },
                Ok(eff) => {
                    let ghost old_output = output@;
                    match eff {
                        Effect::Output(b) => {
                            output.push(b);
                        },
                        Effect::Input => {
                            proof {
                                if given is None {
                                    lemma_input_needs_byte(before);
                                }
                            }
                            assert(rest.drop_first() =~= input@.skip(next + 1));
                            next = next + 1;
                        },
                        _ => {},
                    }
                    cycles = cycles + 1;
                    proof {
                        let (u, o, n, end) = run_result(
                            self@,
                            input@.skip(next as int),
                            (max_cycles - cycles) as nat,
                        );
                        let out: Seq<u8> = match eff {
                            Effect::Output(b) => seq![b],
                            _ => seq![],
                        };
                        assert(output@ =~= old_output + out);
                        assert(old_output + (out + o) =~= output@ + o);
                    }
                },
            }
        }
    }

    /// Whether the machine is running.
    pub fn is_running(&self) -> (r: bool)
        ensures
            r == self@.running,
    {
        self.running
    }

    /// The program counter.
    pub fn pc(&self) -> (r: u8)
        ensures
            r == self@.pc,
    {
        self.pc.get()
    }

    /// The fetch latch: the last opcode byte fetched.
    pub fn mdr(&self) -> (r: u8)
        ensures
            r == self@.mdr,
    {
        self.mdr.get()
    }

    /// The decoded instruction under execution, if any.
    pub fn instruction(&self) -> (r: Option<Instruction>)
        ensures
            r == self@.cir,
    {
        self.cir.get_instruction()
    }

    /// The accumulator.
    pub fn accumulator(&self) -> (r: u8)
        ensures
            r == self@.acc,
    {
        self.acc.get()
    }
}

} // verus!
