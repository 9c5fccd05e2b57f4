//! The execution engine: a register machine over 4-byte instructions.
//!
//! The whole machine is modelled by the ghost state [`VmState`], and one
//! spec-level transition function, [`spec_step`], says exactly what a
//! single fetch-decode-execute step does: which bytes it consumes, how
//! the registers, heap, program counter, remainder and equality flag
//! change, and which outcome it reports.  [`VM::execute_instruction`] is
//! proved to implement that transition exactly.
//!
//! Faults never panic: division by zero, a register index outside the
//! file, a truncated instruction or an impossible heap size all halt the
//! machine cleanly with a reported [`VmError`].  Register arithmetic
//! wraps, deterministically, because register values feed control flow.

use vstd::arithmetic::div_mod::{
    lemma_div_is_ordered_by_denominator, lemma_div_nonincreasing, lemma_div_pos_is_pos,
};
use vstd::prelude::*;
use vstd::wrapping::{i32_specs, usize_specs};

use crate::assembler::{spec_pie_header_prefix, PIE_HEADER_LENGTH};
use crate::instruction::{spec_opcode_from_byte, Opcode};

verus! {

/// A fault raised while loading or running a program.
#[derive(Debug, Clone, Copy, PartialEq, Eq)]
pub enum VmError {
    /// The program's first four bytes are not the magic prefix.
    InvalidHeader,
    /// The byte fetched at the program counter decodes to no operation.
    IllegalOpcode,
    /// The program ends before the operand bytes of the fetched opcode.
    TruncatedInstruction,
    /// An operand byte named a register outside 0..=31.
    RegisterOutOfRange,
    /// A DIV instruction had divisor zero.
    DivideByZero,
    /// An ALOC instruction asked for a heap size below zero or beyond
    /// the address space.
    HeapOutOfRange,
}

/// What one execution step reported.
#[derive(Debug, Clone, Copy, PartialEq, Eq)]
pub enum StepOutcome {
    /// An instruction executed; the machine is still running.
    Continue,
    /// The program counter is past the end of the program.
    Done,
    /// An explicit HLT instruction was executed.
    Halt,
    /// A runtime fault halted the machine.
    Error(VmError),
}

impl StepOutcome {
    /// Whether this outcome ends a run: anything but `Continue`.
    pub open spec fn spec_is_halted(self) -> bool {
        self != StepOutcome::Continue
    }

    /// Whether this outcome ends a run.
    pub fn is_halted(&self) -> (r: bool)
        ensures
            r == self.spec_is_halted(),
    {
        match self {
            StepOutcome::Continue => false,
            _ => true,
        }
    }
}

/// The mathematical state of the machine: what [`VM`] looks like
/// through its view.
#[verifier::ext_equal]
pub ghost struct VmState {
    pub registers: Seq<i32>,
    pub program: Seq<u8>,
    pub heap: Seq<u8>,
    pub pc: usize,
    pub remainder: usize,
    pub equal_flag: bool,
}

/// The virtual machine.
pub struct VM {
    /// The register file: 32 signed 32-bit registers.
    pub registers: Vec<i32>,
    /// The bytecode of the program being run.
    pub program: Vec<u8>,
    /// The untyped heap, grown by ALOC.
    pub heap: Vec<u8>,
    /// Byte offset of the next opcode to fetch.
    pub pc: usize,
    /// Remainder of the most recent DIV, as the machine stores it.
    pub remainder: usize,
    /// Result of the most recent comparison instruction.
    pub equal_flag: bool,
}

impl View for VM {
    type V = VmState;

    open spec fn view(&self) -> VmState {
        VmState {
            registers: self.registers@,
            program: self.program@,
            heap: self.heap@,
            pc: self.pc,
            remainder: self.remainder,
            equal_flag: self.equal_flag,
        }
    }
}

/// A register index is valid when it addresses the 32-entry file.
pub open spec fn spec_reg_ok(r: u8) -> bool {
    r < 32
}

/// A signed register value reinterpreted as a program-counter offset,
/// exactly as the machine's `as usize` cast does it.
pub open spec fn spec_i32_as_usize(v: i32) -> usize {
    v as usize
}

impl VmState {
    /// The register file always holds exactly 32 registers.
    pub open spec fn wf(self) -> bool {
        self.registers.len() == 32
    }

    /// This state with the program counter moved to `pc`.
    pub open spec fn with_pc(self, pc: usize) -> VmState {
        VmState { pc, ..self }
    }
}

impl VM {
    /// The register file always holds exactly 32 registers.
    pub open spec fn wf(&self) -> bool {
        self@.wf()
    }

    /// A fresh machine: zeroed registers, empty program and heap.
    pub fn new() -> (vm: VM)
        ensures
            vm.wf(),
            vm@.registers == Seq::new(32, |i: int| 0i32),
            vm@.program == Seq::<u8>::empty(),
            vm@.heap == Seq::<u8>::empty(),
            vm@.pc == 0,
            vm@.remainder == 0,
            vm@.equal_flag == false,
    {
        VM {
            registers: vec![0i32; 32],
            program: Vec::new(),
            heap: Vec::new(),
            pc: 0,
            remainder: 0,
            equal_flag: false,
        }
    }

    /// Append one byte to the program buffer.
    pub fn add_byte(&mut self, byte: u8)
        ensures
            final(self)@ == (VmState { program: old(self)@.program.push(byte), ..old(self)@ }),
    {
        self.program.push(byte);
    }

    /// Append a whole byte buffer to the program.
    pub fn add_bytes(&mut self, bytes: Vec<u8>)
        ensures
            final(self)@ == (VmState { program: old(self)@.program + bytes@, ..old(self)@ }),
    {
        let mut bytes = bytes;
        self.program.append(&mut bytes);
    }

    /// Fetch the opcode byte at the program counter and advance past it.
    pub fn decode_opcode(&mut self) -> (op: Opcode)
        requires
            old(self).pc < old(self).program.len(),
        ensures
            op == spec_opcode_from_byte(old(self)@.program[old(self)@.pc as int]),
            final(self)@ == old(self)@.with_pc((old(self)@.pc + 1) as usize),
    {
        let opcode = Opcode::from_byte(self.program[self.pc]);
        self.pc += 1;
        opcode
    }

    /// Read the operand byte at the program counter and advance past it.
    pub fn next_8_bits(&mut self) -> (b: u8)
        requires
            old(self).pc < old(self).program.len(),
        ensures
            b == old(self)@.program[old(self)@.pc as int],
            final(self)@ == old(self)@.with_pc((old(self)@.pc + 1) as usize),
    {
        let result = self.program[self.pc];
        self.pc += 1;
        result
    }

    /// Read a big-endian 16-bit operand at the program counter and
    /// advance past it.
    pub fn next_16_bits(&mut self) -> (v: u16)
        requires
            old(self).pc + 1 < old(self).program.len(),
        ensures
            v == old(self)@.program[old(self)@.pc as int] * 256 + old(self)@.program[
                old(self)@.pc + 1
            ],
            final(self)@ == old(self)@.with_pc((old(self)@.pc + 2) as usize),
    {
        let hi = self.program[self.pc];
        let lo = self.program[self.pc + 1];
        self.pc += 2;
        (hi as u16) * 256 + (lo as u16)
    }

    /// Whether the program buffer opens with the magic prefix.
    pub fn verify_header(&self) -> (r: bool)
        ensures
            r == spec_header_valid(self@.program),
    {
        if self.program.len() < 4 {
            return false;
        }
        let ok = self.program[0] == 45 && self.program[1] == 50 && self.program[2] == 49
            && self.program[3] == 45;
        proof {
            assert(spec_header_valid(self@.program) ==> self@.program.subrange(0, 4)
                =~= spec_pie_header_prefix());
            if ok {
                assert(self@.program.subrange(0, 4) =~= spec_pie_header_prefix());
            }
        }
        ok
    }
}

/// A program is headed when it is at least four bytes long and opens
/// with the magic prefix.
pub open spec fn spec_header_valid(p: Seq<u8>) -> bool {
    p.len() >= 4 && p.subrange(0, 4) == spec_pie_header_prefix()
}

/// Rust's truncating division on 32-bit registers: quotient toward
/// zero, wrapping on the one overflowing pair (`i32::MIN / -1`).
pub open spec fn spec_trunc_div(a: i32, b: i32) -> i32
    recommends
        b != 0,
{
    if a == i32::MIN && b == -1 {
        i32::MIN
    } else {
        let x = a as int;
        let d = b as int;
        (if x == 0 {
            0int
        } else if x > 0 && d > 0 {
            x / d
        } else if x < 0 && d < 0 {
            (x * -1) / (d * -1)
        } else if x < 0 {
            ((x * -1) / d) * -1
        } else {
            (x / (d * -1)) * -1
        }) as i32
    }
}

/// Rust's truncating remainder on 32-bit registers: same sign as the
/// dividend, zero on the one overflowing pair (`i32::MIN % -1`).
pub open spec fn spec_trunc_rem(a: i32, b: i32) -> i32
    recommends
        b != 0,
{
    if a == i32::MIN && b == -1 {
        0
    } else {
        let x = a as int;
        let d = b as int;
        (if x == 0 {
            0int
        } else if x > 0 && d > 0 {
            x % d
        } else if x < 0 && d < 0 {
            ((x * -1) % (d * -1)) * -1
        } else if x < 0 {
            ((x * -1) % d) * -1
        } else {
            x % (d * -1)
        }) as i32
    }
}

/// The checked division and remainder of the standard library agree
/// with [`spec_trunc_div`] and [`spec_trunc_rem`] whenever the divisor
/// is nonzero and the pair is not the overflowing `i32::MIN / -1`.
proof fn lemma_checked_div_rem(a: i32, b: i32)
    requires
        b != 0,
        !(a == i32::MIN && b == -1),
    ensures
        a.checked_div(b) == Some(spec_trunc_div(a, b)),
        a.checked_rem(b) == Some(spec_trunc_rem(a, b)),
{
    let x = a as int;
    let d = b as int;
    if x > 0 && d > 0 {
        lemma_div_pos_is_pos(x, d);
        lemma_div_nonincreasing(x, d);
    } else if x < 0 && d < 0 {
        lemma_div_pos_is_pos(x * -1, d * -1);
        lemma_div_nonincreasing(x * -1, d * -1);
        if a == i32::MIN {
            lemma_div_is_ordered_by_denominator(x * -1, 2, d * -1);
        }
    } else if x < 0 {
        lemma_div_pos_is_pos(x * -1, d);
        lemma_div_nonincreasing(x * -1, d);
    } else if x > 0 {
        lemma_div_pos_is_pos(x, d * -1);
        lemma_div_nonincreasing(x, d * -1);
    }
}

/// The comparison an instruction performs on two register values.
pub open spec fn spec_compare_op(op: Opcode, v1: i32, v2: i32) -> bool {
    match op {
        Opcode::EQ => v1 == v2,
        Opcode::NEQ => v1 != v2,
        Opcode::GT => v1 > v2,
        Opcode::GTE => v1 >= v2,
        Opcode::LT => v1 < v2,
        Opcode::LTE => v1 <= v2,
        _ => false,
    }
}

/// LOAD: one register byte and a big-endian 16-bit immediate; the
/// register receives the immediate as a non-negative value.
pub open spec fn spec_load(m: VmState) -> (VmState, StepOutcome) {
    if m.program.len() - m.pc < 3 {
        (m, StepOutcome::Error(VmError::TruncatedInstruction))
    } else {
        let r = m.program[m.pc as int];
        let imm = m.program[m.pc + 1] * 256 + m.program[m.pc + 2];
        let m2 = m.with_pc((m.pc + 3) as usize);
        if !spec_reg_ok(r) {
            (m2, StepOutcome::Error(VmError::RegisterOutOfRange))
        } else {
            (
                VmState { registers: m2.registers.update(r as int, imm as i32), ..m2 },
                StepOutcome::Continue,
            )
        }
    }
}

/// ADD, SUB, MUL, DIV: three register bytes; the third register
/// receives the result.  Addition, subtraction and multiplication
/// wrap; division by zero is a fault, and DIV also stores the
/// remainder.
pub open spec fn spec_arith(m: VmState, op: Opcode) -> (VmState, StepOutcome) {
    if m.program.len() - m.pc < 3 {
        (m, StepOutcome::Error(VmError::TruncatedInstruction))
    } else {
        let r1 = m.program[m.pc as int];
        let r2 = m.program[m.pc + 1];
        let r3 = m.program[m.pc + 2];
        let m2 = m.with_pc((m.pc + 3) as usize);
        if !(spec_reg_ok(r1) && spec_reg_ok(r2) && spec_reg_ok(r3)) {
            (m2, StepOutcome::Error(VmError::RegisterOutOfRange))
        } else {
            let v1 = m.registers[r1 as int];
            let v2 = m.registers[r2 as int];
            if op == Opcode::DIV {
                if v2 == 0 {
                    (m2, StepOutcome::Error(VmError::DivideByZero))
                } else {
                    (
                        VmState {
                            registers: m2.registers.update(r3 as int, spec_trunc_div(v1, v2)),
                            remainder: spec_i32_as_usize(spec_trunc_rem(v1, v2)),
                            ..m2
                        },
                        StepOutcome::Continue,
                    )
                }
            } else {
                let res = if op == Opcode::ADD {
                    i32_specs::wrapping_add(v1, v2)
                } else if op == Opcode::SUB {
                    i32_specs::wrapping_sub(v1, v2)
                } else {
                    i32_specs::wrapping_mul(v1, v2)
                };
                (
                    VmState { registers: m2.registers.update(r3 as int, res), ..m2 },
                    StepOutcome::Continue,
                )
            }
        }
    }
}

/// EQ, NEQ, GT, GTE, LT, LTE: two register bytes and one padding
/// byte; the equality flag receives the comparison's result.
pub open spec fn spec_compare(m: VmState, op: Opcode) -> (VmState, StepOutcome) {
    if m.program.len() - m.pc < 3 {
        (m, StepOutcome::Error(VmError::TruncatedInstruction))
    } else {
        let r1 = m.program[m.pc as int];
        let r2 = m.program[m.pc + 1];
        let m2 = m.with_pc((m.pc + 3) as usize);
        if !(spec_reg_ok(r1) && spec_reg_ok(r2)) {
            (m2, StepOutcome::Error(VmError::RegisterOutOfRange))
        } else {
            let v1 = m.registers[r1 as int];
            let v2 = m.registers[r2 as int];
            (VmState { equal_flag: spec_compare_op(op, v1, v2), ..m2 }, StepOutcome::Continue)
        }
    }
}

/// JMP: one register byte; the program counter becomes the register's
/// value, reinterpreted as an absolute byte offset.
pub open spec fn spec_jmp(m: VmState) -> (VmState, StepOutcome) {
    if m.program.len() - m.pc < 1 {
        (m, StepOutcome::Error(VmError::TruncatedInstruction))
    } else {
        let r = m.program[m.pc as int];
        let m2 = m.with_pc((m.pc + 1) as usize);
        if !spec_reg_ok(r) {
            (m2, StepOutcome::Error(VmError::RegisterOutOfRange))
        } else {
            (m.with_pc(spec_i32_as_usize(m.registers[r as int])), StepOutcome::Continue)
        }
    }
}

/// JMPF: one register byte; the program counter moves forward by the
/// register's value, wrapping as the machine's addresses do.
pub open spec fn spec_jmpf(m: VmState) -> (VmState, StepOutcome) {
    if m.program.len() - m.pc < 1 {
        (m, StepOutcome::Error(VmError::TruncatedInstruction))
    } else {
        let r = m.program[m.pc as int];
        let m2 = m.with_pc((m.pc + 1) as usize);
        if !spec_reg_ok(r) {
            (m2, StepOutcome::Error(VmError::RegisterOutOfRange))
        } else {
            (
                m.with_pc(
                    usize_specs::wrapping_add(m2.pc, spec_i32_as_usize(m.registers[r as int])),
                ),
                StepOutcome::Continue,
            )
        }
    }
}

/// JMPB: one register byte; the program counter moves backward by the
/// register's value, wrapping as the machine's addresses do.
pub open spec fn spec_jmpb(m: VmState) -> (VmState, StepOutcome) {
    if m.program.len() - m.pc < 1 {
        (m, StepOutcome::Error(VmError::TruncatedInstruction))
    } else {
        let r = m.program[m.pc as int];
        let m2 = m.with_pc((m.pc + 1) as usize);
        if !spec_reg_ok(r) {
            (m2, StepOutcome::Error(VmError::RegisterOutOfRange))
        } else {
            (
                m.with_pc(
                    usize_specs::wrapping_sub(m2.pc, spec_i32_as_usize(m.registers[r as int])),
                ),
                StepOutcome::Continue,
            )
        }
    }
}

/// JMPE: one register byte and two padding bytes, consumed whether or
/// not the branch is taken, so the counter stays on instruction
/// boundaries; if the equality flag is set, the counter becomes the
/// register's value.
pub open spec fn spec_jmpe(m: VmState) -> (VmState, StepOutcome) {
    if m.program.len() - m.pc < 3 {
        (m, StepOutcome::Error(VmError::TruncatedInstruction))
    } else {
        let r = m.program[m.pc as int];
        let m2 = m.with_pc((m.pc + 3) as usize);
        if !spec_reg_ok(r) {
            (m2, StepOutcome::Error(VmError::RegisterOutOfRange))
        } else if m.equal_flag {
            (m.with_pc(spec_i32_as_usize(m.registers[r as int])), StepOutcome::Continue)
        } else {
            (m2, StepOutcome::Continue)
        }
    }
}

/// NOP: three padding bytes; nothing changes but the counter.
pub open spec fn spec_nop(m: VmState) -> (VmState, StepOutcome) {
    if m.program.len() - m.pc < 3 {
        (m, StepOutcome::Error(VmError::TruncatedInstruction))
    } else {
        (m.with_pc((m.pc + 3) as usize), StepOutcome::Continue)
    }
}

/// ALOC: one register byte; the heap length changes by the register's
/// value, relative to its current length.  A negative target length,
/// or one beyond the address space, is a fault.
pub open spec fn spec_aloc(m: VmState) -> (VmState, StepOutcome) {
    if m.program.len() - m.pc < 1 {
        (m, StepOutcome::Error(VmError::TruncatedInstruction))
    } else {
        let r = m.program[m.pc as int];
        let m2 = m.with_pc((m.pc + 1) as usize);
        if !spec_reg_ok(r) {
            (m2, StepOutcome::Error(VmError::RegisterOutOfRange))
        } else {
            let v = m.registers[r as int];
            let target = m.heap.len() + v;
            if target < 0 || target > usize::MAX {
                (m2, StepOutcome::Error(VmError::HeapOutOfRange))
            } else if v >= 0 {
                (
                    VmState { heap: m.heap + Seq::new(v as nat, |i| 0u8), ..m2 },
                    StepOutcome::Continue,
                )
            } else {
                (VmState { heap: m.heap.subrange(0, target), ..m2 }, StepOutcome::Continue)
            }
        }
    }
}

/// INC, DEC: one register byte and two padding bytes; the register
/// moves by one, wrapping.
pub open spec fn spec_incdec(m: VmState, op: Opcode) -> (VmState, StepOutcome) {
    if m.program.len() - m.pc < 3 {
        (m, StepOutcome::Error(VmError::TruncatedInstruction))
    } else {
        let r = m.program[m.pc as int];
        let m2 = m.with_pc((m.pc + 3) as usize);
        if !spec_reg_ok(r) {
            (m2, StepOutcome::Error(VmError::RegisterOutOfRange))
        } else {
            let v = m.registers[r as int];
            let res = if op == Opcode::INC {
                i32_specs::wrapping_add(v, 1)
            } else {
                i32_specs::wrapping_sub(v, 1)
            };
            (
                VmState { registers: m2.registers.update(r as int, res), ..m2 },
                StepOutcome::Continue,
            )
        }
    }
}

/// One step of the machine: fetch the opcode byte at the program
/// counter (or report `Done` past the program's end), advance past it,
/// and execute.  HLT and IGL consume no operand bytes; every other
/// opcode consumes exactly the bytes its format defines.
pub open spec fn spec_step(m: VmState) -> (VmState, StepOutcome) {
    if m.pc >= m.program.len() {
        (m, StepOutcome::Done)
    } else {
        let op = spec_opcode_from_byte(m.program[m.pc as int]);
        let m1 = m.with_pc((m.pc + 1) as usize);
        match op {
            Opcode::LOAD => spec_load(m1),
            Opcode::ADD => spec_arith(m1, op),
            Opcode::SUB => spec_arith(m1, op),
            Opcode::MUL => spec_arith(m1, op),
            Opcode::DIV => spec_arith(m1, op),
            Opcode::HLT => (m1, StepOutcome::Halt),
            Opcode::JMP => spec_jmp(m1),
            Opcode::JMPF => spec_jmpf(m1),
            Opcode::JMPB => spec_jmpb(m1),
            Opcode::EQ => spec_compare(m1, op),
            Opcode::NEQ => spec_compare(m1, op),
            Opcode::GT => spec_compare(m1, op),
            Opcode::GTE => spec_compare(m1, op),
            Opcode::LT => spec_compare(m1, op),
            Opcode::LTE => spec_compare(m1, op),
            Opcode::JMPE => spec_jmpe(m1),
            Opcode::NOP => spec_nop(m1),
            Opcode::ALOC => spec_aloc(m1),
            Opcode::INC => spec_incdec(m1, op),
            Opcode::DEC => spec_incdec(m1, op),
            Opcode::IGL => (m1, StepOutcome::Error(VmError::IllegalOpcode)),
        }
    }
}

impl VM {
    fn op_load(&mut self) -> (r: StepOutcome)
        requires
            old(self).wf(),
            old(self).pc <= old(self).program.len(),
        ensures
            final(self).wf(),
            (final(self)@, r) == spec_load(old(self)@),
    {
        if self.program.len() - self.pc < 3 {
            return StepOutcome::Error(VmError::TruncatedInstruction);
        }
        let target = self.next_8_bits();
        let number = self.next_16_bits();
        if target >= 32 {
            return StepOutcome::Error(VmError::RegisterOutOfRange);
        }
        self.registers[target as usize] = number as i32;
        StepOutcome::Continue
    }

    fn op_arith(&mut self, op: Opcode) -> (r: StepOutcome)
        requires
            old(self).wf(),
            old(self).pc <= old(self).program.len(),
            op == Opcode::ADD || op == Opcode::SUB || op == Opcode::MUL || op == Opcode::DIV,
        ensures
            final(self).wf(),
            (final(self)@, r) == spec_arith(old(self)@, op),
    {
        if self.program.len() - self.pc < 3 {
            return StepOutcome::Error(VmError::TruncatedInstruction);
        }
        let r1 = self.next_8_bits();
        let r2 = self.next_8_bits();
        let r3 = self.next_8_bits();
        if r1 >= 32 || r2 >= 32 || r3 >= 32 {
            return StepOutcome::Error(VmError::RegisterOutOfRange);
        }
        let v1 = self.registers[r1 as usize];
        let v2 = self.registers[r2 as usize];
        match op {
            Opcode::ADD => {
                self.registers[r3 as usize] = v1.wrapping_add(v2);
            },
            Opcode::SUB => {
                self.registers[r3 as usize] = v1.wrapping_sub(v2);
            },
            Opcode::MUL => {
                self.registers[r3 as usize] = v1.wrapping_mul(v2);
            },
            _ => {
                if v2 == 0 {
                    return StepOutcome::Error(VmError::DivideByZero);
                }
                if v1 == i32::MIN && v2 == -1 {
                    self.registers[r3 as usize] = i32::MIN;
                    self.remainder = 0;
                } else {
                    proof {
                        lemma_checked_div_rem(v1, v2);
                    }
                    let quotient = v1.checked_div(v2).unwrap();
                    let rem = v1.checked_rem(v2).unwrap();
                    self.registers[r3 as usize] = quotient;
                    self.remainder = #[verifier::truncate] (rem as usize);
                }
            },
        }
        StepOutcome::Continue
    }

    fn op_compare(&mut self, op: Opcode) -> (r: StepOutcome)
        requires
            old(self).wf(),
            old(self).pc <= old(self).program.len(),
            op == Opcode::EQ || op == Opcode::NEQ || op == Opcode::GT || op == Opcode::GTE || op
                == Opcode::LT || op == Opcode::LTE,
        ensures
            final(self).wf(),
            (final(self)@, r) == spec_compare(old(self)@, op),
    {
        if self.program.len() - self.pc < 3 {
            return StepOutcome::Error(VmError::TruncatedInstruction);
        }
        let r1 = self.next_8_bits();
        let r2 = self.next_8_bits();
        self.next_8_bits();
        if r1 >= 32 || r2 >= 32 {
            return StepOutcome::Error(VmError::RegisterOutOfRange);
        }
        let v1 = self.registers[r1 as usize];
        let v2 = self.registers[r2 as usize];
        self.equal_flag = match op {
            Opcode::EQ => v1 == v2,
            Opcode::NEQ => v1 != v2,
            Opcode::GT => v1 > v2,
            Opcode::GTE => v1 >= v2,
            Opcode::LT => v1 < v2,
            _ => v1 <= v2,
        };
        StepOutcome::Continue
    }

    fn op_jmp(&mut self) -> (r: StepOutcome)
        requires
            old(self).wf(),
            old(self).pc <= old(self).program.len(),
        ensures
            final(self).wf(),
            (final(self)@, r) == spec_jmp(old(self)@),
    {
        if self.program.len() - self.pc < 1 {
            return StepOutcome::Error(VmError::TruncatedInstruction);
        }
        let reg = self.next_8_bits();
        if reg >= 32 {
            return StepOutcome::Error(VmError::RegisterOutOfRange);
        }
        let target = self.registers[reg as usize];
        self.pc = #[verifier::truncate] (target as usize);
        StepOutcome::Continue
    }

    fn op_jmpf(&mut self) -> (r: StepOutcome)
        requires
            old(self).wf(),
            old(self).pc <= old(self).program.len(),
        ensures
            final(self).wf(),
            (final(self)@, r) == spec_jmpf(old(self)@),
    {
        if self.program.len() - self.pc < 1 {
            return StepOutcome::Error(VmError::TruncatedInstruction);
        }
        let reg = self.next_8_bits();
        if reg >= 32 {
            return StepOutcome::Error(VmError::RegisterOutOfRange);
        }
        let value = self.registers[reg as usize];
        self.pc = self.pc.wrapping_add(#[verifier::truncate] (value as usize));
        StepOutcome::Continue
    }

    fn op_jmpb(&mut self) -> (r: StepOutcome)
        requires
            old(self).wf(),
            old(self).pc <= old(self).program.len(),
        ensures
            final(self).wf(),
            (final(self)@, r) == spec_jmpb(old(self)@),
    {
        if self.program.len() - self.pc < 1 {
            return StepOutcome::Error(VmError::TruncatedInstruction);
        }
        let reg = self.next_8_bits();
        if reg >= 32 {
            return StepOutcome::Error(VmError::RegisterOutOfRange);
        }
        let value = self.registers[reg as usize];
        self.pc = self.pc.wrapping_sub(#[verifier::truncate] (value as usize));
        StepOutcome::Continue
    }

    fn op_jmpe(&mut self) -> (r: StepOutcome)
        requires
            old(self).wf(),
            old(self).pc <= old(self).program.len(),
        ensures
            final(self).wf(),
            (final(self)@, r) == spec_jmpe(old(self)@),
    {
        if self.program.len() - self.pc < 3 {
            return StepOutcome::Error(VmError::TruncatedInstruction);
        }
        let reg = self.next_8_bits();
        self.next_8_bits();
        self.next_8_bits();
        if reg >= 32 {
            return StepOutcome::Error(VmError::RegisterOutOfRange);
        }
        if self.equal_flag {
            let target = self.registers[reg as usize];
            self.pc = #[verifier::truncate] (target as usize);
        }
        StepOutcome::Continue
    }

    fn op_nop(&mut self) -> (r: StepOutcome)
        requires
            old(self).wf(),
            old(self).pc <= old(self).program.len(),
        ensures
            final(self).wf(),
            (final(self)@, r) == spec_nop(old(self)@),
    {
        if self.program.len() - self.pc < 3 {
            return StepOutcome::Error(VmError::TruncatedInstruction);
        }
        self.next_8_bits();
        self.next_8_bits();
        self.next_8_bits();
        StepOutcome::Continue
    }

    fn op_aloc(&mut self) -> (r: StepOutcome)
        requires
            old(self).wf(),
            old(self).pc <= old(self).program.len(),
        ensures
            final(self).wf(),
            (final(self)@, r) == spec_aloc(old(self)@),
    {
        if self.program.len() - self.pc < 1 {
            return StepOutcome::Error(VmError::TruncatedInstruction);
        }
        let reg = self.next_8_bits();
        if reg >= 32 {
            return StepOutcome::Error(VmError::RegisterOutOfRange);
        }
        let bytes = self.registers[reg as usize];
        if bytes >= 0 {
            let grow = bytes as usize;
            match self.heap.len().checked_add(grow) {
                None => StepOutcome::Error(VmError::HeapOutOfRange),
                Some(target_len) => {
                    let ghost pre = self@;
                    while self.heap.len() < target_len
                        invariant
                            pre.heap.len() <= self.heap@.len() <= target_len,
                            self.heap@ == pre.heap + Seq::new(
                                (self.heap@.len() - pre.heap.len()) as nat,
                                |i: int| 0u8,
                            ),
                            self@ == (VmState { heap: self.heap@, ..pre }),
                        decreases target_len - self.heap.len(),
                    {
                        self.heap.push(0);
                        proof {
                            assert(self.heap@ =~= pre.heap + Seq::new(
                                (self.heap@.len() - pre.heap.len()) as nat,
                                |i: int| 0u8,
                            ));
                        }
                    }
                    proof {
                        assert(self.heap@ =~= pre.heap + Seq::new(grow as nat, |i: int| 0u8));
                        assert(self@ =~= (VmState { heap: self.heap@, ..pre }));
                    }
                    StepOutcome::Continue
                },
            }
        } else {
            let shrink = (-(bytes as i64)) as usize;
            if shrink > self.heap.len() {
                return StepOutcome::Error(VmError::HeapOutOfRange);
            }
            let target_len = self.heap.len() - shrink;
            self.heap.truncate(target_len);
            StepOutcome::Continue
        }
    }

    fn op_incdec(&mut self, op: Opcode) -> (r: StepOutcome)
        requires
            old(self).wf(),
            old(self).pc <= old(self).program.len(),
            op == Opcode::INC || op == Opcode::DEC,
        ensures
            final(self).wf(),
            (final(self)@, r) == spec_incdec(old(self)@, op),
    {
        if self.program.len() - self.pc < 3 {
            return StepOutcome::Error(VmError::TruncatedInstruction);
        }
        let reg = self.next_8_bits();
        self.next_8_bits();
        self.next_8_bits();
        if reg >= 32 {
            return StepOutcome::Error(VmError::RegisterOutOfRange);
        }
        let value = self.registers[reg as usize];
        self.registers[reg as usize] = if matches!(op, Opcode::INC) {
            value.wrapping_add(1)
        } else {
            value.wrapping_sub(1)
        };
        StepOutcome::Continue
    }

    /// Perform one fetch-decode-execute step, exactly as [`spec_step`]
    /// describes it, and report the outcome.
    pub fn execute_instruction(&mut self) -> (r: StepOutcome)
        requires
            old(self).wf(),
        ensures
            final(self).wf(),
            (final(self)@, r) == spec_step(old(self)@),
    {
        if self.pc >= self.program.len() {
            return StepOutcome::Done;
        }
        let op = self.decode_opcode();
        match op {
            Opcode::LOAD => self.op_load(),
            Opcode::ADD => self.op_arith(op),
            Opcode::SUB => self.op_arith(op),
            Opcode::MUL => self.op_arith(op),
            Opcode::DIV => self.op_arith(op),
            Opcode::HLT => StepOutcome::Halt,
            Opcode::JMP => self.op_jmp(),
            Opcode::JMPF => self.op_jmpf(),
            Opcode::JMPB => self.op_jmpb(),
            Opcode::EQ => self.op_compare(op),
            Opcode::NEQ => self.op_compare(op),
            Opcode::GT => self.op_compare(op),
            Opcode::GTE => self.op_compare(op),
            Opcode::LT => self.op_compare(op),
            Opcode::LTE => self.op_compare(op),
            Opcode::JMPE => self.op_jmpe(),
            Opcode::NOP => self.op_nop(),
            Opcode::ALOC => self.op_aloc(),
            Opcode::INC => self.op_incdec(op),
            Opcode::DEC => self.op_incdec(op),
            Opcode::IGL => StepOutcome::Error(VmError::IllegalOpcode),
        }
    }

    /// Perform exactly one step, discarding the outcome.
    pub fn run_once(&mut self)
        requires
            old(self).wf(),
        ensures
            final(self).wf(),
            final(self)@ == spec_step(old(self)@).0,
    {
        self.execute_instruction();
    }

    /// Validate the program header and position the counter at the
    /// first body byte.  A program that does not open with the magic
    /// prefix is refused before any instruction executes: the machine
    /// is left exactly as it was.
    pub fn start(&mut self) -> (r: Result<(), VmError>)
        requires
            old(self).wf(),
        ensures
            final(self).wf(),
            spec_header_valid(old(self)@.program) ==> r == Ok::<(), VmError>(()) && final(self)@
                == old(self)@.with_pc((PIE_HEADER_LENGTH + 1) as usize),
            !spec_header_valid(old(self)@.program) ==> r == Err::<(), VmError>(
                VmError::InvalidHeader,
            ) && final(self)@ == old(self)@,
    {
        if !self.verify_header() {
            return Err(VmError::InvalidHeader);
        }
        self.pc = PIE_HEADER_LENGTH + 1;
        Ok(())
    }
}

/// Law: a JMPE instruction consumes its fixed operand width whether or
/// not the branch is taken.  With the equality flag set, the program
/// counter becomes the register's value; with it clear, the counter
/// advances by exactly the four-byte instruction width — the padding
/// bytes are consumed, never left to be reread as an opcode.
pub proof fn lemma_jmpe_fixed_width(m: VmState)
    requires
        m.wf(),
        m.program.len() <= usize::MAX,
        m.program.len() - m.pc >= 4,
        spec_opcode_from_byte(m.program[m.pc as int]) == Opcode::JMPE,
        spec_reg_ok(m.program[m.pc + 1]),
    ensures
        spec_step(m).1 == StepOutcome::Continue,
        m.equal_flag ==> spec_step(m).0.pc == spec_i32_as_usize(
            m.registers[m.program[m.pc + 1] as int],
        ),
        !m.equal_flag ==> spec_step(m).0.pc == m.pc + 4,
        spec_step(m).0.registers == m.registers,
        spec_step(m).0.heap == m.heap,
{
}

/// Law: a byte that decodes to no defined operation halts the machine
/// at the very next instruction boundary.  The program counter
/// advances by exactly one — only the opcode byte is consumed, since
/// an unknown instruction defines no operand bytes — and nothing else
/// in the machine changes.
pub proof fn lemma_illegal_opcode_halts(m: VmState)
    requires
        m.pc < m.program.len(),
        spec_opcode_from_byte(m.program[m.pc as int]) == Opcode::IGL,
    ensures
        spec_step(m).1 == StepOutcome::Error(VmError::IllegalOpcode),
        spec_step(m).0 == m.with_pc((m.pc + 1) as usize),
{
}

/// Law: ALOC grows the heap by exactly the register's value, relative
/// to the heap's prior length, whatever that prior length is; running
/// it twice with half the value therefore grows the heap by the same
/// total as running it once with the whole value.
pub proof fn lemma_aloc_grows_heap(m: VmState)
    requires
        m.wf(),
        m.program.len() <= usize::MAX,
        m.program.len() - m.pc >= 2,
        spec_opcode_from_byte(m.program[m.pc as int]) == Opcode::ALOC,
        spec_reg_ok(m.program[m.pc + 1]),
        m.registers[m.program[m.pc + 1] as int] >= 0,
        m.heap.len() + m.registers[m.program[m.pc + 1] as int] <= usize::MAX,
    ensures
        spec_step(m).1 == StepOutcome::Continue,
        spec_step(m).0.heap.len() == m.heap.len() + m.registers[m.program[m.pc + 1] as int],
        spec_step(m).0.registers == m.registers,
{
}

} // verus!

