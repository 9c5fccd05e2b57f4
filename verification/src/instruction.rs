//! The instruction set: symbolic opcodes and their one-byte codes.
//!
//! The mapping from bytes to opcodes is total: every byte decodes to some
//! opcode, and any byte that carries no defined operation decodes to the
//! dedicated `IGL` (illegal) sentinel.  Mnemonic text resolves the same
//! way: an unrecognized name yields `IGL` rather than a parse error, so
//! "unknown instruction" surfaces when the machine executes it.

use vstd::prelude::*;

use crate::text::str_eq;

verus! {

/// A virtual-machine operation, plus the `IGL` sentinel for anything
/// that is not a defined operation.
#[derive(Debug, Clone, Copy, PartialEq, Eq)]
pub enum Opcode {
    LOAD,
    ADD,
    SUB,
    MUL,
    DIV,
    HLT,
    JMP,
    JMPF,
    JMPB,
    EQ,
    NEQ,
    GT,
    GTE,
    LT,
    LTE,
    JMPE,
    NOP,
    ALOC,
    INC,
    DEC,
    IGL,
}

/// The one-byte code of each opcode.
pub open spec fn spec_opcode_code(op: Opcode) -> u8 {
    match op {
        Opcode::LOAD => 0,
        Opcode::ADD => 1,
        Opcode::SUB => 2,
        Opcode::MUL => 3,
        Opcode::DIV => 4,
        Opcode::HLT => 5,
        Opcode::JMP => 6,
        Opcode::JMPF => 7,
        Opcode::JMPB => 8,
        Opcode::EQ => 9,
        Opcode::NEQ => 10,
        Opcode::GT => 11,
        Opcode::GTE => 12,
        Opcode::LT => 13,
        Opcode::LTE => 14,
        Opcode::JMPE => 15,
        Opcode::NOP => 16,
        Opcode::ALOC => 17,
        Opcode::INC => 18,
        Opcode::DEC => 19,
        Opcode::IGL => 20,
    }
}

/// Total decoding of a byte: unmapped bytes fall back to `IGL`.
pub open spec fn spec_opcode_from_byte(b: u8) -> Opcode {
    if b == 0 {
        Opcode::LOAD
    } else if b == 1 {
        Opcode::ADD
    } else if b == 2 {
        Opcode::SUB
    } else if b == 3 {
        Opcode::MUL
    } else if b == 4 {
        Opcode::DIV
    } else if b == 5 {
        Opcode::HLT
    } else if b == 6 {
        Opcode::JMP
    } else if b == 7 {
        Opcode::JMPF
    } else if b == 8 {
        Opcode::JMPB
    } else if b == 9 {
        Opcode::EQ
    } else if b == 10 {
        Opcode::NEQ
    } else if b == 11 {
        Opcode::GT
    } else if b == 12 {
        Opcode::GTE
    } else if b == 13 {
        Opcode::LT
    } else if b == 14 {
        Opcode::LTE
    } else if b == 15 {
        Opcode::JMPE
    } else if b == 16 {
        Opcode::NOP
    } else if b == 17 {
        Opcode::ALOC
    } else if b == 18 {
        Opcode::INC
    } else if b == 19 {
        Opcode::DEC
    } else {
        Opcode::IGL
    }
}

/// Total resolution of a mnemonic: unrecognized names fall back to `IGL`.
pub open spec fn spec_opcode_from_mnemonic(s: Seq<char>) -> Opcode {
    if s == "load"@ {
        Opcode::LOAD
    } else if s == "add"@ {
        Opcode::ADD
    } else if s == "sub"@ {
        Opcode::SUB
    } else if s == "mul"@ {
        Opcode::MUL
    } else if s == "div"@ {
        Opcode::DIV
    } else if s == "hlt"@ {
        Opcode::HLT
    } else if s == "jmp"@ {
        Opcode::JMP
    } else if s == "jmpf"@ {
        Opcode::JMPF
    } else if s == "jmpb"@ {
        Opcode::JMPB
    } else if s == "eq"@ {
        Opcode::EQ
    } else if s == "neq"@ {
        Opcode::NEQ
    } else if s == "gt"@ {
        Opcode::GT
    } else if s == "gte"@ {
        Opcode::GTE
    } else if s == "lt"@ {
        Opcode::LT
    } else if s == "lte"@ {
        Opcode::LTE
    } else if s == "jmpe"@ {
        Opcode::JMPE
    } else if s == "nop"@ {
        Opcode::NOP
    } else if s == "aloc"@ {
        Opcode::ALOC
    } else if s == "inc"@ {
        Opcode::INC
    } else if s == "dec"@ {
        Opcode::DEC
    } else {
        Opcode::IGL
    }
}

impl Opcode {
    /// The numeric code emitted for this opcode in byte 0 of an
    /// encoded instruction.
    pub fn code(self) -> (b: u8)
        ensures
            b == spec_opcode_code(self),
    {
        match self {
            Opcode::LOAD => 0,
            Opcode::ADD => 1,
            Opcode::SUB => 2,
            Opcode::MUL => 3,
            Opcode::DIV => 4,
            Opcode::HLT => 5,
            Opcode::JMP => 6,
            Opcode::JMPF => 7,
            Opcode::JMPB => 8,
            Opcode::EQ => 9,
            Opcode::NEQ => 10,
            Opcode::GT => 11,
            Opcode::GTE => 12,
            Opcode::LT => 13,
            Opcode::LTE => 14,
            Opcode::JMPE => 15,
            Opcode::NOP => 16,
            Opcode::ALOC => 17,
            Opcode::INC => 18,
            Opcode::DEC => 19,
            Opcode::IGL => 20,
        }
    }

    /// Decode a byte; never fails, unmapped bytes yield `IGL`.
    pub fn from_byte(b: u8) -> (op: Opcode)
        ensures
            op == spec_opcode_from_byte(b),
    {
        match b {
            0 => Opcode::LOAD,
            1 => Opcode::ADD,
            2 => Opcode::SUB,
            3 => Opcode::MUL,
            4 => Opcode::DIV,
            5 => Opcode::HLT,
            6 => Opcode::JMP,
            7 => Opcode::JMPF,
            8 => Opcode::JMPB,
            9 => Opcode::EQ,
            10 => Opcode::NEQ,
            11 => Opcode::GT,
            12 => Opcode::GTE,
            13 => Opcode::LT,
            14 => Opcode::LTE,
            15 => Opcode::JMPE,
            16 => Opcode::NOP,
            17 => Opcode::ALOC,
            18 => Opcode::INC,
            19 => Opcode::DEC,
            _ => Opcode::IGL,
        }
    }

    /// Resolve a mnemonic; never fails, unrecognized names yield `IGL`.
    pub fn from_mnemonic(s: &str) -> (op: Opcode)
        ensures
            op == spec_opcode_from_mnemonic(s@),
    {
        if str_eq(s, "load") {
            Opcode::LOAD
        } else if str_eq(s, "add") {
            Opcode::ADD
        } else if str_eq(s, "sub") {
            Opcode::SUB
        } else if str_eq(s, "mul") {
            Opcode::MUL
        } else if str_eq(s, "div") {
            Opcode::DIV
        } else if str_eq(s, "hlt") {
            Opcode::HLT
        } else if str_eq(s, "jmp") {
            Opcode::JMP
        } else if str_eq(s, "jmpf") {
            Opcode::JMPF
        } else if str_eq(s, "jmpb") {
            Opcode::JMPB
        } else if str_eq(s, "eq") {
            Opcode::EQ
        } else if str_eq(s, "neq") {
            Opcode::NEQ
        } else if str_eq(s, "gt") {
            Opcode::GT
        } else if str_eq(s, "gte") {
            Opcode::GTE
        } else if str_eq(s, "lt") {
            Opcode::LT
        } else if str_eq(s, "lte") {
            Opcode::LTE
        } else if str_eq(s, "jmpe") {
            Opcode::JMPE
        } else if str_eq(s, "nop") {
            Opcode::NOP
        } else if str_eq(s, "aloc") {
            Opcode::ALOC
        } else if str_eq(s, "inc") {
            Opcode::INC
        } else if str_eq(s, "dec") {
            Opcode::DEC
        } else {
            Opcode::IGL
        }
    }
}

/// Law: decoding is a left inverse of encoding.  Every opcode, the
/// `IGL` sentinel included, comes back unchanged from a trip through
/// its one-byte code; and decoding itself is total, since
/// `spec_opcode_from_byte` maps every one of the 256 bytes to an opcode.
pub proof fn lemma_opcode_round_trip(op: Opcode)
    ensures
        spec_opcode_from_byte(spec_opcode_code(op)) == op,
{
}

} // verus!
