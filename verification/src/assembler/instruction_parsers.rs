//! One parsed instruction and its fixed-width binary encoding.
//!
//! An instruction is an opcode token plus up to three operand tokens.
//! Encoding emits byte 0 for the opcode, one byte per register operand,
//! two big-endian bytes per integer operand (truncated to 16 bits, a
//! deliberate lossy conversion kept for bytecode compatibility), and
//! zero padding out to exactly four bytes.  A token of the wrong kind
//! in any slot, or a register index outside the file, is a fatal
//! encoding error: no bytes are emitted for such an instruction.

use vstd::prelude::*;

use crate::assembler::opcode_parsers::{lex_opcode, spec_lex_opcode};
use crate::assembler::operand_parsers::{lex_integer, spec_lex_integer};
use crate::assembler::register_parsers::{lex_register, spec_lex_register};
use crate::assembler::{AssemblerError, ParserError, Token};
use crate::instruction::spec_opcode_code;

verus! {

/// One source instruction: an opcode slot and three operand slots.
#[derive(Debug, Clone, PartialEq)]
pub struct AssemblerInstruction {
    pub opcode: Token,
    pub operand1: Option<Token>,
    pub operand2: Option<Token>,
    pub operand3: Option<Token>,
}

/// The fault an operand token raises, if any: an opcode may not stand
/// in an operand slot, and a register operand must address the
/// 32-entry file.
pub open spec fn spec_token_err(t: Token) -> Option<AssemblerError> {
    match t {
        Token::Op { code } => Some(AssemblerError::InvalidOperandSlot),
        Token::Register { reg_num } => if reg_num >= 32 {
            Some(AssemblerError::RegisterOutOfRange)
        } else {
            None
        },
        Token::IntegerOperand { value } => None,
    }
}

/// The bytes an operand token encodes to: one byte for a register
/// index, two big-endian bytes for an integer truncated to 16 bits.
pub open spec fn spec_token_bytes(t: Token) -> Seq<u8> {
    match t {
        Token::Op { code } => Seq::empty(),
        Token::Register { reg_num } => seq![reg_num],
        Token::IntegerOperand { value } => seq![
            ((value as u16) / 256) as u8,
            ((value as u16) % 256) as u8,
        ],
    }
}

/// The fault an operand slot raises: an empty slot raises none.
pub open spec fn spec_slot_err(t: Option<Token>) -> Option<AssemblerError> {
    match t {
        None => None,
        Some(tok) => spec_token_err(tok),
    }
}

/// The bytes an operand slot encodes to: an empty slot encodes to none.
pub open spec fn spec_slot_bytes(t: Option<Token>) -> Seq<u8> {
    match t {
        None => Seq::empty(),
        Some(tok) => spec_token_bytes(tok),
    }
}

/// The encoding of a whole instruction: the opcode's code byte, each
/// operand slot's bytes in order, zero-padded to exactly four bytes.
/// Faults are reported in slot order, the opcode slot first.
pub open spec fn spec_to_bytes(i: AssemblerInstruction) -> Result<Seq<u8>, AssemblerError> {
    match i.opcode {
        Token::Op { code } => match spec_slot_err(i.operand1) {
            Some(e) => Err(e),
            None => match spec_slot_err(i.operand2) {
                Some(e) => Err(e),
                None => match spec_slot_err(i.operand3) {
                    Some(e) => Err(e),
                    None => {
                        let body = seq![spec_opcode_code(code)] + spec_slot_bytes(i.operand1)
                            + spec_slot_bytes(i.operand2) + spec_slot_bytes(i.operand3);
                        if body.len() > 4 {
                            Err(AssemblerError::OverlongInstruction)
                        } else {
                            Ok(body + Seq::new((4 - body.len()) as nat, |j: int| 0u8))
                        }
                    },
                },
            },
        },
        _ => Err(AssemblerError::InvalidOpcodeSlot),
    }
}

impl AssemblerInstruction {
    /// Encode this instruction to exactly four bytes, or report the
    /// first encoding fault without emitting anything.
    pub fn to_bytes(&self) -> (r: Result<Vec<u8>, AssemblerError>)
        ensures
            match r {
                Ok(v) => spec_to_bytes(*self) == Ok::<Seq<u8>, AssemblerError>(v@) && v@.len()
                    == 4,
                Err(e) => spec_to_bytes(*self) == Err::<Seq<u8>, AssemblerError>(e),
            },
    {
        let mut results: Vec<u8> = Vec::new();
        match &self.opcode {
            Token::Op { code } => {
                results.push(code.code());
            },
            _ => {
                return Err(AssemblerError::InvalidOpcodeSlot);
            },
        }
        match &self.operand1 {
            Some(token) => match Self::extract_operand(token, &mut results) {
                Ok(_) => {},
                Err(e) => {
                    return Err(e);
                },
            },
            None => {},
        }
        match &self.operand2 {
            Some(token) => match Self::extract_operand(token, &mut results) {
                Ok(_) => {},
                Err(e) => {
                    return Err(e);
                },
            },
            None => {},
        }
        match &self.operand3 {
            Some(token) => match Self::extract_operand(token, &mut results) {
                Ok(_) => {},
                Err(e) => {
                    return Err(e);
                },
            },
            None => {},
        }
        let ghost body = seq![spec_opcode_code(self.opcode->Op_code)] + spec_slot_bytes(
            self.operand1,
        ) + spec_slot_bytes(self.operand2) + spec_slot_bytes(self.operand3);
        proof {
            assert(results@ =~= body);
        }
        if results.len() > 4 {
            return Err(AssemblerError::OverlongInstruction);
        }
        while results.len() < 4
            invariant
                body.len() <= results@.len() <= 4,

                results@ == body + Seq::new((results@.len() - body.len()) as nat, |j: int| 0u8),
            decreases 4 - results.len(),
        {
            results.push(0);
            proof {
                assert(results@ =~= body + Seq::new(
                    (results@.len() - body.len()) as nat,
                    |j: int| 0u8,
                ));
            }
        }
        Ok(results)
    }

    /// Append one operand token's bytes, or report its fault and
    /// append nothing.
    fn extract_operand(t: &Token, results: &mut Vec<u8>) -> (r: Result<(), AssemblerError>)
        ensures
            match r {
                Ok(_) => spec_token_err(*t) == None::<AssemblerError> && final(results)@ == old(
                    results,
                )@ + spec_token_bytes(*t),
                Err(e) => spec_token_err(*t) == Some(e) && final(results)@ == old(results)@,
            },
    {
        match t {
            Token::Register { reg_num } => {
                if *reg_num >= 32 {
                    return Err(AssemblerError::RegisterOutOfRange);
                }
                results.push(*reg_num);
                proof {
                    assert(results@ =~= old(results)@ + spec_token_bytes(*t));
                }
                Ok(())
            },
            Token::IntegerOperand { value } => {
                let converted = #[verifier::truncate] (*value as u16);
                results.push((converted / 256) as u8);
                results.push((converted % 256) as u8);
                proof {
                    assert(results@ =~= old(results)@ + spec_token_bytes(*t));
                }
                Ok(())
            },
            Token::Op { .. } => Err(AssemblerError::InvalidOperandSlot),
        }
    }
}

/// Shape one: opcode, register, integer operand (a load of an
/// immediate value into a register).
pub open spec fn spec_instruction_one(s: Seq<char>, i: int) -> Option<(
    AssemblerInstruction,
    int,
)> {
    match spec_lex_opcode(s, i) {
        None => None,
        Some((o, p1)) => match spec_lex_register(s, p1) {
            None => None,
            Some((r, p2)) => match spec_lex_integer(s, p2) {
                None => None,
                Some((v, p3)) => Some(
                    (
                        AssemblerInstruction {
                            opcode: o,
                            operand1: Some(r),
                            operand2: Some(v),
                            operand3: None,
                        },
                        p3,
                    ),
                ),
            },
        },
    }
}

/// Shape two: a bare opcode.  The cursor must reach the end of the
/// text, so that this shape never swallows a line that actually
/// carries operands.
pub open spec fn spec_instruction_two(s: Seq<char>, i: int) -> Option<(
    AssemblerInstruction,
    int,
)> {
    match spec_lex_opcode(s, i) {
        None => None,
        Some((o, p1)) => if p1 == s.len() {
            Some(
                (
                    AssemblerInstruction {
                        opcode: o,
                        operand1: None,
                        operand2: None,
                        operand3: None,
                    },
                    p1,
                ),
            )
        } else {
            None
        },
    }
}

/// Shape three: opcode and three registers (the arithmetic form).
pub open spec fn spec_instruction_three(s: Seq<char>, i: int) -> Option<(
    AssemblerInstruction,
    int,
)> {
    match spec_lex_opcode(s, i) {
        None => None,
        Some((o, p1)) => match spec_lex_register(s, p1) {
            None => None,
            Some((r1, p2)) => match spec_lex_register(s, p2) {
                None => None,
                Some((r2, p3)) => match spec_lex_register(s, p3) {
                    None => None,
                    Some((r3, p4)) => Some(
                        (
                            AssemblerInstruction {
                                opcode: o,
                                operand1: Some(r1),
                                operand2: Some(r2),
                                operand3: Some(r3),
                            },
                            p4,
                        ),
                    ),
                },
            },
        },
    }
}

/// The three shapes in their fixed priority order; the first that
/// matches is taken.
pub open spec fn spec_instruction(s: Seq<char>, i: int) -> Option<(AssemblerInstruction, int)> {
    match spec_instruction_one(s, i) {
        Some(r) => Some(r),
        None => match spec_instruction_two(s, i) {
            Some(r) => Some(r),
            None => spec_instruction_three(s, i),
        },
    }
}

/// A whole line parses to the first shape, in priority order, that
/// consumes the line entirely.
pub open spec fn spec_parse_line(line: Seq<char>) -> Option<AssemblerInstruction> {
    match spec_instruction_one(line, 0) {
        Some((instr, p)) if p == line.len() => Some(instr),
        _ => match spec_instruction_two(line, 0) {
            Some((instr, p)) if p == line.len() => Some(instr),
            _ => match spec_instruction_three(line, 0) {
                Some((instr, p)) if p == line.len() => Some(instr),
                _ => None,
            },
        },
    }
}

/// Lex shape one starting at `from`.
pub fn lex_instruction_one(s: &str, from: usize) -> (r: Option<(AssemblerInstruction, usize)>)
    requires
        from <= s@.len(),
    ensures
        match r {
            Some((instr, p)) => spec_instruction_one(s@, from as int) == Some((instr, p as int))
                && from <= p <= s@.len(),
            None => spec_instruction_one(s@, from as int) == None::<(AssemblerInstruction, int)>,
        },
{
    let (o, p1) = match lex_opcode(s, from) {
        Some(x) => x,
        None => {
            return None;
        },
    };
    let (reg, p2) = match lex_register(s, p1) {
        Some(x) => x,
        None => {
            return None;
        },
    };
    let (value, p3) = match lex_integer(s, p2) {
        Some(x) => x,
        None => {
            return None;
        },
    };
    Some(
        (
            AssemblerInstruction {
                opcode: o,
                operand1: Some(reg),
                operand2: Some(value),
                operand3: None,
            },
            p3,
        ),
    )
}

/// Lex shape two starting at `from`.
pub fn lex_instruction_two(s: &str, from: usize) -> (r: Option<(AssemblerInstruction, usize)>)
    requires
        from <= s@.len(),
    ensures
        match r {
            Some((instr, p)) => spec_instruction_two(s@, from as int) == Some((instr, p as int))
                && from <= p <= s@.len(),
            None => spec_instruction_two(s@, from as int) == None::<(AssemblerInstruction, int)>,
        },
{
    let (o, p1) = match lex_opcode(s, from) {
        Some(x) => x,
        None => {
            return None;
        },
    };
    if p1 != s.unicode_len() {
        return None;
    }
    Some(
        (
            AssemblerInstruction { opcode: o, operand1: None, operand2: None, operand3: None },
            p1,
        ),
    )
}

/// Lex shape three starting at `from`.
pub fn lex_instruction_three(s: &str, from: usize) -> (r: Option<(AssemblerInstruction, usize)>)
    requires
        from <= s@.len(),
    ensures
        match r {
            Some((instr, p)) => spec_instruction_three(s@, from as int) == Some((instr, p as int))
                && from <= p <= s@.len(),
            None => spec_instruction_three(s@, from as int) == None::<(
                AssemblerInstruction,
                int,
            )>,
        },
{
    let (o, p1) = match lex_opcode(s, from) {
        Some(x) => x,
        None => {
            return None;
        },
    };
    let (r1, p2) = match lex_register(s, p1) {
        Some(x) => x,
        None => {
            return None;
        },
    };
    let (r2, p3) = match lex_register(s, p2) {
        Some(x) => x,
        None => {
            return None;
        },
    };
    let (r3, p4) = match lex_register(s, p3) {
        Some(x) => x,
        None => {
            return None;
        },
    };
    Some(
        (
            AssemblerInstruction {
                opcode: o,
                operand1: Some(r1),
                operand2: Some(r2),
                operand3: Some(r3),
            },
            p4,
        ),
    )
}

/// Parse shape one from the front of `s`; on success, the unparsed
/// remainder and the instruction.
pub fn instruction_one(s: &str) -> (r: Result<(&str, AssemblerInstruction), ParserError>)
    ensures
        match r {
            Ok((rest, instr)) => (spec_instruction_one(s@, 0) matches Some((i, p)) && instr == i
                && rest@ == s@.subrange(p, s@.len() as int)),
            Err(e) => spec_instruction_one(s@, 0) == None::<(AssemblerInstruction, int)>
                && e.remainder@ == s@,
        },
{
    match lex_instruction_one(s, 0) {
        Some((instr, p)) => Ok((s.substring_char(p, s.unicode_len()), instr)),
        None => Err(ParserError { remainder: s.to_owned() }),
    }
}

/// Parse shape two from the front of `s`; on success, the unparsed
/// remainder (always empty, since this shape must reach the end) and
/// the instruction.
pub fn instruction_two(s: &str) -> (r: Result<(&str, AssemblerInstruction), ParserError>)
    ensures
        match r {
            Ok((rest, instr)) => (spec_instruction_two(s@, 0) matches Some((i, p)) && instr == i
                && rest@ == s@.subrange(p, s@.len() as int)),
            Err(e) => spec_instruction_two(s@, 0) == None::<(AssemblerInstruction, int)>
                && e.remainder@ == s@,
        },
{
    match lex_instruction_two(s, 0) {
        Some((instr, p)) => Ok((s.substring_char(p, s.unicode_len()), instr)),
        None => Err(ParserError { remainder: s.to_owned() }),
    }
}

/// Parse shape three from the front of `s`; on success, the unparsed
/// remainder and the instruction.
pub fn instruction_three(s: &str) -> (r: Result<(&str, AssemblerInstruction), ParserError>)
    ensures
        match r {
            Ok((rest, instr)) => (spec_instruction_three(s@, 0) matches Some((i, p)) && instr == i
                && rest@ == s@.subrange(p, s@.len() as int)),
            Err(e) => spec_instruction_three(s@, 0) == None::<(AssemblerInstruction, int)>
                && e.remainder@ == s@,
        },
{
    match lex_instruction_three(s, 0) {
        Some((instr, p)) => Ok((s.substring_char(p, s.unicode_len()), instr)),
        None => Err(ParserError { remainder: s.to_owned() }),
    }
}

/// Parse one instruction from the front of `s`, trying the three
/// shapes in priority order.
pub fn instruction(s: &str) -> (r: Result<(&str, AssemblerInstruction), ParserError>)
    ensures
        match r {
            Ok((rest, instr)) => (spec_instruction(s@, 0) matches Some((i, p)) && instr == i
                && rest@ == s@.subrange(p, s@.len() as int)),
            Err(e) => spec_instruction(s@, 0) == None::<(AssemblerInstruction, int)>
                && e.remainder@ == s@,
        },
{
    let lexed = match lex_instruction_one(s, 0) {
        Some(x) => Some(x),
        None => match lex_instruction_two(s, 0) {
            Some(x) => Some(x),
            None => lex_instruction_three(s, 0),
        },
    };
    match lexed {
        Some((instr, p)) => Ok((s.substring_char(p, s.unicode_len()), instr)),
        None => Err(ParserError { remainder: s.to_owned() }),
    }
}

/// Parse a whole line: the first shape, in priority order, that
/// consumes the line entirely.
pub fn parse_line(line: &str) -> (r: Option<AssemblerInstruction>)
    ensures
        r == spec_parse_line(line@),
{
    let len = line.unicode_len();
    match lex_instruction_one(line, 0) {
        Some((instr, p)) if p == len => {
            return Some(instr);
        },
        _ => {},
    }
    match lex_instruction_two(line, 0) {
        Some((instr, p)) if p == len => {
            return Some(instr);
        },
        _ => {},
    }
    match lex_instruction_three(line, 0) {
        Some((instr, p)) if p == len => {
            return Some(instr);
        },
        _ => {},
    }
    None
}

} // verus!
