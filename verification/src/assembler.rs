//! The assembler: tokens, the binary program header, and assembly errors.
//!
//! Source text is parsed into [`AssemblerInstruction`]s
//! (see [`instruction_parsers`]), which encode to exactly four bytes each.
//! A finished program file may carry a header: the four-byte magic prefix
//! followed by zero padding, with the instruction body starting at offset
//! `PIE_HEADER_LENGTH + 1`.
//!
//! [`AssemblerInstruction`]: instruction_parsers::AssemblerInstruction

pub mod instruction_parsers;
pub mod opcode_parsers;
pub mod operand_parsers;
pub mod program_parsers;
pub mod register_parsers;
pub mod symbols;

use vstd::prelude::*;

use crate::assembler::program_parsers::{program, spec_parse_source, spec_program_bytes,
    spec_split_lines};
use crate::assembler::symbols::SymbolTable;
use crate::instruction::Opcode;

verus! {

/// Number of the last zero-padded byte of the program header; the
/// instruction body begins at the following offset.
pub const PIE_HEADER_LENGTH: usize = 64;

/// The magic prefix that marks a program file.
pub open spec fn spec_pie_header_prefix() -> Seq<u8> {
    seq![45u8, 50u8, 49u8, 45u8]
}

/// The magic prefix as bytes.
pub fn pie_header_prefix() -> (v: Vec<u8>)
    ensures
        v@ == spec_pie_header_prefix(),
{
    let mut v: Vec<u8> = Vec::new();
    v.push(45);
    v.push(50);
    v.push(49);
    v.push(45);
    proof {
        assert(v@ =~= spec_pie_header_prefix());
    }
    v
}

/// The whole program header: the magic prefix, zero-padded through
/// offset `PIE_HEADER_LENGTH`.
pub open spec fn spec_pie_header() -> Seq<u8> {
    spec_pie_header_prefix() + Seq::new((PIE_HEADER_LENGTH + 1 - 4) as nat, |i: int| 0u8)
}

/// Emit the program header: the magic prefix, zero-padded through
/// offset `PIE_HEADER_LENGTH`, so the instruction body begins at the
/// offset after it.
pub fn write_pie_header() -> (v: Vec<u8>)
    ensures
        v@ == spec_pie_header(),
        v@.len() == PIE_HEADER_LENGTH + 1,
{
    let mut header = pie_header_prefix();
    proof {
        assert(header@ =~= spec_pie_header_prefix() + Seq::new(
            (header@.len() - 4) as nat,
            |i: int| 0u8,
        ));
    }
    while header.len() < PIE_HEADER_LENGTH + 1
        invariant
            4 <= header@.len() <= PIE_HEADER_LENGTH + 1,
            header@ == spec_pie_header_prefix() + Seq::new(
                (header@.len() - 4) as nat,
                |i: int| 0u8,
            ),
        decreases PIE_HEADER_LENGTH + 1 - header.len(),
    {
        header.push(0);
        proof {
            assert(header@ =~= spec_pie_header_prefix() + Seq::new(
                (header@.len() - 4) as nat,
                |i: int| 0u8,
            ));
        }
    }
    proof {
        assert(header@ =~= spec_pie_header());
    }
    header
}

/// One lexical unit of assembly source: an operation, a register
/// reference `$n`, or a signed integer literal `#n`.
#[derive(Debug, Clone, Copy, PartialEq)]
pub enum Token {
    Op { code: Opcode },
    Register { reg_num: u8 },
    IntegerOperand { value: i32 },
}

/// A failed parse: the text matched no token or instruction shape.
/// The input is handed back untouched as the unparsed remainder.
#[derive(Debug, Clone, PartialEq)]
pub struct ParserError {
    pub remainder: String,
}

/// A fatal assembly fault.  The encoder emits no bytes for an
/// instruction that raises one of these.
#[derive(Debug, Clone, PartialEq)]
pub enum AssemblerError {
    /// A source line matched none of the instruction shapes.
    UnparseableLine { line_index: usize, line: String },
    /// The opcode slot of an instruction held a register or integer token.
    InvalidOpcodeSlot,
    /// An operand slot of an instruction held an opcode token.
    InvalidOperandSlot,
    /// A register operand named an index outside 0..=31.
    RegisterOutOfRange,
    /// The operands would not fit the fixed four-byte instruction width.
    OverlongInstruction,
    /// A label name was bound twice in the symbol table.
    DuplicateSymbol { name: String },
}

/// The assembler: parses source text and encodes it, headed, into the
/// binary program format.  It owns the symbol table that label-using
/// operands resolve through.
pub struct Assembler {
    pub symbol_table: SymbolTable,
}

impl Assembler {
    /// A fresh assembler with an empty symbol table.
    pub fn new() -> (a: Assembler)
        ensures
            a.symbol_table.symbols@ == Seq::<crate::assembler::symbols::Symbol>::empty(),
    {
        Assembler { symbol_table: SymbolTable::new() }
    }

    /// Compile source text into a complete program file: the header,
    /// then every instruction's four bytes in source order.  The
    /// first unparseable line, or the first instruction that cannot
    /// encode, fails the compile; nothing partial is emitted.
    pub fn assemble(&mut self, source: &str) -> (r: Result<Vec<u8>, AssemblerError>)
        ensures
            match r {
                Ok(v) => (spec_parse_source(source@) matches Ok(instrs) && (spec_program_bytes(
                    instrs,
                ) matches Ok(body) && v@ == spec_pie_header() + body)),
                Err(e) => match spec_parse_source(source@) {
                    Ok(instrs) => spec_program_bytes(instrs) == Err::<Seq<u8>, AssemblerError>(e),
                    Err(i) => (e matches (AssemblerError::UnparseableLine { line_index, line })
                        && line_index == i && line@ == spec_split_lines(source@)[i]),
                },
            },
    {
        let parsed = match program(source) {
            Ok(p) => p,
            Err(e) => {
                return Err(e);
            },
        };
        let body = match parsed.to_bytes(&self.symbol_table) {
            Ok(b) => b,
            Err(e) => {
                return Err(e);
            },
        };
        let mut out = write_pie_header();
        let mut body = body;
        out.append(&mut body);
        Ok(out)
    }
}

} // verus!
