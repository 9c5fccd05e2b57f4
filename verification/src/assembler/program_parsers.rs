//! The program parser: line-oriented source into a list of
//! instructions, and the list's binary encoding.
//!
//! Parsing is per line: blank lines are skipped, and every other line
//! must match one instruction shape entirely, else the parse fails
//! with the first offending line.  A source that parses to no
//! instructions at all is a valid, empty program.

use vstd::prelude::*;

use crate::assembler::instruction_parsers::{parse_line, spec_parse_line, spec_to_bytes,
    AssemblerInstruction};
use crate::assembler::symbols::SymbolTable;
use crate::assembler::AssemblerError;
use crate::text::{skip_ws, split_on, spec_skip_ws, spec_split};

verus! {

/// A parsed program: its instructions, in source order.
#[derive(Debug, Clone, PartialEq)]
pub struct Program {
    pub instructions: Vec<AssemblerInstruction>,
}

/// The lines of `s`; text without a trailing newline still forms a
/// final line, so even empty text is one (blank) line.
pub open spec fn spec_split_lines(s: Seq<char>) -> Seq<Seq<char>> {
    spec_split(s, '\n')
}

/// A line is blank when whitespace runs to its end.
pub open spec fn spec_is_blank(line: Seq<char>) -> bool {
    spec_skip_ws(line, 0) == line.len()
}

/// Parse a list of lines: blank lines are skipped, every other line
/// must parse entirely, and a failure reports the index of the first
/// offending line.
pub open spec fn spec_parse_lines(lines: Seq<Seq<char>>) -> Result<Seq<AssemblerInstruction>, int>
    decreases lines.len(),
{
    if lines.len() == 0 {
        Ok(Seq::empty())
    } else if spec_is_blank(lines[0]) {
        match spec_parse_lines(lines.drop_first()) {
            Ok(v) => Ok(v),
            Err(i) => Err(i + 1),
        }
    } else {
        match spec_parse_line(lines[0]) {
            Some(instr) => match spec_parse_lines(lines.drop_first()) {
                Ok(v) => Ok(seq![instr] + v),
                Err(i) => Err(i + 1),
            },
            None => Err(0),
        }
    }
}

/// The parse of whole source text: its lines, parsed.
pub open spec fn spec_parse_source(s: Seq<char>) -> Result<Seq<AssemblerInstruction>, int> {
    spec_parse_lines(spec_split_lines(s))
}

/// Parse source text into a program.  Every non-blank line must match
/// one instruction shape entirely; the first line that does not is
/// reported, with its text.
pub fn program(source: &str) -> (r: Result<Program, AssemblerError>)
    ensures
        match r {
            Ok(p) => spec_parse_source(source@) == Ok::<Seq<AssemblerInstruction>, int>(
                p.instructions@,
            ),
            Err(e) => (spec_parse_source(source@) matches Err(i) && e matches (
            AssemblerError::UnparseableLine { line_index, line }) && line_index == i && line@
                == spec_split_lines(source@)[i]),
        },
{
    let lines = split_on(source, '\n');
    let ghost all = lines@.map_values(|l: &str| l@);
    let mut instructions: Vec<AssemblerInstruction> = Vec::new();
    let mut k: usize = 0;
    proof {
        assert(all.skip(0) =~= all);
        if spec_parse_lines(all) is Ok {
            let v = spec_parse_lines(all)->Ok_0;
            assert(instructions@ + v =~= v);
        }
    }
    while k < lines.len()
        invariant
            k <= lines@.len(),
            all == lines@.map_values(|l: &str| l@),
            all == spec_split_lines(source@),
            forall|j: int| 0 <= j < all.len() ==> lines@[j]@ == all[j],
            match spec_parse_lines(all.skip(k as int)) {
                Ok(v) => spec_parse_lines(all) == Ok::<Seq<AssemblerInstruction>, int>(
                    instructions@ + v,
                ),
                Err(i) => spec_parse_lines(all) == Err::<Seq<AssemblerInstruction>, int>(
                    i + k,
                ),
            },
        decreases lines@.len() - k,
    {
        let line = lines[k];
        proof {
            assert(all.skip(k as int)[0] == all[k as int]);
            assert(all.skip(k as int).drop_first() =~= all.skip(k as int + 1));
        }
        let ws_end = skip_ws(line, 0);
        if ws_end == line.unicode_len() {
            // blank line: nothing to parse
        } else {
            match parse_line(line) {
                Some(instr) => {
                    let ghost prev = instructions@;
                    instructions.push(instr);
                    proof {
                        if spec_parse_lines(all.skip(k as int + 1)) is Ok {
                            let v = spec_parse_lines(all.skip(k as int + 1))->Ok_0;
                            assert(instructions@ + v =~= prev + (seq![instr] + v));
                        }
                    }
                },
                None => {
                    return Err(
                        AssemblerError::UnparseableLine {
                            line_index: k,
                            line: line.to_owned(),
                        },
                    );
                },
            }
        }
        k += 1;
    }
    proof {
        assert(all.skip(k as int) =~= Seq::<Seq<char>>::empty());
        assert(instructions@ + Seq::<AssemblerInstruction>::empty() =~= instructions@);
    }
    Ok(Program { instructions })
}

/// The binary encoding of a whole instruction list: each
/// instruction's four bytes, concatenated in order.  The first
/// instruction that cannot encode fails the whole program, and
/// nothing is emitted.
pub open spec fn spec_program_bytes(instrs: Seq<AssemblerInstruction>) -> Result<
    Seq<u8>,
    AssemblerError,
>
    decreases instrs.len(),
{
    if instrs.len() == 0 {
        Ok(Seq::empty())
    } else {
        match spec_to_bytes(instrs[0]) {
            Err(e) => Err(e),
            Ok(b) => match spec_program_bytes(instrs.drop_first()) {
                Err(e) => Err(e),
                Ok(rest) => Ok(b + rest),
            },
        }
    }
}

impl Program {
    /// Encode the whole program: each instruction's four bytes, in
    /// source order.  The symbol table stands ready for label-using
    /// operands; instructions that need no labels never read it.
    pub fn to_bytes(&self, _symbols: &SymbolTable) -> (r: Result<Vec<u8>, AssemblerError>)
        ensures
            match r {
                Ok(v) => spec_program_bytes(self.instructions@) == Ok::<Seq<u8>, AssemblerError>(
                    v@,
                ) && v@.len() == 4 * self.instructions@.len(),
                Err(e) => spec_program_bytes(self.instructions@) == Err::<Seq<u8>, AssemblerError>(
                    e,
                ),
            },
    {
        let mut results: Vec<u8> = Vec::new();
        let mut k: usize = 0;
        proof {
            assert(self.instructions@.skip(0) =~= self.instructions@);
            if spec_program_bytes(self.instructions@) is Ok {
                let b = spec_program_bytes(self.instructions@)->Ok_0;
                assert(results@ + b =~= b);
            }
        }
        while k < self.instructions.len()
            invariant
                k <= self.instructions@.len(),
                results@.len() == 4 * k,
                match spec_program_bytes(self.instructions@.skip(k as int)) {
                    Ok(b) => spec_program_bytes(self.instructions@) == Ok::<
                        Seq<u8>,
                        AssemblerError,
                    >(results@ + b),
                    Err(e) => spec_program_bytes(self.instructions@) == Err::<
                        Seq<u8>,
                        AssemblerError,
                    >(e),
                },
            decreases self.instructions@.len() - k,
        {
            proof {
                assert(self.instructions@.skip(k as int)[0] == self.instructions@[k as int]);
                assert(self.instructions@.skip(k as int).drop_first() =~= self.instructions@.skip(
                    k as int + 1,
                ));
            }
            match self.instructions[k].to_bytes() {
                Ok(bytes) => {
                    let ghost prev = results@;
                    let ghost chunk = bytes@;
                    let mut bytes = bytes;
                    results.append(&mut bytes);
                    proof {
                        if spec_program_bytes(self.instructions@.skip(k as int + 1)) is Ok {
                            let b = spec_program_bytes(
                                self.instructions@.skip(k as int + 1),
                            )->Ok_0;
                            assert(results@ + b =~= prev + (chunk + b));
                        }
                    }
                },
                Err(e) => {
                    return Err(e);
                },
            }
            k += 1;
        }
        proof {
            assert(self.instructions@.skip(k as int) =~= Seq::<AssemblerInstruction>::empty());
            assert(results@ + Seq::<u8>::empty() =~= results@);
        }
        Ok(results)
    }
}

} // verus!
