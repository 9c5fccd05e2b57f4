//! The state and command logic of the interactive shell.
//!
//! The shell itself is a thin loop around this module: it prints a
//! prompt, reads one line, hands it to [`REPL::handle_line`], writes
//! the returned output, and stops when the outcome says so.  Every
//! decision — command dispatch, the listings' exact text, assembling
//! typed source and stepping the machine — lives here, specified and
//! verified; only the reading and writing stay outside.

use vstd::prelude::*;

use crate::assembler::program_parsers::{program, spec_parse_source, spec_program_bytes,
    spec_split_lines};
use crate::assembler::{Assembler, AssemblerError};
use crate::text::{hex_digit_val, i32_to_decimal, is_hex_digit, lemma_hex_val_extend,
    spec_dec_digits, spec_hex_val, spec_i32_dec, spec_is_hex_digit, spec_split, spec_trim,
    split_on, str_eq, trim, u32_to_decimal};
use crate::vm::{spec_step, VmState, VM};

verus! {

/// A failed hexadecimal byte group in shell input.
#[derive(Debug, Clone, Copy, PartialEq, Eq)]
pub enum HexParseError {
    /// A group held no characters at all.
    Empty,
    /// A group held a character that is no hexadecimal digit.
    InvalidDigit,
    /// A group's value does not fit one byte.
    Overflow,
}

/// What handling one line of input asks of the shell.
#[derive(Debug, PartialEq)]
pub struct LineOutcome {
    /// The shell should stop reading further lines.
    pub quit: bool,
    /// Text to write back to the user.
    pub output: String,
    /// Text for the host's own console, written apart from the
    /// user-facing output, as the program listing's heading is.
    pub note: String,
    /// The shell should ask for a file name and hand the file's text
    /// to [`REPL::load_source`].
    pub request_file: bool,
    /// The assembly fault the line raised, if any.
    pub error: Option<AssemblerError>,
}

/// The shell's state: every line seen so far, the machine, and the
/// assembler.
pub struct REPL {
    pub command_buffer: Vec<String>,
    pub vm: VM,
    pub assembler: Assembler,
}

/// Each command, on its own line.
pub open spec fn spec_lines_of(cmds: Seq<Seq<char>>) -> Seq<char>
    decreases cmds.len(),
{
    if cmds.len() == 0 {
        Seq::empty()
    } else {
        cmds[0] + seq!['\n'] + spec_lines_of(cmds.drop_first())
    }
}

/// Each program byte in decimal, on its own line.
pub open spec fn spec_byte_lines(bytes: Seq<u8>) -> Seq<char>
    decreases bytes.len(),
{
    if bytes.len() == 0 {
        Seq::empty()
    } else {
        spec_dec_digits(bytes[0] as nat) + seq!['\n'] + spec_byte_lines(bytes.drop_first())
    }
}

/// Each register value, indented and comma-terminated, on its own
/// line — the body of the register listing.
pub open spec fn spec_register_lines(regs: Seq<i32>) -> Seq<char>
    decreases regs.len(),
{
    if regs.len() == 0 {
        Seq::empty()
    } else {
        seq![' ', ' ', ' ', ' '] + spec_i32_dec(regs[0] as int) + seq![',', '\n']
            + spec_register_lines(regs.drop_first())
    }
}

/// The fault one hexadecimal group raises, if any: it must be a
/// nonempty run of hexadecimal digits whose value fits one byte.
pub open spec fn spec_hex_group_err(g: Seq<char>) -> Option<HexParseError> {
    if g.len() == 0 {
        Some(HexParseError::Empty)
    } else if exists|k: int| 0 <= k < g.len() && !spec_is_hex_digit(g[k]) {
        Some(HexParseError::InvalidDigit)
    } else if spec_hex_val(g, 0, g.len() as int) > 255 {
        Some(HexParseError::Overflow)
    } else {
        None
    }
}

/// Parse a list of space-separated groups: one byte each, or the
/// first group's fault.
pub open spec fn spec_parse_hex_groups(gs: Seq<Seq<char>>) -> Result<Seq<u8>, HexParseError>
    decreases gs.len(),
{
    if gs.len() == 0 {
        Ok(Seq::empty())
    } else {
        match spec_hex_group_err(gs[0]) {
            Some(e) => Err(e),
            None => match spec_parse_hex_groups(gs.drop_first()) {
                Err(e) => Err(e),
                Ok(v) => Ok(seq![spec_hex_val(gs[0], 0, gs[0].len() as int) as u8] + v),
            },
        }
    }
}

/// Build the history listing: each remembered command on its own line.
fn history_output(cmds: &Vec<String>) -> (r: String)
    ensures
        r@ == spec_lines_of(cmds.deep_view()),
{
    let ghost all = cmds.deep_view();
    let mut out = String::new();
    let mut k: usize = 0;
    proof {
        reveal_strlit("\n");
        assert(all.skip(0) =~= all);
        assert(out@ + spec_lines_of(all) =~= spec_lines_of(all));
    }
    while k < cmds.len()
        invariant
            k <= cmds@.len(),
            all == cmds.deep_view(),
            out@ + spec_lines_of(all.skip(k as int)) == spec_lines_of(all),
        decreases cmds@.len() - k,
    {
        let ghost prev = out@;
        out.append(cmds[k].as_str());
        out.append("\n");
        proof {
            reveal_strlit("\n");
            assert(("\n")@ =~= seq!['\n']);
            assert(all.skip(k as int).drop_first() =~= all.skip(k as int + 1));
            assert(all.skip(k as int)[0] == all[k as int]);
            assert(out@ + spec_lines_of(all.skip(k as int + 1)) =~= prev + spec_lines_of(
                all.skip(k as int),
            ));
        }
        k += 1;
    }
    proof {
        assert(all.skip(k as int) =~= Seq::<Seq<char>>::empty());
        assert(out@ =~= spec_lines_of(all));
    }
    out
}

/// Build the program listing's body: each byte in decimal, on its
/// own line.
fn program_output(bytes: &Vec<u8>) -> (r: String)
    ensures
        r@ == spec_byte_lines(bytes@),
{
    let mut out = String::new();
    let mut k: usize = 0;
    proof {
        assert(bytes@.skip(0) =~= bytes@);
        assert(out@ + spec_byte_lines(bytes@) =~= spec_byte_lines(bytes@));
    }
    while k < bytes.len()
        invariant
            k <= bytes@.len(),
            out@ + spec_byte_lines(bytes@.skip(k as int)) == spec_byte_lines(bytes@),
        decreases bytes@.len() - k,
    {
        let ghost prev = out@;
        let text = u32_to_decimal(bytes[k] as u32);
        out.append(text.as_str());
        out.append("\n");
        proof {
            reveal_strlit("\n");
            assert(("\n")@ =~= seq!['\n']);
            assert(bytes@.skip(k as int).drop_first() =~= bytes@.skip(k as int + 1));
            assert(bytes@.skip(k as int)[0] == bytes@[k as int]);
            assert(out@ + spec_byte_lines(bytes@.skip(k as int + 1)) =~= prev + spec_byte_lines(
                bytes@.skip(k as int),
            ));
        }
        k += 1;
    }
    proof {
        assert(bytes@.skip(k as int) =~= Seq::<u8>::empty());
        assert(out@ =~= spec_byte_lines(bytes@));
    }
    out
}

/// Build the register listing's body: each register, indented, with
/// a trailing comma, on its own line.
fn register_output(regs: &Vec<i32>) -> (r: String)
    ensures
        r@ == spec_register_lines(regs@),
{
    let mut out = String::new();
    let mut k: usize = 0;
    proof {
        assert(regs@.skip(0) =~= regs@);
        assert(out@ + spec_register_lines(regs@) =~= spec_register_lines(regs@));
    }
    while k < regs.len()
        invariant
            k <= regs@.len(),
            out@ + spec_register_lines(regs@.skip(k as int)) == spec_register_lines(regs@),
        decreases regs@.len() - k,
    {
        let ghost prev = out@;
        out.append("    ");
        let text = i32_to_decimal(regs[k]);
        out.append(text.as_str());
        out.append(",\n");
        proof {
            reveal_strlit("    ");
            reveal_strlit(",\n");
            assert(("    ")@ =~= seq![' ', ' ', ' ', ' ']);
            assert((",\n")@ =~= seq![',', '\n']);
            assert(regs@.skip(k as int).drop_first() =~= regs@.skip(k as int + 1));
            assert(regs@.skip(k as int)[0] == regs@[k as int]);
            assert(out@ + spec_register_lines(regs@.skip(k as int + 1)) =~= prev
                + spec_register_lines(regs@.skip(k as int)));
        }
        k += 1;
    }
    proof {
        assert(regs@.skip(k as int) =~= Seq::<i32>::empty());
        assert(out@ =~= spec_register_lines(regs@));
    }
    out
}

/// Parse one hexadecimal byte group: a nonempty run of hexadecimal
/// digits whose value fits one byte.
fn parse_hex_group(group: &str) -> (r: Result<u8, HexParseError>)
    ensures
        match r {
            Ok(b) => spec_hex_group_err(group@) == None::<HexParseError> && b == spec_hex_val(
                group@,
                0,
                group@.len() as int,
            ) as u8,
            Err(e) => spec_hex_group_err(group@) == Some(e),
        },
{
    let glen = group.unicode_len();
    if glen == 0 {
        return Err(HexParseError::Empty);
    }
    let mut j: usize = 0;
    while j < glen
        invariant
            j <= glen,
            0 < glen == group@.len(),
            forall|m: int| 0 <= m < j ==> spec_is_hex_digit(group@[m]),
        decreases glen - j,
    {
        if !is_hex_digit(group.get_char(j)) {
            proof {
                assert(!spec_is_hex_digit(group@[j as int]));
            }
            return Err(HexParseError::InvalidDigit);
        }
        j += 1;
    }
    let mut acc: u32 = 0;
    let mut m: usize = 0;
    while m < glen
        invariant
            m <= glen,
            0 < glen == group@.len(),
            forall|n: int| 0 <= n < glen ==> spec_is_hex_digit(group@[n]),
            acc == spec_hex_val(group@, 0, m as int),
            acc <= 255,
        decreases glen - m,
    {
        let d = hex_digit_val(group.get_char(m));
        acc = acc * 16 + d;
        m += 1;
        if acc > 255 {
            proof {
                lemma_hex_val_extend(group@, 0, m as int, glen as int);
            }
            return Err(HexParseError::Overflow);
        }
    }
    Ok(acc as u8)
}

impl REPL {
    /// The shell is well-formed when its machine is.
    pub open spec fn wf(&self) -> bool {
        self.vm.wf()
    }

    /// A fresh shell: empty history, fresh machine, fresh assembler.
    pub fn new() -> (r: REPL)
        ensures
            r.wf(),
            r.command_buffer@ == Seq::<String>::empty(),
            r.vm@.program == Seq::<u8>::empty(),
            r.vm@.registers == Seq::new(32, |i: int| 0i32),
            r.vm@.heap == Seq::<u8>::empty(),
            r.vm@.pc == 0,
            r.vm@.remainder == 0,
            r.vm@.equal_flag == false,
            r.assembler.symbol_table.symbols@ == Seq::<crate::assembler::symbols::Symbol>::empty(),
    {
        REPL { vm: VM::new(), command_buffer: Vec::new(), assembler: Assembler::new() }
    }

    /// Handle one line of user input, already read by the shell: the
    /// line is trimmed, remembered in the history, and dispatched.
    /// Dot-commands produce their listing; anything else is
    /// assembled, appended to the machine's program, and one
    /// instruction is executed.  A line that does not assemble is a
    /// fault local to that line: it is reported in the outcome, the
    /// machine is untouched, and the session keeps accepting input.
    pub fn handle_line(&mut self, line: &str) -> (r: LineOutcome)
        requires
            old(self).wf(),
        ensures
            final(self).wf(),
            final(self).command_buffer.deep_view() == old(self).command_buffer.deep_view().push(
                spec_trim(line@),
            ),
            final(self).assembler == old(self).assembler,
            r.quit <==> spec_trim(line@) == ".quit"@,
            ({
                let t = spec_trim(line@);
                if t == ".quit"@ {
                    &&& r.quit
                    &&& !r.request_file
                    &&& r.error == None::<AssemblerError>
                    &&& r.note@ == Seq::<char>::empty()
                    &&& r.output@ == "Farewell! Have a great day!\n"@
                    &&& final(self).vm == old(self).vm
                } else if t == ".history"@ {
                    &&& !r.quit
                    &&& !r.request_file
                    &&& r.error == None::<AssemblerError>
                    &&& r.note@ == Seq::<char>::empty()
                    &&& r.output@ == spec_lines_of(final(self).command_buffer.deep_view())
                    &&& final(self).vm == old(self).vm
                } else if t == ".program"@ {
                    &&& !r.quit
                    &&& !r.request_file
                    &&& r.error == None::<AssemblerError>
                    &&& r.note@ == "Listing instructions currently in VM's program vector:\n"@
                    &&& r.output@ == spec_byte_lines(old(self).vm@.program)
                        + "End of Program Listing\n"@
                    &&& final(self).vm == old(self).vm
                } else if t == ".registers"@ {
                    &&& !r.quit
                    &&& !r.request_file
                    &&& r.error == None::<AssemblerError>
                    &&& r.note@ == Seq::<char>::empty()
                    &&& r.output@ == "Listing registers and all contents:\n"@ + "[\n"@
                        + spec_register_lines(old(self).vm@.registers) + "]\n"@
                        + "End of Program Listing\n"@
                    &&& final(self).vm == old(self).vm
                } else if t == ".load_file"@ {
                    &&& !r.quit
                    &&& r.request_file
                    &&& r.error == None::<AssemblerError>
                    &&& r.note@ == Seq::<char>::empty()
                    &&& r.output@ == "Please enter the path to the file you wish to load: "@
                    &&& final(self).vm == old(self).vm
                } else {
                    &&& !r.request_file
                    &&& r.note@ == Seq::<char>::empty()
                    &&& r.output@ == Seq::<char>::empty()
                    &&& match spec_parse_source(t) {
                        Err(i) => {
                            &&& !r.quit
                            &&& (r.error matches Some(e) && e matches (
                            AssemblerError::UnparseableLine { line_index, line }) && line_index
                                == i && line@ == spec_split_lines(t)[i])
                            &&& final(self).vm == old(self).vm
                        },
                        Ok(instrs) => match spec_program_bytes(instrs) {
                            Err(e) => {
                                &&& !r.quit
                                &&& r.error == Some(e)
                                &&& final(self).vm == old(self).vm
                            },
                            Ok(bytes) => {
                                &&& !r.quit
                                &&& r.error == None::<AssemblerError>
                                &&& final(self).vm@ == spec_step(
                                    VmState {
                                        program: old(self).vm@.program + bytes,
                                        ..old(self).vm@
                                    },
                                ).0
                            },
                        },
                    }
                }
            }),
    {
        let trimmed = trim(line);
        self.command_buffer.push(trimmed.to_owned());
        proof {
            assert(self.command_buffer.deep_view() =~= old(
                self,
            ).command_buffer.deep_view().push(spec_trim(line@)));
        }
        if str_eq(trimmed, ".quit") {
            LineOutcome {
                quit: true,
                output: String::from_str("Farewell! Have a great day!\n"),
                note: String::new(),
                request_file: false,
                error: None,
            }
        } else if str_eq(trimmed, ".history") {
            LineOutcome {
                quit: false,
                output: history_output(&self.command_buffer),
                note: String::new(),
                request_file: false,
                error: None,
            }
        } else if str_eq(trimmed, ".program") {
            let mut out = program_output(&self.vm.program);
            out.append("End of Program Listing\n");
            LineOutcome {
                quit: false,
                output: out,
                note: String::from_str("Listing instructions currently in VM's program vector:\n"),
                request_file: false,
                error: None,
            }
        } else if str_eq(trimmed, ".registers") {
            let mut out = String::from_str("Listing registers and all contents:\n");
            out.append("[\n");
            let body = register_output(&self.vm.registers);
            out.append(body.as_str());
            out.append("]\n");
            out.append("End of Program Listing\n");
            LineOutcome {
                quit: false,
                output: out,
                note: String::new(),
                request_file: false,
                error: None,
            }
        } else if str_eq(trimmed, ".load_file") {
            LineOutcome {
                quit: false,
                output: String::from_str("Please enter the path to the file you wish to load: "),
                note: String::new(),
                request_file: true,
                error: None,
            }
        } else {
            match program(trimmed) {
                Err(e) => LineOutcome {
                    quit: false,
                    output: String::new(),
                    note: String::new(),
                    request_file: false,
                    error: Some(e),
                },
                Ok(parsed) => match parsed.to_bytes(&self.assembler.symbol_table) {
                    Err(e) => LineOutcome {
                        quit: false,
                        output: String::new(),
                        note: String::new(),
                        request_file: false,
                        error: Some(e),
                    },
                    Ok(bytes) => {
                        self.vm.add_bytes(bytes);
                        self.vm.run_once();
                        LineOutcome {
                            quit: false,
                            output: String::new(),
                            note: String::new(),
                            request_file: false,
                            error: None,
                        }
                    },
                },
            }
        }
    }

    /// Load assembled source into the machine's program buffer, as
    /// the shell does for a file's text: parse, encode, append.  The
    /// machine is untouched when the text does not assemble, and
    /// nothing is executed either way.
    pub fn load_source(&mut self, source: &str) -> (r: Option<AssemblerError>)
        requires
            old(self).wf(),
        ensures
            final(self).wf(),
            final(self).command_buffer == old(self).command_buffer,
            final(self).assembler == old(self).assembler,
            match spec_parse_source(source@) {
                Err(i) => (r matches Some(e) && e matches (AssemblerError::UnparseableLine {
                    line_index,
                    line,
                }) && line_index == i && line@ == spec_split_lines(source@)[i]) && final(self).vm
                    == old(self).vm,
                Ok(instrs) => match spec_program_bytes(instrs) {
                    Err(e) => r == Some(e) && final(self).vm == old(self).vm,
                    Ok(bytes) => r == None::<AssemblerError> && final(self).vm@ == (
                    VmState { program: old(self).vm@.program + bytes, ..old(self).vm@ }),
                },
            },
    {
        match program(source) {
            Err(e) => Some(e),
            Ok(parsed) => match parsed.to_bytes(&self.assembler.symbol_table) {
                Err(e) => Some(e),
                Ok(bytes) => {
                    self.vm.add_bytes(bytes);
                    None
                },
            },
        }
    }

    /// Parse space-separated hexadecimal byte groups, as typed at the
    /// shell: each group must be a nonempty run of hexadecimal digits
    /// whose value fits one byte.
    pub fn parse_hex(&mut self, i: &str) -> (r: Result<Vec<u8>, HexParseError>)
        ensures
            *final(self) == *old(self),
            match r {
                Ok(v) => spec_parse_hex_groups(spec_split(i@, ' ')) == Ok::<Seq<u8>, HexParseError>(
                    v@,
                ),
                Err(e) => spec_parse_hex_groups(spec_split(i@, ' ')) == Err::<
                    Seq<u8>,
                    HexParseError,
                >(e),
            },
    {
        let groups = split_on(i, ' ');
        let ghost all = groups@.map_values(|g: &str| g@);
        let mut results: Vec<u8> = Vec::new();
        let mut k: usize = 0;
        proof {
            assert(all.skip(0) =~= all);
            if spec_parse_hex_groups(all) is Ok {
                let v = spec_parse_hex_groups(all)->Ok_0;
                assert(results@ + v =~= v);
            }
        }
        while k < groups.len()
            invariant
                k <= groups@.len(),
                all == groups@.map_values(|g: &str| g@),
                all == spec_split(i@, ' '),
                match spec_parse_hex_groups(all.skip(k as int)) {
                    Ok(v) => spec_parse_hex_groups(all) == Ok::<Seq<u8>, HexParseError>(
                        results@ + v,
                    ),
                    Err(e) => spec_parse_hex_groups(all) == Err::<Seq<u8>, HexParseError>(e),
                },
            decreases groups@.len() - k,
        {
            proof {
                assert(all.skip(k as int)[0] == all[k as int]);
                assert(all.skip(k as int).drop_first() =~= all.skip(k as int + 1));
            }
            let group = groups[k];
            proof {
                assert(group@ == all[k as int]);
            }
            let byte = match parse_hex_group(group) {
                Ok(b) => b,
                Err(e) => {
                    return Err(e);
                },
            };
            let ghost prev = results@;
            results.push(byte);
            proof {
                if spec_parse_hex_groups(all.skip(k as int + 1)) is Ok {
                    let v = spec_parse_hex_groups(all.skip(k as int + 1))->Ok_0;
                    assert(results@ + v =~= prev + (seq![
                        spec_hex_val(all[k as int], 0, all[k as int].len() as int) as u8,
                    ] + v));
                }
            }
            k += 1;
        }
        proof {
            assert(all.skip(k as int) =~= Seq::<Seq<char>>::empty());
            assert(results@ + Seq::<u8>::empty() =~= results@);
        }
        Ok(results)
    }
}

} // verus!
