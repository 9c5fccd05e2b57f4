//! Laws that tie the assembler and the execution engine together
//! through the binary instruction format they share.

use vstd::prelude::*;

use crate::assembler::instruction_parsers::{spec_to_bytes, AssemblerInstruction};
use crate::assembler::program_parsers::spec_program_bytes;
use crate::assembler::{spec_pie_header, spec_pie_header_prefix, AssemblerError, Token};
use crate::instruction::Opcode;
use crate::vm::{spec_header_valid, spec_step, StepOutcome, VmState};

verus! {

/// Law: producer and consumer agree on the header.  Whatever the
/// assembler emits — the header followed by any instruction body —
/// opens with the magic prefix the execution engine validates, so an
/// assembled program is never refused at load time.
pub proof fn lemma_assembled_program_is_headed(body: Seq<u8>)
    ensures
        spec_header_valid(spec_pie_header() + body),
{
    assert((spec_pie_header() + body).subrange(0, 4) =~= spec_pie_header_prefix());
}

/// The instruction that loads immediate `value` into register `r`.
pub open spec fn spec_load_instruction(r: u8, value: i32) -> AssemblerInstruction {
    AssemblerInstruction {
        opcode: Token::Op { code: Opcode::LOAD },
        operand1: Some(Token::Register { reg_num: r }),
        operand2: Some(Token::IntegerOperand { value }),
        operand3: None,
    }
}

/// The instruction that adds registers `r1` and `r2` into `r3`.
pub open spec fn spec_add_instruction(r1: u8, r2: u8, r3: u8) -> AssemblerInstruction {
    AssemblerInstruction {
        opcode: Token::Op { code: Opcode::ADD },
        operand1: Some(Token::Register { reg_num: r1 }),
        operand2: Some(Token::Register { reg_num: r2 }),
        operand3: Some(Token::Register { reg_num: r3 }),
    }
}

/// Law: encoding then executing works, for every choice of valid
/// registers.  Encode `LOAD r1 #268`, `LOAD r2 #255`, `ADD r1 r2 r3`
/// (with `r1` and `r2` distinct, so the second load does not clobber
/// the first), run the machine three steps from the top of that
/// program, and register `r3` holds 523 — whatever the registers,
/// heap and flags held before.
pub proof fn lemma_encode_then_execute_add(m0: VmState, r1: u8, r2: u8, r3: u8)
    requires
        m0.wf(),
        r1 < 32,
        r2 < 32,
        r3 < 32,
        r1 != r2,
        m0.pc == 0,
        spec_program_bytes(
            seq![
                spec_load_instruction(r1, 268),
                spec_load_instruction(r2, 255),
                spec_add_instruction(r1, r2, r3),
            ],
        ) == Ok::<Seq<u8>, AssemblerError>(m0.program),
    ensures
        spec_step(m0).1 == StepOutcome::Continue,
        spec_step(spec_step(m0).0).1 == StepOutcome::Continue,
        spec_step(spec_step(spec_step(m0).0).0).1 == StepOutcome::Continue,
        spec_step(spec_step(spec_step(m0).0).0).0.registers[r3 as int] == 523,
{
    let instrs = seq![
        spec_load_instruction(r1, 268),
        spec_load_instruction(r2, 255),
        spec_add_instruction(r1, r2, r3),
    ];
    let b1 = spec_to_bytes(instrs[0])->Ok_0;
    let b2 = spec_to_bytes(instrs[1])->Ok_0;
    let b3 = spec_to_bytes(instrs[2])->Ok_0;
    assert(b1 =~= seq![0u8, r1, 1u8, 12u8]);
    assert(b2 =~= seq![0u8, r2, 0u8, 255u8]);
    assert(b3 =~= seq![1u8, r1, r2, r3]);
    reveal_with_fuel(spec_program_bytes, 4);
    assert(instrs.drop_first() =~= seq![instrs[1], instrs[2]]);
    assert(instrs.drop_first().drop_first() =~= seq![instrs[2]]);
    assert(seq![instrs[2]].drop_first() =~= Seq::<AssemblerInstruction>::empty());
    assert(spec_program_bytes(instrs) == Ok::<Seq<u8>, AssemblerError>(
        b1 + (b2 + (b3 + Seq::<u8>::empty())),
    ));
    assert(m0.program =~= seq![0u8, r1, 1u8, 12u8, 0u8, r2, 0u8, 255u8, 1u8, r1, r2, r3]);
    let m1 = spec_step(m0).0;
    assert(m1.registers =~= m0.registers.update(r1 as int, 268));
    assert(m1.pc == 4);
    let m2 = spec_step(m1).0;
    assert(m2.registers =~= m1.registers.update(r2 as int, 255));
    assert(m2.pc == 8);
    let m3 = spec_step(m2).0;
    assert(m2.registers[r1 as int] == 268);
    assert(m2.registers[r2 as int] == 255);
    assert(m3.registers[r3 as int] == 523);
}

} // verus!
