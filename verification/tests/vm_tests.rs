use iridium::assembler::{pie_header_prefix, PIE_HEADER_LENGTH};
use iridium::vm::{StepOutcome, VmError, VM};

fn prepend_header(mut b: Vec<u8>) -> Vec<u8> {
    let mut prepension = vec![];
    for byte in pie_header_prefix().into_iter() {
        prepension.push(byte.clone());
    }
    while prepension.len() <= PIE_HEADER_LENGTH {
        prepension.push(0);
    }
    prepension.append(&mut b);
    prepension
}

#[test]
fn test_create_vm() {
    let test_vm = VM::new();
    assert_eq!(test_vm.registers[0], 0)
}

#[test]
fn test_add_byte() {
    let mut test_vm = VM::new();
    assert_eq!(test_vm.program.len(), 0);
    test_vm.add_byte(10);
    assert_eq!(test_vm.program.len(), 1);
    test_vm.add_byte(0x0C);
    assert_eq!(test_vm.program.len(), 2);
}

#[test]
fn test_opcode_hlt() {
    let mut test_vm = VM::new();
    let test_bytes = vec![5, 0, 0, 0];
    test_vm.program = test_bytes;
    test_vm.run_once();
    assert_eq!(test_vm.pc, 1);
}

#[test]
fn test_opcode_load() {
    let mut test_vm = VM::new();
    test_vm.program = vec![0, 0, 1 /* 2^8 = 256*/, 244];
    test_vm.run_once();
    assert_eq!(test_vm.registers[0], 500 /* 256 + 244 */);
}

#[test]
fn test_opcode_add() {
    let mut test_vm = VM::new();
    test_vm.program = vec![
        0,   /* LOAD */
        0,   /* dest: register 0 */
        1,   /* 2^8*1 = 256 */
        12,  /* 12 */
        0,   /* LOAD */
        1,   /* dest: register 1 */
        0,   /* 0 */
        255, /* 255 */
        1,   /* ADD */
        0,   /* register 0: 256 + 12 */
        1,   /* and register 1: 255 */
        2,   /* store in register 2*/
    ];
    test_vm.run_once(); // LOAD
    assert_eq!(test_vm.registers[0], 268);
    test_vm.run_once(); // LOAD
    assert_eq!(test_vm.registers[1], 255);
    test_vm.run_once(); // ADD
    assert_eq!(test_vm.registers[2], 523);
}

#[test]
fn test_opcode_sub() {
    let mut test_vm = VM::new();
    test_vm.program = vec![
        0,   /* LOAD */
        0,   /* dest: register 0 */
        1,   /* 2^8*1 = 256 */
        12,  /* 12 */
        0,   /* LOAD */
        1,   /* dest: register 1 */
        0,   /* 0 */
        255, /* 255 */
        2,   /* SUB */
        0,   /* register 0: 256 + 12 */
        1,   /* and register 1: 255 */
        2,   /* store in register 2*/
    ];
    test_vm.run_once(); // LOAD
    assert_eq!(test_vm.registers[0], 268);
    test_vm.run_once(); // LOAD
    assert_eq!(test_vm.registers[1], 255);
    test_vm.run_once(); // SUB
    assert_eq!(test_vm.registers[2], 13);
}

#[test]
fn test_opcode_mul() {
    let mut test_vm = VM::new();
    test_vm.program = vec![
        0,   /* LOAD */
        0,   /* dest: register 0 */
        1,   /* 2^8*1 = 256 */
        12,  /* 12 */
        0,   /* LOAD */
        1,   /* dest: register 1 */
        0,   /* 0 */
        255, /* 255 */
        3,   /* MUL */
        0,   /* register 0: 256 + 12 */
        1,   /* and register 1: 255 */
        2,   /* store in register 2*/
    ];
    test_vm.program = prepend_header(test_vm.program);
    test_vm.pc += 65;
    test_vm.run_once(); // LOAD
    assert_eq!(test_vm.registers[0], 268);
    test_vm.run_once(); // LOAD
    assert_eq!(test_vm.registers[1], 255);
    test_vm.run_once(); // MUL
    assert_eq!(test_vm.registers[2], 68340);
}

#[test]
fn test_opcode_div() {
    let mut test_vm = VM::new();
    test_vm.program = vec![
        0,   /* LOAD */
        0,   /* dest: register 0 */
        1,   /* 2^8*1 = 256 */
        12,  /* 12 */
        0,   /* LOAD */
        1,   /* dest: register 1 */
        0,   /* 0 */
        255, /* 255 */
        4,   /* DIV */
        0,   /* register 0: 256 + 12 */
        1,   /* and register 1: 255 */
        2,   /* store in register 2*/
    ];
    test_vm.run_once(); // LOAD
    assert_eq!(test_vm.registers[0], 268);
    assert_eq!(test_vm.remainder, 0);
    test_vm.run_once(); // LOAD
    assert_eq!(test_vm.registers[1], 255);
    assert_eq!(test_vm.remainder, 0);
    test_vm.run_once(); // DIV
    assert_eq!(test_vm.registers[2], 1);
    assert_eq!(test_vm.remainder, 13);
}

#[test]
fn test_opcode_jmp() {
    let mut test_vm = VM::new();
    test_vm.registers[0] = 1;
    test_vm.program = vec![6, 0, 0, 0];
    test_vm.run_once();
    assert_eq!(test_vm.pc, 1);
}

#[test]
fn test_opcode_jmpf() {
    let mut test_vm = VM::new();
    test_vm.registers[0] = 2;
    test_vm.program = vec![
        7, /* JMPF */
        0, /* increment pc by the number the register0 stores (+2) */
        0, /* pad */
        0, /* pad */
    ];
    test_vm.run_once();
    assert_eq!(
        test_vm.pc,
        4 /* 1. Read JMPF, 2. Read 0, then + 2 = 4 */
    );
}

#[test]
fn test_opcode_jmpb() {
    let mut test_vm = VM::new();
    test_vm.registers[1] = 6;
    test_vm.program = vec![0, 0, 0, 10, 8, 1, 0, 0];
    test_vm.run_once(); // LOAD: pc += 4
    test_vm.run_once(); // Read JMPB and target (pc += 2), then JMPB to register1: 6 (pc -= 6)
    assert_eq!(test_vm.pc, 0);
}

#[test]
fn test_opcode_eq() {
    let mut test_vm = VM::new();
    test_vm.registers[0] = 10;
    test_vm.registers[1] = 10;
    test_vm.program = vec![9 /* EQ */, 0, 1, 0, 9 /* EQ */, 0, 1, 0];
    test_vm.run_once(); // 10 == 10
    assert_eq!(test_vm.equal_flag, 10 == 10);
    test_vm.registers[1] = 20;
    test_vm.run_once(); // 10 == 20
    assert_eq!(test_vm.equal_flag, 10 == 20);
}

#[test]
fn test_opcode_neq() {
    let mut test_vm = VM::new();
    test_vm.registers[0] = 10;
    test_vm.registers[1] = 10;
    test_vm.program = vec![10 /* NEQ */, 0, 1, 0, 10 /* NEQ */, 0, 1, 0];
    test_vm.run_once(); // 10 != 10
    assert_eq!(test_vm.equal_flag, 10 != 10);
    test_vm.registers[1] = 20;
    test_vm.run_once(); // 10 != 20
    assert_eq!(test_vm.equal_flag, 10 != 20);
}

#[test]
fn test_opcode_gt() {
    let mut test_vm = VM::new();
    test_vm.registers[0] = 10;
    test_vm.registers[1] = 10;
    test_vm.program = vec![11 /* GT */, 0, 1, 0, 11 /* GT */, 0, 1, 0];
    test_vm.run_once(); // 10 > 10
    assert_eq!(test_vm.equal_flag, 10 > 10);
    test_vm.registers[0] = 99;
    test_vm.run_once(); // 99 > 10
    assert_eq!(test_vm.equal_flag, 99 > 10);
}

#[test]
fn test_opcode_gte() {
    let mut test_vm = VM::new();
    test_vm.registers[0] = 10;
    test_vm.registers[1] = 10;
    test_vm.program = vec![12, 0, 1, 0, 12, 0, 1, 0, 12, 0, 1, 0];
    test_vm.run_once(); // 10 >= 10
    assert_eq!(test_vm.equal_flag, 10 >= 10);
    test_vm.registers[0] = 99;
    test_vm.run_once(); // 99 >= 10
    assert_eq!(test_vm.equal_flag, 99 >= 10);
    test_vm.registers[0] = 3;
    test_vm.run_once(); // 3 >= 10
    assert_eq!(test_vm.equal_flag, 3 >= 10);
}

#[test]
fn test_opcode_lt() {
    let mut test_vm = VM::new();
    test_vm.registers[0] = 10;
    test_vm.registers[1] = 10;
    test_vm.program = vec![13 /* LT */, 0, 1, 0, 13 /* LT */, 0, 1, 0];
    test_vm.run_once(); // 10 < 10
    assert_eq!(test_vm.equal_flag, 10 < 10);
    test_vm.registers[0] = 3;
    test_vm.run_once(); // 3 < 10
    assert_eq!(test_vm.equal_flag, 3 < 10);
}

#[test]
fn test_opcode_lte() {
    let mut test_vm = VM::new();
    test_vm.registers[0] = 10;
    test_vm.registers[1] = 10;
    test_vm.program = vec![14, 0, 1, 0, 14, 0, 1, 0, 14, 0, 1, 0];
    test_vm.run_once(); // 10 <= 10
    assert_eq!(test_vm.equal_flag, 10 <= 10);
    test_vm.registers[1] = 99;
    test_vm.run_once(); // 10 <= 99
    assert_eq!(test_vm.equal_flag, 10 <= 99);
    test_vm.registers[1] = 3;
    test_vm.run_once(); // 10 <= 3
    assert_eq!(test_vm.equal_flag, 10 <= 3);
}

#[test]
fn test_opcode_jmpe_equal() {
    let mut test_vm = VM::new();
    test_vm.registers[0] = 7;
    test_vm.equal_flag = true;
    test_vm.program = vec![15, 0, 0, 0, 17, 0, 0, 17, 0, 0, 0];
    test_vm.run_once();
    assert_eq!(test_vm.pc, 7);
}

#[test]
fn test_opcode_jmpe_not_equal() {
    let mut test_vm = VM::new();
    test_vm.registers[0] = 7;
    test_vm.equal_flag = false;
    test_vm.program = vec![15, 0, 0, 0, 17, 0, 0, 17, 0, 0, 0];
    test_vm.run_once();
    // The padding bytes of a branch not taken are consumed, never
    // reread as opcodes, so the counter lands on the next
    // instruction boundary: one full instruction width.
    assert_eq!(test_vm.pc, 4);
}

#[test]
fn test_opcode_aloc() {
    let mut test_vm = VM::new();
    test_vm.registers[0] = 1024;
    test_vm.program = vec![17, 0, 0, 0];
    test_vm.run_once();
    assert_eq!(test_vm.heap.len(), 1024);
}

#[test]
fn test_opcode_inc() {
    let mut test_vm = VM::new();
    test_vm.registers[0] = 4;
    test_vm.program = vec![18, 0, 0, 0];
    test_vm.run_once();
    assert_eq!(test_vm.registers[0], 5);
}

#[test]
fn test_opcode_dec() {
    let mut test_vm = VM::new();
    test_vm.registers[0] = 4;
    test_vm.program = vec![19, 0, 0, 0];
    test_vm.run_once();
    assert_eq!(test_vm.registers[0], 3);
}

#[test]
fn test_opcode_igl() {
    let mut test_vm = VM::new();
    let test_bytes = vec![200, 0, 0, 0];
    test_vm.program = test_bytes;
    test_vm.run_once();
    assert_eq!(test_vm.pc, 1);
}

#[test]
fn test_load_advances_pc_by_four() {
    let mut test_vm = VM::new();
    test_vm.program = vec![0, 0, 1, 244];
    test_vm.run_once();
    assert_eq!(test_vm.registers[0], 500);
    assert_eq!(test_vm.pc, 4);
}

#[test]
fn test_igl_reports_illegal_opcode() {
    let mut test_vm = VM::new();
    test_vm.program = vec![200, 0, 0, 0];
    let outcome = test_vm.execute_instruction();
    assert_eq!(outcome, StepOutcome::Error(VmError::IllegalOpcode));
    assert_eq!(test_vm.pc, 1);
}

#[test]
fn test_aloc_twice_grows_by_total() {
    let mut test_vm = VM::new();
    test_vm.registers[0] = 512;
    test_vm.program = vec![17, 0, 17, 0];
    test_vm.run_once();
    assert_eq!(test_vm.heap.len(), 512);
    test_vm.run_once();
    assert_eq!(test_vm.heap.len(), 1024);
}

#[test]
fn test_aloc_negative_shrinks_heap() {
    let mut test_vm = VM::new();
    test_vm.registers[0] = 10;
    test_vm.registers[1] = -4;
    test_vm.program = vec![17, 0, 17, 1];
    test_vm.run_once();
    assert_eq!(test_vm.heap.len(), 10);
    test_vm.run_once();
    assert_eq!(test_vm.heap.len(), 6);
}

#[test]
fn test_aloc_below_zero_is_fault() {
    let mut test_vm = VM::new();
    test_vm.registers[0] = -5;
    test_vm.program = vec![17, 0, 0, 0];
    let outcome = test_vm.execute_instruction();
    assert_eq!(outcome, StepOutcome::Error(VmError::HeapOutOfRange));
    assert_eq!(test_vm.heap.len(), 0);
}

#[test]
fn test_divide_by_zero_is_clean_fault() {
    let mut test_vm = VM::new();
    test_vm.registers[0] = 7;
    test_vm.program = vec![4, 0, 1, 2];
    let outcome = test_vm.execute_instruction();
    assert_eq!(outcome, StepOutcome::Error(VmError::DivideByZero));
    assert_eq!(test_vm.registers[2], 0);
    assert_eq!(test_vm.remainder, 0);
    assert_eq!(test_vm.pc, 4);
}

#[test]
fn test_register_out_of_range_is_fault() {
    let mut test_vm = VM::new();
    test_vm.program = vec![0, 200, 0, 5];
    let outcome = test_vm.execute_instruction();
    assert_eq!(outcome, StepOutcome::Error(VmError::RegisterOutOfRange));
}

#[test]
fn test_truncated_instruction_is_fault() {
    let mut test_vm = VM::new();
    test_vm.program = vec![0, 0];
    let outcome = test_vm.execute_instruction();
    assert_eq!(outcome, StepOutcome::Error(VmError::TruncatedInstruction));
}

#[test]
fn test_add_wraps_on_overflow() {
    let mut test_vm = VM::new();
    test_vm.registers[0] = i32::MAX;
    test_vm.registers[1] = 1;
    test_vm.program = vec![1, 0, 1, 2];
    test_vm.run_once();
    assert_eq!(test_vm.registers[2], i32::MIN);
}

#[test]
fn test_run_past_end_is_done() {
    let mut test_vm = VM::new();
    let outcome = test_vm.execute_instruction();
    assert_eq!(outcome, StepOutcome::Done);
}

#[test]
fn test_start_rejects_bad_header() {
    let mut test_vm = VM::new();
    test_vm.program = vec![9, 9, 9, 9, 5, 0, 0, 0];
    let result = test_vm.start();
    assert_eq!(result, Err(VmError::InvalidHeader));
    assert_eq!(test_vm.pc, 0);
    assert_eq!(test_vm.registers, vec![0; 32]);
}

#[test]
fn test_start_accepts_good_header() {
    let mut test_vm = VM::new();
    test_vm.program = prepend_header(vec![5, 0, 0, 0]);
    let result = test_vm.start();
    assert_eq!(result, Ok(()));
    assert_eq!(test_vm.pc, PIE_HEADER_LENGTH + 1);
    let outcome = test_vm.execute_instruction();
    assert_eq!(outcome, StepOutcome::Halt);
}

#[test]
fn test_verify_header() {
    let mut test_vm = VM::new();
    assert!(!test_vm.verify_header());
    test_vm.program = prepend_header(vec![]);
    assert!(test_vm.verify_header());
}

#[test]
fn test_add_bytes_appends() {
    let mut test_vm = VM::new();
    test_vm.add_byte(1);
    test_vm.add_bytes(vec![2, 3]);
    assert_eq!(test_vm.program, vec![1, 2, 3]);
}
