use iridium::assembler::instruction_parsers::{
    instruction, instruction_one, instruction_three, instruction_two, AssemblerInstruction,
};
use iridium::assembler::opcode_parsers::opcode;
use iridium::assembler::operand_parsers::integer_operand;
use iridium::assembler::program_parsers::program;
use iridium::assembler::register_parsers::register;
use iridium::assembler::symbols::SymbolTable;
use iridium::assembler::{
    pie_header_prefix, Assembler, AssemblerError, Token, PIE_HEADER_LENGTH,
};
use iridium::instruction::Opcode;
use iridium::vm::VM;

#[test]
fn test_parse_instruction_form_one() {
    let result = instruction_one("load $0 #100\n");
    assert_eq!(
        result,
        Ok((
            "",
            AssemblerInstruction {
                opcode: Token::Op { code: Opcode::LOAD },
                operand1: Some(Token::Register { reg_num: 0 }),
                operand2: Some(Token::IntegerOperand { value: 100 }),
                operand3: None
            }
        ))
    );
}

#[test]
fn test_parse_instruction_form_two() {
    let result = instruction_two("hlt\n");
    assert_eq!(
        result,
        Ok((
            "",
            AssemblerInstruction {
                opcode: Token::Op { code: Opcode::HLT },
                operand1: None,
                operand2: None,
                operand3: None
            }
        ))
    );
}

#[test]
fn test_parse_instruction_form_three() {
    let result = instruction_three("add $0 $1 $2\n");
    assert_eq!(
        result,
        Ok((
            "",
            AssemblerInstruction {
                opcode: Token::Op { code: Opcode::ADD },
                operand1: Some(Token::Register { reg_num: 0 }),
                operand2: Some(Token::Register { reg_num: 1 }),
                operand3: Some(Token::Register { reg_num: 2 }),
            }
        ))
    );
}

#[test]
fn test_opcode() {
    let result = opcode("load");
    assert_eq!(result.is_ok(), true);
    let (rest, token) = result.unwrap();
    assert_eq!(token, Token::Op { code: Opcode::LOAD });
    assert_eq!(rest, "");

    let result = opcode("aload");
    let (_, token) = result.unwrap();
    assert_eq!(token, Token::Op { code: Opcode::IGL });
}

#[test]
fn test_parse_register() {
    let result = register(" $18 ");
    assert_eq!(result.is_ok(), true);
    let (rest, token) = result.unwrap();
    assert_eq!(token, Token::Register { reg_num: 18 });
    assert_eq!(rest, "");
    assert!(register("18").is_err());
    assert!(register("$x").is_err());
    assert!(register("$300").is_err());
}

#[test]
fn test_parse_integer_operand() {
    let result = integer_operand("#500 ");
    assert_eq!(result.is_ok(), true);
    let (rest, token) = result.unwrap();
    assert_eq!(token, Token::IntegerOperand { value: 500 });
    assert_eq!(rest, "");
    let (_, token) = integer_operand("#-50").unwrap();
    assert_eq!(token, Token::IntegerOperand { value: -50 });
    assert!(integer_operand("500").is_err());
    assert!(integer_operand("#").is_err());
    assert!(integer_operand("#9999999999").is_err());
}

#[test]
fn test_instruction_priority_order() {
    let (_, parsed) = instruction("load $0 #100").unwrap();
    assert_eq!(parsed.opcode, Token::Op { code: Opcode::LOAD });
    assert_eq!(parsed.operand2, Some(Token::IntegerOperand { value: 100 }));
    let (_, parsed) = instruction("hlt").unwrap();
    assert_eq!(parsed.operand1, None);
    let (_, parsed) = instruction("add $0 $1 $2").unwrap();
    assert_eq!(parsed.operand3, Some(Token::Register { reg_num: 2 }));
    assert!(instruction("$1 $2").is_err());
}

#[test]
fn test_form_two_requires_end_of_line() {
    // A bare-opcode parse must not swallow a line that carries
    // operands it cannot represent.
    assert!(instruction_two("hlt $1\n").is_err());
}

#[test]
fn test_to_bytes_load() {
    let instr = AssemblerInstruction {
        opcode: Token::Op { code: Opcode::LOAD },
        operand1: Some(Token::Register { reg_num: 0 }),
        operand2: Some(Token::IntegerOperand { value: 500 }),
        operand3: None,
    };
    assert_eq!(instr.to_bytes(), Ok(vec![0, 0, 1, 244]));
}

#[test]
fn test_to_bytes_pads_to_four() {
    let instr = AssemblerInstruction {
        opcode: Token::Op { code: Opcode::HLT },
        operand1: None,
        operand2: None,
        operand3: None,
    };
    assert_eq!(instr.to_bytes(), Ok(vec![5, 0, 0, 0]));
}

#[test]
fn test_to_bytes_truncates_integer_operand() {
    let instr = AssemblerInstruction {
        opcode: Token::Op { code: Opcode::LOAD },
        operand1: Some(Token::Register { reg_num: 1 }),
        operand2: Some(Token::IntegerOperand { value: -1 }),
        operand3: None,
    };
    assert_eq!(instr.to_bytes(), Ok(vec![0, 1, 255, 255]));
}

#[test]
fn test_to_bytes_rejects_operand_in_opcode_slot() {
    let instr = AssemblerInstruction {
        opcode: Token::Register { reg_num: 0 },
        operand1: None,
        operand2: None,
        operand3: None,
    };
    assert_eq!(instr.to_bytes(), Err(AssemblerError::InvalidOpcodeSlot));
}

#[test]
fn test_to_bytes_rejects_opcode_in_operand_slot() {
    let instr = AssemblerInstruction {
        opcode: Token::Op { code: Opcode::ADD },
        operand1: Some(Token::Op { code: Opcode::HLT }),
        operand2: None,
        operand3: None,
    };
    assert_eq!(instr.to_bytes(), Err(AssemblerError::InvalidOperandSlot));
}

#[test]
fn test_to_bytes_rejects_register_out_of_range() {
    let instr = AssemblerInstruction {
        opcode: Token::Op { code: Opcode::JMP },
        operand1: Some(Token::Register { reg_num: 40 }),
        operand2: None,
        operand3: None,
    };
    assert_eq!(instr.to_bytes(), Err(AssemblerError::RegisterOutOfRange));
}

#[test]
fn test_to_bytes_rejects_overlong_instruction() {
    let instr = AssemblerInstruction {
        opcode: Token::Op { code: Opcode::LOAD },
        operand1: Some(Token::IntegerOperand { value: 1 }),
        operand2: Some(Token::IntegerOperand { value: 2 }),
        operand3: Some(Token::IntegerOperand { value: 3 }),
    };
    assert_eq!(instr.to_bytes(), Err(AssemblerError::OverlongInstruction));
}

#[test]
fn test_parse_program() {
    let parsed = program("load $0 #100\nhlt\n").unwrap();
    assert_eq!(parsed.instructions.len(), 2);
    let symbols = SymbolTable::new();
    assert_eq!(
        parsed.to_bytes(&symbols),
        Ok(vec![0, 0, 0, 100, 5, 0, 0, 0])
    );
}

#[test]
fn test_parse_program_skips_blank_lines() {
    let parsed = program("\n  \nhlt\n\n").unwrap();
    assert_eq!(parsed.instructions.len(), 1);
}

#[test]
fn test_parse_empty_program_is_valid() {
    let parsed = program("").unwrap();
    assert_eq!(parsed.instructions.len(), 0);
}

#[test]
fn test_parse_program_reports_offending_line() {
    let result = program("hlt\nthis is !garbage\nhlt\n");
    assert_eq!(
        result,
        Err(AssemblerError::UnparseableLine {
            line_index: 1,
            line: String::from("this is !garbage"),
        })
    );
}

#[test]
fn test_assemble_writes_header() {
    let mut assembler = Assembler::new();
    let bytes = assembler.assemble("load $0 #100\n").unwrap();
    assert_eq!(bytes.len(), PIE_HEADER_LENGTH + 1 + 4);
    assert_eq!(&bytes[0..4], &pie_header_prefix()[..]);
    assert_eq!(&bytes[PIE_HEADER_LENGTH + 1..], &[0, 0, 0, 100]);
}

#[test]
fn test_assembled_program_starts() {
    let mut assembler = Assembler::new();
    let bytes = assembler.assemble("load $0 #500\nhlt\n").unwrap();
    let mut vm = VM::new();
    vm.add_bytes(bytes);
    assert_eq!(vm.start(), Ok(()));
    vm.run_once();
    vm.run_once();
    assert_eq!(vm.registers[0], 500);
    // LOAD consumed four bytes, HLT only its opcode byte.
    assert_eq!(vm.pc, PIE_HEADER_LENGTH + 1 + 5);
}

#[test]
fn test_symbol_table() {
    let mut table = SymbolTable::new();
    assert!(!table.has_symbol("start"));
    assert_eq!(table.add_symbol(String::from("start"), 12), Ok(()));
    assert!(table.has_symbol("start"));
    assert_eq!(table.symbol_value("start"), Some(12));
    assert_eq!(table.symbol_value("end"), None);
}

#[test]
fn test_symbol_table_rejects_duplicates() {
    let mut table = SymbolTable::new();
    assert_eq!(table.add_symbol(String::from("loop"), 0), Ok(()));
    assert_eq!(
        table.add_symbol(String::from("loop"), 8),
        Err(AssemblerError::DuplicateSymbol { name: String::from("loop") })
    );
    assert_eq!(table.symbol_value("loop"), Some(0));
}

#[test]
fn test_opcode_round_trip() {
    let all = [
        Opcode::LOAD,
        Opcode::ADD,
        Opcode::SUB,
        Opcode::MUL,
        Opcode::DIV,
        Opcode::HLT,
        Opcode::JMP,
        Opcode::JMPF,
        Opcode::JMPB,
        Opcode::EQ,
        Opcode::NEQ,
        Opcode::GT,
        Opcode::GTE,
        Opcode::LT,
        Opcode::LTE,
        Opcode::JMPE,
        Opcode::NOP,
        Opcode::ALOC,
        Opcode::INC,
        Opcode::DEC,
        Opcode::IGL,
    ];
    for op in all.into_iter() {
        assert_eq!(Opcode::from_byte(op.code()), op);
    }
}

#[test]
fn test_decode_is_total() {
    let mut b: u16 = 0;
    while b <= 255 {
        let op = Opcode::from_byte(b as u8);
        if b > 20 {
            assert_eq!(op, Opcode::IGL);
        }
        b += 1;
    }
    assert_eq!(Opcode::from_byte(200), Opcode::IGL);
}

#[test]
fn test_mnemonic_resolution() {
    assert_eq!(Opcode::from_mnemonic("aloc"), Opcode::ALOC);
    assert_eq!(Opcode::from_mnemonic("jmpe"), Opcode::JMPE);
    assert_eq!(Opcode::from_mnemonic("halt"), Opcode::IGL);
    assert_eq!(Opcode::from_mnemonic("LOAD"), Opcode::IGL);
}
