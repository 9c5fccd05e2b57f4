use iridium::assembler::AssemblerError;
use iridium::repl::{HexParseError, REPL};

#[test]
fn test_run_quit() {
    let mut test_repl = REPL::new();
    let outcome = test_repl.handle_line(".quit");
    let output = format!(">>> {}", outcome.output);
    assert_eq!(">>> Farewell! Have a great day!\n", output);
    assert!(outcome.quit);
}

#[test]
fn test_run_history() {
    let mut test_repl = REPL::new();
    test_repl.command_buffer.push(".registers".to_string());
    test_repl.command_buffer.push(".program".to_string());
    let outcome = test_repl.handle_line(".history");
    let output = format!(">>> {}", outcome.output);
    assert_eq!(">>> .registers\n.program\n.history\n", output);
}

#[test]
fn test_run_program() {
    let mut test_repl = REPL::new();
    test_repl.vm.program = vec![0, 1, 2, 3];
    let outcome = test_repl.handle_line(".program");
    let output = format!(">>> {}", outcome.output);
    assert_eq!(">>> 0\n1\n2\n3\nEnd of Program Listing\n", output);
}

#[test]
fn test_run_registers() {
    let mut test_repl = REPL::new();
    test_repl.vm.registers = vec![
        1, 2, 3, 4, 5, 6, 7, 8, 1, 2, 3, 4, 5, 6, 7, 8, 1, 2, 3, 4, 5, 6, 7, 8, 1, 2, 3, 4, 5,
        6, 7, 8,
    ];
    let outcome = test_repl.handle_line(".registers");
    let output = format!(">>> {}", outcome.output);
    assert_eq!(">>> Listing registers and all contents:\n[\n    1,\n    2,\n    3,\n    4,\n    5,\n    6,\n    7,\n    8,\n    1,\n    2,\n    3,\n    4,\n    5,\n    6,\n    7,\n    8,\n    1,\n    2,\n    3,\n    4,\n    5,\n    6,\n    7,\n    8,\n    1,\n    2,\n    3,\n    4,\n    5,\n    6,\n    7,\n    8,\n]\nEnd of Program Listing\n", output);
}

#[test]
fn test_run_load_file_request() {
    let mut test_repl = REPL::new();
    let outcome = test_repl.handle_line(".load_file");
    assert!(outcome.request_file);
    assert!(!outcome.quit);
    assert_eq!(
        outcome.output,
        "Please enter the path to the file you wish to load: "
    );
}

#[test]
fn test_load_source_appends_program() {
    let mut test_repl = REPL::new();
    let result = test_repl.load_source("load $0 #100\n");
    assert_eq!(result, None);
    assert_eq!(test_repl.vm.program, vec![0, 0, 0, 100]);
    // Nothing has executed: the counter has not moved.
    assert_eq!(test_repl.vm.pc, 0);
    assert_eq!(test_repl.vm.registers[0], 0);
}

#[test]
fn test_load_source_reports_bad_line() {
    let mut test_repl = REPL::new();
    let result = test_repl.load_source("not !assembly");
    assert_eq!(
        result,
        Some(AssemblerError::UnparseableLine {
            line_index: 0,
            line: String::from("not !assembly"),
        })
    );
    assert_eq!(test_repl.vm.program.len(), 0);
}

#[test]
fn test_typed_instruction_runs() {
    let mut test_repl = REPL::new();
    let outcome = test_repl.handle_line("load $1 #500");
    assert!(!outcome.quit);
    assert_eq!(outcome.error, None);
    assert_eq!(test_repl.vm.program, vec![0, 1, 1, 244]);
    assert_eq!(test_repl.vm.registers[1], 500);
    assert_eq!(test_repl.vm.pc, 4);
}

#[test]
fn test_unparseable_line_is_not_fatal() {
    let mut test_repl = REPL::new();
    let outcome = test_repl.handle_line("gibberish !!");
    // A parse fault is local to the offending line: it is reported,
    // the machine is untouched, and the shell keeps accepting input.
    assert!(!outcome.quit);
    assert_eq!(
        outcome.error,
        Some(AssemblerError::UnparseableLine {
            line_index: 0,
            line: String::from("gibberish !!"),
        })
    );
    assert_eq!(test_repl.vm.program.len(), 0);
    let outcome = test_repl.handle_line("load $0 #7");
    assert_eq!(outcome.error, None);
    assert!(!outcome.quit);
    assert_eq!(test_repl.vm.registers[0], 7);
}

#[test]
fn test_program_listing_console_note() {
    let mut test_repl = REPL::new();
    let outcome = test_repl.handle_line(".program");
    assert_eq!(
        outcome.note,
        "Listing instructions currently in VM's program vector:\n"
    );
    let outcome = test_repl.handle_line(".registers");
    assert_eq!(outcome.note, "");
}

#[test]
fn test_history_includes_itself() {
    let mut test_repl = REPL::new();
    test_repl.handle_line("  .quit  ");
    assert_eq!(test_repl.command_buffer, vec![".quit".to_string()]);
}

#[test]
fn test_parse_hex() {
    let mut test_repl = REPL::new();
    let hex_string = "00 01 03 E8";
    let hex_vec = test_repl.parse_hex(hex_string).unwrap();
    assert_eq!(hex_vec.len(), 4);
    assert_eq!(hex_vec[0], 0x00);
    assert_eq!(hex_vec[1], 0x01);
    assert_eq!(hex_vec[2], 0x03);
    assert_eq!(hex_vec[3], 0xE8);
}

#[test]
fn test_parse_hex_rejects_bad_digit() {
    let mut test_repl = REPL::new();
    assert_eq!(test_repl.parse_hex("kaboom"), Err(HexParseError::InvalidDigit));
}

#[test]
fn test_parse_hex_rejects_empty_group() {
    let mut test_repl = REPL::new();
    assert_eq!(test_repl.parse_hex(""), Err(HexParseError::Empty));
    assert_eq!(test_repl.parse_hex("00  01"), Err(HexParseError::Empty));
}

#[test]
fn test_parse_hex_rejects_overflow() {
    let mut test_repl = REPL::new();
    assert_eq!(test_repl.parse_hex("100"), Err(HexParseError::Overflow));
}
