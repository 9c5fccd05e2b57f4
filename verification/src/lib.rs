//! A register-based virtual machine with a small textual assembler.
//!
//! The assembler turns line-oriented mnemonic source into a fixed-width
//! binary instruction format (4 bytes per instruction), and the virtual
//! machine fetches, decodes and executes that format.  The byte layout is
//! a contract shared by both sides: byte 0 carries the opcode, the
//! remaining bytes carry register indices and big-endian immediates.

pub mod assembler;
pub mod instruction;
pub mod laws;
pub mod repl;
pub mod text;
pub mod vm;
