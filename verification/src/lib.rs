//! A two-pass assembler for a small paged, accumulator-based 16-bit machine.
//!
//! Source text is handled as byte sequences: the driver strips comments,
//! tokenizes each line, parses it into an `Opcode` while building the
//! `SymbolTable`, and a second pass resolves operands, narrows addressing
//! modes, validates page-boundary rules and renders the listing.

pub mod ast;
pub mod symtab;
pub mod lex;
pub mod parser;
pub mod driver;
pub mod render;
pub mod encode;
pub mod laws;
