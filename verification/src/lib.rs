//! A compiler front end (lexer, diagnostics, semantic checker) and a
//! register-based virtual machine for the Quik language.
pub mod text;
pub mod instructions;
pub mod tokens;
pub mod errors;
pub mod common;
pub mod project;
pub mod lexer;
pub mod lexer_spans;
pub mod register_val;
pub mod bytecode;
pub mod vm;
pub mod threads;
pub mod vm_laws;
pub mod semantic;
