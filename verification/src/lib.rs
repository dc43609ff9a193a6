//! An assembler for a small stack machine, and the machine itself.

pub mod assembler;
pub mod code_generator;
pub mod encoding;
pub mod errors;
pub mod exec;
pub mod isa;
pub mod lang;
pub mod laws;
pub mod literals;
pub mod module_manager;
pub mod parser;
pub mod program;
pub mod stack;
pub mod symbol_table;
pub mod text;
pub mod tokenizer;
