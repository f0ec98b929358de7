//! A small object-oriented scripting language: sources are parsed with the
//! grmtools LR toolchain, lowered to a flat bytecode program with a symbol
//! and label table, and executed on a stack-based virtual machine.
pub mod bytecode;
pub mod context;
pub mod emit;
pub mod float;
pub mod frontend;
pub mod interp;
pub mod laws;
pub mod numfmt;
pub mod parse;
pub mod sem;
pub mod table;
pub mod tree;
pub mod value;
