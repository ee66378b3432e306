//! The bytecode compiler and the stack machine.

pub mod bytecode;
pub mod codegen;
pub mod interpreter;
pub mod layout;
