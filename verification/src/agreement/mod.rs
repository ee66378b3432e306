//! The agreement of the two backends: the stack machine, running the code
//! that the compiler emits for a program, does what the tree-walking
//! evaluator does on the program itself.

pub mod calls;
pub mod code;
pub mod nodes;
pub mod relation;
pub mod steps;
pub mod tasks;
pub mod theorem;
