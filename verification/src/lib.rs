//! An interpreter for a small dynamically typed scripting language with
//! curly braces: variables, first-class functions and closures, objects and
//! arrays, `if`, `while` and `for`, and a small standard library.
//!
//! A program goes through the lexer ([`tokenizer`]) and the parser
//! ([`parser`], which reads what [`grammar`] says) and is then run by one of
//! two backends: the evaluator that walks the syntax tree
//! ([`treewalk::evaluator`]), or the compiler and the stack machine
//! ([`virtual_machine`]). Both work on the same values ([`value`],
//! [`number`]) in the same store ([`store`]) with the same operators
//! ([`ops`]) and the same library ([`stdlib`]).
//!
//! Neither backend does any arithmetic on doubles or any input and output
//! by itself, and neither runs for longer than it is told. A backend is a
//! machine that makes a number of steps and then stops with a signal
//! ([`signal`]); where the program needs its host, the signal is a request
//! ([`host`]), and the machine goes on when it is handed the answer.
//!
//! What holds of the whole is stated in [`laws`], [`spelling`], [`shape`]
//! and [`agreement`]: among other things, that both backends give the same
//! requests in the same order, whatever program they run.

pub mod agreement;
pub mod ast;
pub mod common;
pub mod errors;
pub mod grammar;
pub mod host;
pub mod laws;
pub mod number;
pub mod ops;
pub mod parser;
pub mod render;
pub mod search;
pub mod shape;
pub mod signal;
pub mod spelling;
pub mod stdlib;
pub mod store;
pub mod text;
pub mod tokenizer;
pub mod treewalk;
pub mod value;
pub mod virtual_machine;
