//! The tree-walking evaluator.

pub mod evaluator;
