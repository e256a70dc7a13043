//! A tree-walking evaluator for a small imperative scripting language: integers,
//! booleans, strings and lists, arithmetic and comparisons, assignment with list
//! destructuring, compound assignment, `if` chains and `while` loops, and native
//! functions that the host provides. Every function states what it does against the
//! semantics in `eval`, `destructure` and `exec`, and Verus proves it.
pub mod ast;
pub mod destructure;
pub mod env;
pub mod error;
pub mod eval;
pub mod exec;
pub mod laws;
pub mod value;
