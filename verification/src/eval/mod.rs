//! The evaluator: values, environments, and the machine that computes them.

pub mod context;
pub mod correctness;
pub mod evaluation;
pub mod helper;
pub mod lib;
pub mod semantics;
pub mod value;
pub mod vm;

pub use crate::eval::vm::VM;
