//! A small interpreter for a language of parenthesized expressions: a scanner, a
//! recursive-descent parser, and an evaluator with closures and a fixed set of
//! builtin operations.
//!
//! The library computes on plain data only, and every function in it is verified
//! against its contract.
//!
//! - `input` turns the bytes of a program into its characters.
//! - `lexer` and `parser` turn characters into tokens and tokens into trees;
//!   `source` writes a tree back as text, and proves that reading the text gives
//!   the tree again.
//! - `eval::evaluation` defines what a tree evaluates to. `eval::semantics`
//!   describes a machine that computes it in small steps, `eval::vm` is that
//!   machine, and `eval::correctness` proves that the machine computes what the
//!   definition says.
//! - `session` evaluates a whole program, form by form.
//!
//! Numbers are IEEE 754 binary64 values, which the library carries as bit patterns
//! and never computes with. Where a numeral is to be rounded or two numbers are to
//! be added, subtracted, multiplied or divided, the machine stops and asks its
//! host; where something is to be printed, it hands the text to the host. The host
//! is whoever calls `step`: it does what it is asked and calls `step` again.

pub mod input;
pub mod text;
pub mod numeral;
pub mod lexer;
pub mod parser;
pub mod source;
pub mod session;
pub mod eval;
