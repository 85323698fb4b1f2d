//! An interpreter for the eight-command tape language.
//!
//! A program is a sequence of bytes. Six commands act on a bounded tape of
//! 16-bit cells and on a console, `[` and `]` delimit loops, and every other
//! byte is inert. The meaning of a program is the spec function
//! [`semantics::run`]; the executable evaluator is proved to compute it.

pub mod brackets;
pub mod console;
pub mod interpreter;
pub mod laws;
pub mod memory;
pub mod semantics;
