//! A tape machine for the eight-instruction brainfuck language: a tokenizer,
//! a bounded byte tape, and a step-wise execution engine whose every step is
//! specified by a mathematical transition function.
pub mod instruction;
pub mod laws;
pub mod memory;
pub mod program;

pub use instruction::{Instruction, Lexer};
pub use memory::{Memory, TAPE_LEN};
pub use program::{Effect, Program};
