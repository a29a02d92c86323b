//! A toolchain for a small 16-bit register machine: the instruction set,
//! a two-pass assembler and an emulator, with machine-checked contracts.

pub mod assembler;
pub mod emu;
pub mod isa;
pub mod machine;
pub mod registers;
pub mod text;
pub mod token;

pub use isa::{AddrMode, OpCode, Reg};
