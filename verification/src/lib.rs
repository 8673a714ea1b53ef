//! An interpreter for the CHIP-8 virtual machine: sixteen 8-bit registers,
//! 4096 bytes of memory, a call stack of sixteen addresses, two countdown
//! timers, a monochrome display of 64 by 32 pixels and a keypad of sixteen
//! keys.
//!
//! `state` holds the machine as a mathematical value and says what every
//! instruction does to it; `machine` holds the interpreter itself, each of
//! whose operations is proved to do exactly that.
//!
//! The call stack is a ring: a call from slot 15 continues in slot 0, and a
//! return from slot 0 takes the address in slot 15. The program counter and
//! the index register are 16-bit registers and wrap as such. An instruction
//! that would reach beyond the end of memory is refused, and the machine is
//! left untouched.

pub mod error;
pub mod font;
pub mod laws;
pub mod machine;
pub mod opcode;
mod random;
pub mod sprite;
pub mod state;

pub use error::Chip8Error;
pub use machine::Chip8;
