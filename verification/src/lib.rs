//! A CHIP-8 interpreter core: the machine state, the instruction decoder and
//! the execution of every instruction, each with its contract.

pub mod font;
pub mod keyboard;
pub mod machine;
pub mod opcode;
pub mod cpu;
mod random;
pub mod laws;
pub mod semantics;
