//! Instruction-execution core of a small 8-bit CPU emulator: a
//! byte-addressable memory with bounds-checked access, register and flag
//! state, addressing-mode resolution, and a cycle-budgeted execute loop,
//! each verified against a mathematical model of the machine.

pub mod cpu;
pub mod errors;
pub mod flags;
pub mod isa;
pub mod laws;
pub mod memory;
