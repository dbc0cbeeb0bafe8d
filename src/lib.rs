//! An interpreter core for the CHIP-8 virtual machine: machine state,
//! instruction decoding and a verified fetch-decode-execute step.
use vstd::prelude::*;

pub mod instruction;

pub use instruction::{decode, Instruction};
pub use machine::{
    Chip8, Chip8View, Fault, LoadError, DISPLAY_SIZE, MAX_PROGRAM_LEN, MEM_SIZE, PC_START, SCREEN_HEIGHT,
    SCREEN_WIDTH,
};
pub mod machine;
mod random;
pub mod laws;
