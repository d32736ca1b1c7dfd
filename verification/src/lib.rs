//! A CHIP-8 interpreter core: memory, registers, call stack, display, keypad
//! and timers, advanced one instruction at a time.
//!
//! The machine is modelled by [`MachineState`]; every operation of [`Emu`]
//! is specified as a function on that model and proved against it.

mod alu;
pub mod display;
pub mod font;
pub mod instruction;
pub mod keypad;
pub mod laws;
pub mod machine;
pub mod semantics;
pub mod state;

pub use font::{FONTSET, FONTSET_SIZE, GLYPH_SIZE};
pub use instruction::{decode, Instruction};
pub use machine::Emu;
pub use state::{
    Fault, FaultKind, MachineState, ProgramTooLarge, RunState, FLAG_REGISTER, NUM_KEYS, NUM_REGS,
    RAM_SIZE, SCREEN_HEIGHT, SCREEN_SIZE, SCREEN_WIDTH, STACK_SIZE, START_ADDR,
};
