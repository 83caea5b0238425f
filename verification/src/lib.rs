//! A CHIP-8 virtual machine: the interpreter engine, its bit-packed display
//! and the compositor that turns the display into a buffer of colours.

pub mod alu;
pub mod bits;
pub mod compositor;
pub mod display;
pub mod emulator;
pub mod fault;
pub mod instruction;
pub mod memory;
pub mod state;
