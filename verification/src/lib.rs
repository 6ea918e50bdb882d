//! A verified interpreter for a simple 8-bit virtual machine with a fixed
//! instruction set, flat 4 KiB memory, and a 64 x 32 monochrome framebuffer.
//!
//! The interpreter owns all machine state and exposes two operations: load a
//! program into memory, and advance execution by exactly one instruction,
//! returning an abstract time cost used by a frame scheduler for pacing.
//! Presentation, audio, keyboard mapping and program loading live outside
//! this crate; they consume the pixel grid, the tone flag and the keypad
//! array through the public surface of [`chip8::Chip8`].

pub mod chip8;
pub mod laws;
pub mod model;
pub mod opcode;
pub mod step;

pub use crate::chip8::Chip8;
pub use crate::model::Model;
pub use crate::opcode::Fault;
pub use crate::opcode::Opcode;
