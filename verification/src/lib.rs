//! A CHIP-8 virtual machine: memory, registers, call stack, framebuffer and
//! the instruction set that drives them. The host owns the window, the
//! keyboard, the speaker and the clock; this crate owns the machine.

pub mod display;
pub mod error;
pub mod execute;
pub mod font;
pub mod instruction;
pub mod keypad;
pub mod laws;
pub mod machine;

pub use error::Chip8Error;
pub use font::SPRITES;
pub use instruction::{decode, Instruction};
pub use keypad::{key_binding, HostKey};
pub use machine::{Chip8, Machine, Registers};
