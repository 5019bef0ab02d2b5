//! A CHIP-8 virtual machine: memory, registers, call stack, keypad, a
//! monochrome framebuffer and the fetch-decode-execute interpreter, each
//! operation proved against a model of the machine's state.
pub mod cadence;
pub mod character;
pub mod config;
pub mod error;
pub mod instruction;
pub mod keyboard;
pub mod laws;
pub mod machine;
pub mod registers;
pub mod screen;
pub mod state;

pub use cadence::Cadence;
pub use error::Chip8Error;
pub use instruction::{decode, Instruction};
pub use keyboard::Keyboard;
pub use machine::Chip8;
pub use registers::Registers;
pub use screen::Screen;
