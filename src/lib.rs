//! A CHIP-8 virtual machine: memory, registers, call stack, timer, key
//! latches and a monochrome framebuffer, driven one instruction at a time.
pub mod laws;
pub mod machine;
pub mod screen;

pub use machine::{Chip8, Fault};
pub use screen::Screen;
