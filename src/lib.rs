//! An emulator core for the CHIP-8 virtual machine: memory, registers, call
//! stack, timers, a monochrome framebuffer and a sixteen-key keypad, driven by
//! a verified fetch-decode-execute engine.

pub mod chip_8;
pub mod instruction;
pub mod laws;
pub mod machine;
