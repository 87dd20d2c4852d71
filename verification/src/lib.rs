//! A CHIP-8 virtual machine: the call stack, the monochrome frame buffer
//! with its XOR sprite drawing, and the fetch/decode/execute cycle.

pub mod stack;
pub mod graphics;
pub mod chip8;
pub mod laws;
