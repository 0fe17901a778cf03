//! A verified interpreter for the CHIP-8 virtual machine: a flat 4 KiB
//! memory with a built-in font, sixteen 8-bit registers, a sixteen-slot call
//! stack, a 64x32 monochrome framebuffer with XOR sprite blitting, a
//! single-key input latch, and a lazily derived 60 Hz countdown timer.

pub mod bits;
pub mod bus;
pub mod chip8;
pub mod cpu;
pub mod display;
pub mod keyboard;
pub mod memory;
