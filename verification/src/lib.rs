//! A CHIP-8 virtual machine with verified execution semantics: a 4096-byte
//! memory image, sixteen 8-bit registers, a 16-level call stack, a 64x32
//! monochrome framebuffer and a 16-key input latch, driven one instruction
//! at a time by a fetch-decode-execute step whose effect on the machine is
//! proved to match a pure transition model, instruction by instruction.

pub mod cpu;
