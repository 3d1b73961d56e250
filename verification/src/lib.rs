//! A 16-bit von Neumann machine: a flat 64K-word memory with a memory-mapped
//! keyboard, eight general-purpose registers, a three-valued condition flag,
//! and a sixteen-opcode instruction set driven by a fetch-decode-execute step.

pub mod cpu;
pub mod device;
pub mod instructions;
pub mod memory;
