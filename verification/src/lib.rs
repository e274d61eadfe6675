//! A verified interpreter core for a small subset of the 32-bit x86
//! instruction set: CPU state (registers, flags, flat memory), the ModR/M
//! addressing-mode decoder, an opcode dispatch table, and the per-instruction
//! execution semantics.

pub mod config;
pub mod emulator;
pub mod instruction;
