//! An assembler for a small CHIP-8 style instruction set and an emulator
//! that runs the assembled code.
pub mod assembler;
pub mod emulator;
pub mod semantics;
