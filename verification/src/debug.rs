//! Aids for looking at a program: the disassembler.

pub mod disasm;
