//! An RV64IM interpreter core: a flat DRAM bus, the register file, the
//! instruction decoder, the execution semantics and a textual disassembler.

pub mod alu;
pub mod bus;
pub mod cpu;
pub mod debug;
pub mod decode;
