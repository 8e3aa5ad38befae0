//! The nucleus of a binary-instruction emulator: a register file, an
//! instruction pointer and a flat memory image, driven by a
//! fetch-decode-execute loop.
//!
//! `state` holds the mathematical model of the machine and of each
//! instruction, `instruction` the opcodes and their decoding, `fault` the
//! conditions that end a run, `emulator` the executable machine that is
//! proved to follow the model, and `laws` the properties of the model that
//! hold of every machine state.

pub mod emulator;
pub mod fault;
pub mod instruction;
pub mod laws;
pub mod state;
