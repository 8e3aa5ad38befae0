//! The conditions that end a run without reaching the halt sentinel.

use vstd::prelude::*;

verus! {

/// A fatal condition. Every fault ends the run; none is recovered from.
#[derive(Clone, Copy, Debug, PartialEq, Eq)]
pub enum Fault {
    /// The byte fetched at the instruction pointer selects no instruction.
    UnknownOpcode { opcode: u8 },
    /// A handler was asked to write a register outside `0..=7`.
    BadRegister { index: u8 },
    /// A read reached outside the memory image. The faulting address is
    /// `eip + offset`, kept in two parts because the sum may exceed any
    /// machine integer.
    OutOfBounds { eip: u32, offset: usize },
}

} // verus!
