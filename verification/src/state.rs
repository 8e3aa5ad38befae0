//! The mathematical model of the machine: its state, the reads of code
//! bytes relative to the instruction pointer, and what each instruction
//! does to the state.

use crate::fault::Fault;
use crate::instruction::Instruction;
use vstd::prelude::*;

verus! {

/// Number of general-purpose registers.
pub const REGISTER_COUNT: usize = 8;

/// The instruction pointer value that ends a run.
pub const HALT_EIP: u32 = 0;

/// Whether a run has reached the halt sentinel.
#[derive(Clone, Copy, Debug, PartialEq, Eq)]
pub enum RunState {
    /// The last instruction left no halt sentinel in the instruction
    /// pointer: the machine would go on.
    Running,
    /// The last instruction left the instruction pointer at the halt
    /// sentinel.
    Halted,
}

/// The machine state as plain mathematics.
#[verifier::ext_equal]
pub struct State {
    /// The general-purpose registers, by index: accumulator, counter, data,
    /// base, stack pointer, base pointer, source index, destination index.
    pub regs: Seq<u32>,
    /// Offset into `memory` of the next instruction.
    pub eip: u32,
    /// The loaded image.
    pub memory: Seq<u8>,
}

/// The byte `b` read as a two's-complement signed value.
pub open spec fn as_signed(b: u8) -> i8 {
    if b < 128 {
        b as i8
    } else {
        (b - 256) as i8
    }
}

/// The 32-bit value whose little-endian encoding is `b0, b1, b2, b3`.
pub open spec fn little_endian(b0: u8, b1: u8, b2: u8, b3: u8) -> u32 {
    (b0 + b1 * 0x100 + b2 * 0x1_0000 + b3 * 0x100_0000) as u32
}

/// The little-endian encoding of `value`: four bytes, least significant
/// first.
pub open spec fn le_bytes(value: u32) -> Seq<u8> {
    seq![
        (value % 0x100) as u8,
        (value / 0x100 % 0x100) as u8,
        (value / 0x1_0000 % 0x100) as u8,
        (value / 0x100_0000) as u8,
    ]
}

/// The byte that encodes the signed displacement `d` in two's complement.
pub open spec fn displacement_byte(d: i8) -> u8 {
    (d as int % 0x100) as u8
}

/// The integer `x` reduced into the 32-bit range of the instruction pointer.
pub open spec fn wrap32(x: int) -> u32 {
    (x % 0x1_0000_0000) as u32
}

impl State {
    /// A state has exactly eight registers.
    pub open spec fn wf(self) -> bool {
        self.regs.len() == REGISTER_COUNT
    }

    /// The byte at `eip + offset`, or the fault of reaching outside memory.
    pub open spec fn read_byte(self, offset: usize) -> Result<u8, Fault> {
        if self.eip + offset < self.memory.len() {
            Ok(self.memory[self.eip + offset])
        } else {
            Err(Fault::OutOfBounds { eip: self.eip, offset })
        }
    }

    /// The byte at `eip + offset` as a signed displacement.
    pub open spec fn read_signed_byte(self, offset: usize) -> Result<i8, Fault> {
        match self.read_byte(offset) {
            Ok(b) => Ok(as_signed(b)),
            Err(fault) => Err(fault),
        }
    }

    /// The four bytes from `eip + offset` on, least significant first. Where
    /// they do not all lie in memory, the fault names the first that does
    /// not.
    pub open spec fn read_dword(self, offset: usize) -> Result<u32, Fault> {
        let base = self.eip + offset;
        if base + 4 <= self.memory.len() {
            Ok(
                little_endian(
                    self.memory[base],
                    self.memory[base + 1],
                    self.memory[base + 2],
                    self.memory[base + 3],
                ),
            )
        } else if base < self.memory.len() {
            Err(
                Fault::OutOfBounds {
                    eip: self.eip,
                    offset: (self.memory.len() - self.eip) as usize,
                },
            )
        } else {
            Err(Fault::OutOfBounds { eip: self.eip, offset })
        }
    }

    /// The load of an immediate into register `register_index`, issued at
    /// `eip`: the register takes the 32-bit value that follows the opcode
    /// and the instruction pointer moves on by the five bytes of the
    /// instruction. Memory and the other registers stay.
    pub open spec fn mov_r32_imm32(self, register_index: u8) -> Result<State, Fault> {
        match self.read_dword(1) {
            Err(fault) => Err(fault),
            Ok(value) => if register_index >= REGISTER_COUNT {
                Err(Fault::BadRegister { index: register_index })
            } else {
                Ok(
                    State {
                        regs: self.regs.update(register_index as int, value),
                        eip: wrap32(self.eip + 5),
                        memory: self.memory,
                    },
                )
            },
        }
    }

    /// The relative short jump issued at `eip`: the instruction pointer
    /// becomes the address after the two bytes of the instruction plus the
    /// signed displacement, reduced to 32 bits. Nothing else changes.
    pub open spec fn short_jump(self) -> Result<State, Fault> {
        match self.read_signed_byte(1) {
            Err(fault) => Err(fault),
            Ok(displacement) => Ok(
                State {
                    regs: self.regs,
                    eip: wrap32(self.eip + 2 + displacement),
                    memory: self.memory,
                },
            ),
        }
    }

    /// One instruction: fetch the opcode at `eip`, decode it, execute it.
    pub open spec fn step(self) -> Result<State, Fault> {
        match self.read_byte(0) {
            Err(fault) => Err(fault),
            Ok(opcode) => match Instruction::spec_decode(opcode) {
                None => Err(Fault::UnknownOpcode { opcode }),
                Some(Instruction::MovR32Imm32 { register }) => self.mov_r32_imm32(register),
                Some(Instruction::ShortJump) => self.short_jump(),
            },
        }
    }

    /// The state after `n` instructions, or the fault of the first of them
    /// that faults. The halt sentinel is not looked at.
    pub open spec fn after(self, n: nat) -> Result<State, Fault>
        decreases n,
    {
        if n == 0 {
            Ok(self)
        } else {
            match self.step() {
                Err(fault) => Err(fault),
                Ok(next) => next.after((n - 1) as nat),
            }
        }
    }

    /// The first `n` instructions execute without a fault and the last of
    /// them leaves the instruction pointer at the halt sentinel.
    pub open spec fn halted_after(self, n: nat) -> bool {
        self.after(n) matches Ok(reached) && reached.eip == HALT_EIP
    }

    /// A run of at most `budget` instructions. It ends early at the first
    /// instruction that leaves the instruction pointer at the halt sentinel
    /// and at the first that faults; a faulting instruction leaves the state
    /// as it found it. The sentinel is tested only after an instruction, so
    /// a run that starts at the sentinel still executes.
    pub open spec fn run(self, budget: nat) -> (State, Result<RunState, Fault>)
        decreases budget,
    {
        if budget == 0 {
            (self, Ok(RunState::Running))
        } else {
            match self.step() {
                Err(fault) => (self, Err(fault)),
                Ok(next) => if next.eip == HALT_EIP {
                    (next, Ok(RunState::Halted))
                } else {
                    next.run((budget - 1) as nat)
                },
            }
        }
    }
}

} // verus!
