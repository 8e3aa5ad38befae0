//! The instruction set: which opcode bytes select which instruction.

use vstd::prelude::*;

verus! {

/// Opcode of the load of an immediate into register 0. The seven opcodes
/// that follow it load registers 1 to 7.
pub const MOV_R32_IMM32: u8 = 0xb8;

/// Opcode of the relative short jump.
pub const SHORT_JUMP: u8 = 0xeb;

/// A decoded opcode.
#[derive(Clone, Copy, Debug, PartialEq, Eq)]
pub enum Instruction {
    /// Load the 32-bit immediate that follows the opcode into `register`.
    MovR32Imm32 { register: u8 },
    /// Jump by the signed 8-bit displacement that follows the opcode.
    ShortJump,
}

impl Instruction {
    /// The instruction that `opcode` selects, if it selects one.
    pub open spec fn spec_decode(opcode: u8) -> Option<Instruction> {
        if MOV_R32_IMM32 <= opcode <= MOV_R32_IMM32 + 7 {
            Some(Instruction::MovR32Imm32 { register: (opcode - MOV_R32_IMM32) as u8 })
        } else if opcode == SHORT_JUMP {
            Some(Instruction::ShortJump)
        } else {
            None
        }
    }

    /// Decodes an opcode byte. Every byte outside the two instruction
    /// families gives `None`.
    #[verifier::when_used_as_spec(spec_decode)]
    pub fn decode(opcode: u8) -> (r: Option<Instruction>)
        ensures
            r == Self::spec_decode(opcode),
            r is Some <==> 0xb8 <= opcode <= 0xbf || opcode == 0xeb,
            r matches Some(Instruction::MovR32Imm32 { register }) ==> register <= 7,
    {
        match opcode {
            0xb8 => Some(Instruction::MovR32Imm32 { register: 0 }),
            0xb9 => Some(Instruction::MovR32Imm32 { register: 1 }),
            0xba => Some(Instruction::MovR32Imm32 { register: 2 }),
            0xbb => Some(Instruction::MovR32Imm32 { register: 3 }),
            0xbc => Some(Instruction::MovR32Imm32 { register: 4 }),
            0xbd => Some(Instruction::MovR32Imm32 { register: 5 }),
            0xbe => Some(Instruction::MovR32Imm32 { register: 6 }),
            0xbf => Some(Instruction::MovR32Imm32 { register: 7 }),
            0xeb => Some(Instruction::ShortJump),
            _ => None,
        }
    }
}

} // verus!
