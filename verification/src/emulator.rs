//! The executable machine.

use crate::fault::Fault;
use crate::instruction::Instruction;
use crate::state::{as_signed, wrap32, RunState, State, HALT_EIP};
use vstd::prelude::*;

verus! {

/// Registers, instruction pointer and the memory image of one emulation
/// run. The image is owned by the machine and never written.
pub struct Emulator {
    eax: u32,
    ecx: u32,
    edx: u32,
    ebx: u32,
    esp: u32,
    ebp: u32,
    esi: u32,
    edi: u32,
    memory: Vec<u8>,
    eip: u32,
}

impl View for Emulator {
    type V = State;

    closed spec fn view(&self) -> State {
        State {
            regs: seq![
                self.eax,
                self.ecx,
                self.edx,
                self.ebx,
                self.esp,
                self.ebp,
                self.esi,
                self.edi,
            ],
            eip: self.eip,
            memory: self.memory@,
        }
    }
}

impl Emulator {
    /// A machine that starts at `eip` with the stack pointer at `esp`, every
    /// other register zero, and `binary` as its memory.
    pub fn new(eip: u32, esp: u32, binary: Vec<u8>) -> (emu: Emulator)
        ensures
            emu@.regs == seq![0u32, 0u32, 0u32, 0u32, esp, 0u32, 0u32, 0u32],
            emu@.eip == eip,
            emu@.memory == binary@,
    {
        Emulator {
            eax: 0,
            ecx: 0,
            edx: 0,
            ebx: 0,
            esp,
            ebp: 0,
            esi: 0,
            edi: 0,
            memory: binary,
            eip,
        }
    }

    /// The instruction pointer.
    pub fn eip(&self) -> (eip: u32)
        ensures
            eip == self@.eip,
    {
        self.eip
    }

    /// The eight general-purpose registers, by index.
    pub fn registers(&self) -> (regs: [u32; 8])
        ensures
            regs@ == self@.regs,
    {
        [self.eax, self.ecx, self.edx, self.ebx, self.esp, self.ebp, self.esi, self.edi]
    }

    /// The memory image.
    pub fn memory(&self) -> (memory: &[u8])
        ensures
            memory@ == self@.memory,
    {
        self.memory.as_slice()
    }

    /// Every machine has eight registers.
    pub proof fn lemma_view_wf(&self)
        ensures
            self@.wf(),
    {
    }

    /// Reads the byte at `eip + index`.
    pub fn get_code8(&self, index: usize) -> (r: Result<u8, Fault>)
        ensures
            r == self@.read_byte(index),
    {
        let len: usize = self.memory.len();
        if index < len && (self.eip as usize) < len - index {
            Ok(self.memory[self.eip as usize + index])
        } else {
            Err(Fault::OutOfBounds { eip: self.eip, offset: index })
        }
    }

    /// Reads the byte at `eip + index` as a signed value.
    pub fn get_sign_code8(&self, index: usize) -> (r: Result<i8, Fault>)
        ensures
            r == self@.read_signed_byte(index),
    {
        let byte: u8 = self.get_code8(index)?;
        assert(byte as i8 == as_signed(byte)) by (bit_vector);
        Ok(byte as i8)
    }

    /// Reads the little-endian 32-bit value at `eip + index`.
    pub fn get_code32(&self, index: usize) -> (r: Result<u32, Fault>)
        ensures
            r == self@.read_dword(index),
    {
        let mut ret: u32 = 0;
        let mut i: usize = 0;
        while i < 4
            invariant
                i <= 4,
                i > 0 ==> self.eip + index + i <= self@.memory.len(),
                ret == partial_little_endian(self@.memory, self.eip + index, i as int),
            decreases 4 - i,
        {
            assert(self@.memory.len() == self.memory.len());
            let byte: u8 = self.get_code8(index + i)?;
            proof {
                lemma_or_places_byte(ret, byte, i);
            }
            ret |= (byte as u32) << (i * 8);
            i += 1;
        }
        Ok(ret)
    }

    /// Executes the load of an immediate into register `register_index`,
    /// with `eip` at the opcode. On a fault nothing has changed.
    pub fn mov_r32_imm32(&mut self, register_index: u8) -> (r: Result<(), Fault>)
        ensures
            (match old(self)@.mov_r32_imm32(register_index) {
                Ok(next) => r is Ok && final(self)@ == next,
                Err(fault) => r == Err::<(), Fault>(fault) && final(self)@ == old(self)@,
            }),
    {
        let value: u32 = self.get_code32(1)?;
        match register_index {
            0 => self.eax = value,
            1 => self.ecx = value,
            2 => self.edx = value,
            3 => self.ebx = value,
            4 => self.esp = value,
            5 => self.ebp = value,
            6 => self.esi = value,
            7 => self.edi = value,
            _ => {
                return Err(Fault::BadRegister { index: register_index });
            },
        }
        self.eip = self.eip.wrapping_add(5);
        Ok(())
    }

    /// Executes the relative short jump, with `eip` at the opcode. On a
    /// fault nothing has changed.
    pub fn short_jump(&mut self) -> (r: Result<(), Fault>)
        ensures
            (match old(self)@.short_jump() {
                Ok(next) => r is Ok && final(self)@ == next,
                Err(fault) => r == Err::<(), Fault>(fault) && final(self)@ == old(self)@,
            }),
    {
        let diff: i8 = self.get_sign_code8(1)?;
        let target: i64 = self.eip as i64 + 2 + diff as i64;
        proof {
            lemma_truncation_wraps(target);
        }
        self.eip = target as u32;
        Ok(())
    }

    /// Fetches, decodes and executes the instruction at `eip`. On a fault,
    /// an opcode that selects no instruction among them, nothing has
    /// changed.
    pub fn instruct(&mut self) -> (r: Result<(), Fault>)
        ensures
            (match old(self)@.step() {
                Ok(next) => r is Ok && final(self)@ == next,
                Err(fault) => r == Err::<(), Fault>(fault) && final(self)@ == old(self)@,
            }),
            final(self)@.memory == old(self)@.memory,
    {
        let code: u8 = self.get_code8(0)?;
        match Instruction::decode(code) {
            Some(Instruction::MovR32Imm32 { register }) => self.mov_r32_imm32(register),
            Some(Instruction::ShortJump) => self.short_jump(),
            None => Err(Fault::UnknownOpcode { opcode: code }),
        }
    }

    /// Executes instructions until one leaves `eip` at the halt sentinel,
    /// one faults, or `max_steps` of them are done. The sentinel is tested
    /// after each instruction, never before the first. A faulting
    /// instruction changes nothing; what the instructions before it did
    /// stays. After `Ok(RunState::Running)` a further call takes the run up
    /// where this one left it.
    pub fn run(&mut self, max_steps: u64) -> (r: Result<RunState, Fault>)
        ensures
            (final(self)@, r) == old(self)@.run(max_steps as nat),
            final(self)@.memory == old(self)@.memory,
            r == Ok::<RunState, Fault>(RunState::Halted) ==> final(self)@.eip == HALT_EIP,
    {
        let mut remaining: u64 = max_steps;
        while remaining > 0
            invariant
                self@.run(remaining as nat) == old(self)@.run(max_steps as nat),
                self@.memory == old(self)@.memory,
            decreases remaining,
        {
            self.instruct()?;
            if self.eip == HALT_EIP {
                return Ok(RunState::Halted);
            }
            remaining -= 1;
        }
        Ok(RunState::Running)
    }
}

/// The value of the first `n` of the four bytes of `memory` from `base` on,
/// least significant first.
spec fn partial_little_endian(memory: Seq<u8>, base: int, n: int) -> int {
    (if n >= 1 { memory[base] as int } else { 0 })
    + (if n >= 2 { memory[base + 1] * 0x100 } else { 0 })
    + (if n >= 3 { memory[base + 2] * 0x1_0000 } else { 0 })
    + (if n >= 4 { memory[base + 3] * 0x100_0000 } else { 0 })
}

/// Narrowing a jump target to 32 bits keeps it modulo 2^32.
proof fn lemma_truncation_wraps(target: i64)
    requires
        -0x80 <= target <= 0x1_0000_0080,
    ensures
        target as u32 == wrap32(target as int),
{
    assert(-0x80 <= target < 0 ==> target as u32 == target + 0x1_0000_0000) by (bit_vector);
    assert(0 <= target < 0x1_0000_0000 ==> target as u32 == target) by (bit_vector);
    assert(0x1_0000_0000 <= target <= 0x1_0000_0080 ==> target as u32 == target - 0x1_0000_0000)
        by (bit_vector);
}

/// Or-ing byte `i` into an accumulator that holds the `i` lower bytes adds
/// the byte at its place value.
proof fn lemma_or_places_byte(acc: u32, byte: u8, i: usize)
    requires
        i < 4,
        i == 0 ==> acc == 0,
        i == 1 ==> acc < 0x100,
        i == 2 ==> acc < 0x1_0000,
        i == 3 ==> acc < 0x100_0000,
    ensures
        i == 0 ==> acc | (byte as u32) << ((i * 8) as usize) == byte,
        i == 1 ==> acc | (byte as u32) << ((i * 8) as usize) == acc + byte * 0x100,
        i == 2 ==> acc | (byte as u32) << ((i * 8) as usize) == acc + byte * 0x1_0000,
        i == 3 ==> acc | (byte as u32) << ((i * 8) as usize) == acc + byte * 0x100_0000,
{
    let b: u32 = byte as u32;
    assert(0u32 | b << 0usize == b) by (bit_vector);
    assert(acc < 0x100 && b < 0x100 ==> acc | b << 8usize == acc + b * 0x100) by (bit_vector);
    assert(acc < 0x1_0000 && b < 0x100 ==> acc | b << 16usize == acc + b * 0x1_0000)
        by (bit_vector);
    assert(acc < 0x100_0000 && b < 0x100 ==> acc | b << 24usize == acc + b * 0x100_0000)
        by (bit_vector);
}

} // verus!
