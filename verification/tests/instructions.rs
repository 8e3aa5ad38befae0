use x86emu::emulator::Emulator;
use x86emu::fault::Fault;
use x86emu::instruction::{Instruction, MOV_R32_IMM32, SHORT_JUMP};

fn mov_image(opcode: u8, value: u32) -> Vec<u8> {
    let mut image = vec![opcode];
    image.extend_from_slice(&value.to_le_bytes());
    image
}

#[test]
fn opcode_constants() {
    assert_eq!(MOV_R32_IMM32, 0xb8);
    assert_eq!(SHORT_JUMP, 0xeb);
}

#[test]
fn decode_knows_the_eight_loads() {
    for register in 0..8u8 {
        assert_eq!(
            Instruction::decode(0xb8 + register),
            Some(Instruction::MovR32Imm32 { register })
        );
    }
}

#[test]
fn decode_knows_the_short_jump() {
    assert_eq!(Instruction::decode(0xeb), Some(Instruction::ShortJump));
}

#[test]
fn decode_rejects_every_other_byte() {
    for opcode in 0..=255u8 {
        let defined = (0xb8..=0xbf).contains(&opcode) || opcode == 0xeb;
        assert_eq!(Instruction::decode(opcode).is_some(), defined, "opcode {:#04x}", opcode);
    }
    assert_eq!(Instruction::decode(0x00), None);
    assert_eq!(Instruction::decode(0xff), None);
    assert_eq!(Instruction::decode(0x90), None);
    assert_eq!(Instruction::decode(0xb7), None);
    assert_eq!(Instruction::decode(0xc0), None);
    assert_eq!(Instruction::decode(0xea), None);
    assert_eq!(Instruction::decode(0xec), None);
}

#[test]
fn mov_sets_only_its_register() {
    for register in 0..8u8 {
        let mut emu = Emulator::new(0, 0x7c00, mov_image(0xb8 + register, 0xdead_beef));
        assert_eq!(emu.mov_r32_imm32(register), Ok(()));
        let mut expected = [0, 0, 0, 0, 0x7c00, 0, 0, 0];
        expected[register as usize] = 0xdead_beef;
        assert_eq!(emu.registers(), expected);
        assert_eq!(emu.eip(), 5);
        assert_eq!(emu.memory(), &mov_image(0xb8 + register, 0xdead_beef)[..]);
    }
}

#[test]
fn instruct_executes_each_load_opcode() {
    for register in 0..8u8 {
        let mut emu = Emulator::new(0, 0x7c00, mov_image(0xb8 + register, 0x0102_0304));
        assert_eq!(emu.instruct(), Ok(()));
        let mut expected = [0, 0, 0, 0, 0x7c00, 0, 0, 0];
        expected[register as usize] = 0x0102_0304;
        assert_eq!(emu.registers(), expected);
        assert_eq!(emu.eip(), 5);
    }
}

#[test]
fn mov_stores_the_immediate_bit_for_bit() {
    for value in [0u32, 1, 0x7fff_ffff, 0x8000_0000, 0xffff_ffff, 0x1234_5678, 0x0000_ff00] {
        let mut emu = Emulator::new(0, 0, mov_image(0xb9, value));
        assert_eq!(emu.instruct(), Ok(()));
        assert_eq!(emu.registers(), [0, value, 0, 0, 0, 0, 0, 0]);
        assert_eq!(emu.eip(), 5);
    }
}

#[test]
fn mov_advances_from_a_nonzero_eip() {
    let mut image = vec![0x90, 0x90, 0x90];
    image.extend_from_slice(&mov_image(0xbe, 0xcafe_f00d));
    let mut emu = Emulator::new(3, 0, image);
    assert_eq!(emu.instruct(), Ok(()));
    assert_eq!(emu.registers(), [0, 0, 0, 0, 0, 0, 0xcafe_f00d, 0]);
    assert_eq!(emu.eip(), 8);
}

#[test]
fn mov_overwrites_an_earlier_load() {
    let mut image = mov_image(0xb8, 0x1111_1111);
    image.extend_from_slice(&mov_image(0xbb, 0x2222_2222));
    image.extend_from_slice(&mov_image(0xb8, 0x3333_3333));
    let mut emu = Emulator::new(0, 0, image);
    assert_eq!(emu.instruct(), Ok(()));
    assert_eq!(emu.instruct(), Ok(()));
    assert_eq!(emu.instruct(), Ok(()));
    assert_eq!(emu.registers(), [0x3333_3333, 0, 0, 0x2222_2222, 0, 0, 0, 0]);
    assert_eq!(emu.eip(), 15);
}

#[test]
fn mov_rejects_a_register_outside_the_file() {
    for index in [8u8, 9, 0x7f, 0x80, 0xff] {
        let mut emu = Emulator::new(0, 0x7c00, mov_image(0xb8, 0xdead_beef));
        assert_eq!(emu.mov_r32_imm32(index), Err(Fault::BadRegister { index }));
        assert_eq!(emu.registers(), [0, 0, 0, 0, 0x7c00, 0, 0, 0]);
        assert_eq!(emu.eip(), 0);
    }
}

#[test]
fn mov_faults_on_a_truncated_immediate() {
    for missing in 1..=4usize {
        let mut image = mov_image(0xba, 0xdead_beef);
        image.truncate(5 - missing);
        let len = image.len();
        let mut emu = Emulator::new(0, 0x7c00, image);
        assert_eq!(emu.instruct(), Err(Fault::OutOfBounds { eip: 0, offset: len }));
        assert_eq!(emu.registers(), [0, 0, 0, 0, 0x7c00, 0, 0, 0]);
        assert_eq!(emu.eip(), 0);
    }
}

#[test]
fn mov_reads_before_it_tests_the_register() {
    let mut emu = Emulator::new(0, 0, vec![0xb8, 0x01, 0x02]);
    assert_eq!(emu.mov_r32_imm32(8), Err(Fault::OutOfBounds { eip: 0, offset: 3 }));
    assert_eq!(emu.registers(), [0; 8]);
    assert_eq!(emu.eip(), 0);
}

#[test]
fn short_jump_forward() {
    let mut emu = Emulator::new(0, 0, vec![0xeb, 0x05]);
    assert_eq!(emu.short_jump(), Ok(()));
    assert_eq!(emu.eip(), 7);
    assert_eq!(emu.registers(), [0; 8]);
}

#[test]
fn short_jump_backward() {
    let mut image = vec![0u8; 0x40];
    image[0x20] = 0xeb;
    image[0x21] = 0xf0;
    let mut emu = Emulator::new(0x20, 0, image);
    assert_eq!(emu.instruct(), Ok(()));
    assert_eq!(emu.eip(), 0x12);
}

#[test]
fn short_jump_by_zero_moves_past_itself() {
    let mut emu = Emulator::new(4, 0, vec![0, 0, 0, 0, 0xeb, 0x00]);
    assert_eq!(emu.instruct(), Ok(()));
    assert_eq!(emu.eip(), 6);
}

#[test]
fn short_jump_by_largest_displacement() {
    let mut image = vec![0u8; 0x102];
    image[0x100] = 0xeb;
    image[0x101] = 0x7f;
    let mut emu = Emulator::new(0x100, 0, image);
    assert_eq!(emu.instruct(), Ok(()));
    assert_eq!(emu.eip(), 0x100 + 2 + 127);
}

#[test]
fn short_jump_by_smallest_displacement() {
    let mut image = vec![0u8; 0x102];
    image[0x100] = 0xeb;
    image[0x101] = 0x80;
    let mut emu = Emulator::new(0x100, 0, image);
    assert_eq!(emu.instruct(), Ok(()));
    assert_eq!(emu.eip(), 0x100 + 2 - 128);
}

#[test]
fn short_jump_wraps_below_zero() {
    let mut emu = Emulator::new(0, 0, vec![0xeb, 0x80]);
    assert_eq!(emu.instruct(), Ok(()));
    assert_eq!(emu.eip(), 0xffff_ff82);
    let mut other = Emulator::new(0, 0, vec![0xeb, 0xfd]);
    assert_eq!(other.instruct(), Ok(()));
    assert_eq!(other.eip(), 0xffff_ffff);
}

#[test]
fn short_jump_to_zero() {
    let mut emu = Emulator::new(5, 0, vec![0, 0, 0, 0, 0, 0xeb, 0xf9]);
    assert_eq!(emu.short_jump(), Ok(()));
    assert_eq!(emu.eip(), 0);
}

#[test]
fn short_jump_matches_the_formula_for_every_displacement() {
    for byte in 0..=255u8 {
        let mut image = vec![0u8; 0x202];
        image[0x200] = 0xeb;
        image[0x201] = byte;
        let mut emu = Emulator::new(0x200, 0x7c00, image);
        assert_eq!(emu.instruct(), Ok(()));
        let d = byte as i8 as i64;
        assert_eq!(emu.eip() as i64, (0x200 + 2 + d).rem_euclid(1 << 32));
        assert_eq!(emu.registers(), [0, 0, 0, 0, 0x7c00, 0, 0, 0]);
    }
}

#[test]
fn short_jump_faults_without_its_displacement() {
    let mut emu = Emulator::new(2, 0x7c00, vec![0, 0, 0xeb]);
    assert_eq!(emu.instruct(), Err(Fault::OutOfBounds { eip: 2, offset: 1 }));
    assert_eq!(emu.eip(), 2);
    assert_eq!(emu.registers(), [0, 0, 0, 0, 0x7c00, 0, 0, 0]);
}

#[test]
fn instruct_reports_an_unknown_opcode() {
    for opcode in [0x00u8, 0xff, 0x90, 0xb7, 0xc0, 0xea, 0xec] {
        let mut emu = Emulator::new(1, 0x7c00, vec![0xb8, opcode, 1, 2, 3, 4]);
        assert_eq!(emu.instruct(), Err(Fault::UnknownOpcode { opcode }));
        assert_eq!(emu.registers(), [0, 0, 0, 0, 0x7c00, 0, 0, 0]);
        assert_eq!(emu.eip(), 1);
    }
}

#[test]
fn instruct_accepts_exactly_the_defined_opcodes() {
    for opcode in 0..=255u8 {
        let mut emu = Emulator::new(0, 0, vec![opcode, 0, 0, 0, 0]);
        let defined = (0xb8..=0xbf).contains(&opcode) || opcode == 0xeb;
        let outcome = emu.instruct();
        if defined {
            assert_eq!(outcome, Ok(()));
        } else {
            assert_eq!(outcome, Err(Fault::UnknownOpcode { opcode }));
            assert_eq!(emu.eip(), 0);
        }
    }
}

#[test]
fn instruct_faults_when_eip_is_outside() {
    let mut emu = Emulator::new(5, 0, vec![0xb8, 1, 0, 0, 0]);
    assert_eq!(emu.instruct(), Err(Fault::OutOfBounds { eip: 5, offset: 0 }));
    assert_eq!(emu.eip(), 5);
    let mut empty = Emulator::new(0, 0, Vec::new());
    assert_eq!(empty.instruct(), Err(Fault::OutOfBounds { eip: 0, offset: 0 }));
}

#[test]
fn instruct_never_writes_memory() {
    let image = vec![0xbf, 0x2a, 0x00, 0x00, 0x00, 0xeb, 0xf9, 0x90];
    let mut emu = Emulator::new(0, 0, image.clone());
    assert_eq!(emu.instruct(), Ok(()));
    assert_eq!(emu.memory(), &image[..]);
    assert_eq!(emu.instruct(), Ok(()));
    assert_eq!(emu.memory(), &image[..]);
    let mut bad = Emulator::new(7, 0, image.clone());
    assert_eq!(bad.instruct(), Err(Fault::UnknownOpcode { opcode: 0x90 }));
    assert_eq!(bad.memory(), &image[..]);
}
