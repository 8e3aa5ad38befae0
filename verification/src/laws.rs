//! Properties of the machine model that hold of every state.

use crate::fault::Fault;
use crate::state::{as_signed, displacement_byte, le_bytes, little_endian, RunState, State};
use vstd::prelude::*;

verus! {

/// Decoding the little-endian encoding of a value gives the value back.
pub proof fn lemma_little_endian_of_le_bytes(value: u32)
    ensures
        le_bytes(value).len() == 4,
        little_endian(
            le_bytes(value)[0],
            le_bytes(value)[1],
            le_bytes(value)[2],
            le_bytes(value)[3],
        ) == value,
{
}

/// Reading the two's-complement byte of a displacement as a signed value
/// gives the displacement back.
pub proof fn lemma_signed_of_displacement_byte(d: i8)
    ensures
        as_signed(displacement_byte(d)) == d,
{
}

/// A load-immediate instruction sets exactly its register to the immediate,
/// bit for bit, keeps every other register and the memory, and advances the
/// instruction pointer by five. This holds for each of the eight opcodes
/// and for every 32-bit immediate, wherever the instruction pointer can
/// advance by five without leaving the 32-bit range.
pub proof fn lemma_mov_loads_immediate(s: State, opcode: u8, value: u32)
    requires
        s.wf(),
        0xb8 <= opcode <= 0xbf,
        s.eip + 5 <= s.memory.len(),
        s.memory[s.eip as int] == opcode,
        s.memory.subrange(s.eip + 1, s.eip + 5) == le_bytes(value),
        s.eip + 5 <= u32::MAX,
    ensures
        s.step() is Ok,
        s.step().unwrap().wf(),
        s.step().unwrap().regs[opcode - 0xb8] == value,
        forall|j: int|
            0 <= j < 8 && j != opcode - 0xb8 ==> s.step().unwrap().regs[j] == s.regs[j],
        s.step().unwrap().eip == s.eip + 5,
        s.step().unwrap().memory == s.memory,
{
    lemma_little_endian_of_le_bytes(value);
    let operand = s.memory.subrange(s.eip + 1, s.eip + 5);
    assert(operand[0] == s.memory[s.eip + 1]);
    assert(operand[1] == s.memory[s.eip + 2]);
    assert(operand[2] == s.memory[s.eip + 3]);
    assert(operand[3] == s.memory[s.eip + 4]);
}

/// A short jump with displacement `d`, issued at instruction pointer `p`,
/// leaves the instruction pointer at `(p + 2 + d) mod 2^32` and changes
/// nothing else. This holds for every displacement from -128 to 127.
pub proof fn lemma_short_jump_target(s: State, d: i8)
    requires
        s.eip + 2 <= s.memory.len(),
        s.memory[s.eip as int] == 0xeb,
        s.memory[s.eip + 1] == displacement_byte(d),
    ensures
        s.step() is Ok,
        s.step().unwrap().eip == (s.eip + 2 + d) % 0x1_0000_0000,
        s.step().unwrap().regs == s.regs,
        s.step().unwrap().memory == s.memory,
{
    lemma_signed_of_displacement_byte(d);
}

/// Dispatch is total on the two instruction families and fails on every
/// other opcode: the step reports an unknown opcode, naming the byte it
/// fetched, exactly when that byte is neither a load-immediate opcode nor
/// the short-jump opcode. No fetched byte makes the step report a bad
/// register.
pub proof fn lemma_dispatch(s: State, opcode: u8)
    requires
        s.read_byte(0) == Ok::<u8, Fault>(opcode),
    ensures
        !(0xb8 <= opcode <= 0xbf || opcode == 0xeb) <==> s.step() == Err::<State, Fault>(
            Fault::UnknownOpcode { opcode },
        ),
        !(s.step() matches Err(Fault::BadRegister { .. })),
        s.step() matches Err(Fault::UnknownOpcode { opcode: reported }) ==> reported == opcode,
{
}

/// An instruction changes neither the memory nor the number of registers.
pub proof fn lemma_step_keeps_memory(s: State)
    ensures
        s.step() matches Ok(next) ==> next.memory == s.memory && (s.wf() ==> next.wf()),
{
}

/// A run changes neither the memory nor the number of registers.
pub proof fn lemma_run_keeps_memory(s: State, budget: nat)
    ensures
        s.run(budget).0.memory == s.memory,
        s.wf() ==> s.run(budget).0.wf(),
    decreases budget,
{
    if budget > 0 {
        lemma_step_keeps_memory(s);
        if let Ok(next) = s.step() {
            lemma_run_keeps_memory(next, (budget - 1) as nat);
        }
    }
}

/// A run ends as halted if and only if one of its instructions leaves the
/// instruction pointer at exactly zero before any instruction faults and
/// before the budget is spent; it then stops with the instruction pointer
/// at zero.
pub proof fn lemma_run_halts_iff_eip_reaches_zero(s: State, budget: nat)
    ensures
        s.run(budget).1 == Ok::<RunState, Fault>(RunState::Halted) <==> exists|k: nat|
            1 <= k <= budget && #[trigger] s.halted_after(k),
        s.run(budget).1 == Ok::<RunState, Fault>(RunState::Halted) ==> s.run(budget).0.eip == 0,
    decreases budget,
{
    if budget > 0 {
        match s.step() {
            Err(fault) => {
                assert forall|k: nat| 1 <= k <= budget implies !#[trigger] s.halted_after(k) by {}
            },
            Ok(next) => {
                if next.eip == 0 {
                    assert(next.after(0) == Ok::<State, Fault>(next));
                    assert(s.halted_after(1));
                } else {
                    let rest = (budget - 1) as nat;
                    lemma_run_halts_iff_eip_reaches_zero(next, rest);
                    if exists|k: nat| 1 <= k <= rest && #[trigger] next.halted_after(k) {
                        let k = choose|k: nat| 1 <= k <= rest && #[trigger] next.halted_after(k);
                        assert(s.halted_after(k + 1));
                    }
                    if exists|k: nat| 1 <= k <= budget && #[trigger] s.halted_after(k) {
                        let k = choose|k: nat| 1 <= k <= budget && #[trigger] s.halted_after(k);
                        assert(next.halted_after((k - 1) as nat));
                    }
                }
            },
        }
    }
}

/// A run stops with the first instruction that leaves the instruction
/// pointer at zero: where that is instruction `k` and the budget reaches
/// it, the run ends as halted in the state after `k` instructions.
pub proof fn lemma_run_stops_at_first_zero_eip(s: State, budget: nat, k: nat)
    requires
        1 <= k <= budget,
        s.halted_after(k),
        forall|j: nat| 1 <= j < k ==> !#[trigger] s.halted_after(j),
    ensures
        s.run(budget) == (s.after(k).unwrap(), Ok::<RunState, Fault>(RunState::Halted)),
    decreases k,
{
    let next = s.step().unwrap();
    assert(next.after(0) == Ok::<State, Fault>(next));
    if k > 1 {
        assert(!s.halted_after(1));
        let rest = (k - 1) as nat;
        assert forall|j: nat| 1 <= j < rest implies !#[trigger] next.halted_after(j) by {
            assert(!s.halted_after(j + 1));
        }
        lemma_run_stops_at_first_zero_eip(next, (budget - 1) as nat, rest);
    }
}

/// A run whose instructions neither fault nor ever leave the instruction
/// pointer at zero does not end on its own: whatever the budget, it spends
/// all of it and is still running.
pub proof fn lemma_run_without_zero_eip_keeps_running(s: State, budget: nat)
    requires
        forall|k: nat| 1 <= k <= budget ==> #[trigger] s.after(k) is Ok && !s.halted_after(k),
    ensures
        s.run(budget) == (s.after(budget).unwrap(), Ok::<RunState, Fault>(RunState::Running)),
    decreases budget,
{
    if budget > 0 {
        assert(s.after(1) is Ok && !s.halted_after(1));
        let next = s.step().unwrap();
        assert(next.after(0) == Ok::<State, Fault>(next));
        let rest = (budget - 1) as nat;
        assert forall|k: nat| 1 <= k <= rest implies #[trigger] next.after(k) is Ok
            && !next.halted_after(k) by {
            assert(s.after(k + 1) is Ok && !s.halted_after(k + 1));
        }
        lemma_run_without_zero_eip_keeps_running(next, rest);
    }
}

/// A run that spent its budget can be taken up again: running `first`
/// instructions and then `second` more is running `first + second` at once.
pub proof fn lemma_run_resumes(s: State, first: nat, second: nat)
    requires
        s.run(first).1 == Ok::<RunState, Fault>(RunState::Running),
    ensures
        s.run(first + second) == s.run(first).0.run(second),
    decreases first,
{
    if first > 0 {
        let next = s.step().unwrap();
        lemma_run_resumes(next, (first - 1) as nat, second);
        assert((first + second - 1) as nat == (first - 1) as nat + second);
    }
}

/// A fault is final: a run taken up again after a fault meets the same
/// fault in the same state.
pub proof fn lemma_fault_repeats(s: State, budget: nat, again: nat)
    requires
        s.run(budget).1 is Err,
        again >= 1,
    ensures
        s.run(budget).0.run(again) == s.run(budget),
    decreases budget,
{
    if let Ok(next) = s.step() {
        lemma_fault_repeats(next, (budget - 1) as nat, again);
    }
}

} // verus!
