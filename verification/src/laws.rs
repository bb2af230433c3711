//! Laws of the instruction semantics, stated over the machine model
//! and proved once for all states.

use vstd::prelude::*;

use crate::isa::Instruction;
use crate::semantics::{spec_execute, spec_step, step_uses_rand};
use crate::state::MachineV;

verus! {

/// Add-with-carry: for every register pair and all register contents,
/// the flags register becomes 1 exactly when the unsigned sum is at
/// least 256 (else 0), and the stored result is the sum modulo 256 —
/// except that when the destination is the flags register itself, the
/// flag overwrites the stored result.
pub proof fn lemma_add_with_carry(pre: MachineV, x: u8, y: u8, rand: u8)
    requires
        pre.wf(),
        x < 16,
        y < 16,
    ensures
        spec_execute(pre, Instruction::AddCarry { x, y }, rand).1 is Ok,
        spec_execute(pre, Instruction::AddCarry { x, y }, rand).0.regs[15] == (
        if pre.regs[x as int] + pre.regs[y as int] >= 256 {
            1u8
        } else {
            0u8
        }),
        x != 15 ==> spec_execute(pre, Instruction::AddCarry { x, y }, rand).0.regs[x as int] == (
        pre.regs[x as int] + pre.regs[y as int]) % 256,
{
}

/// Subtraction both ways: from the same operands, `X - Y` and the
/// reversed `Y - X` set borrow flags that are logical complements
/// whenever the two operands differ.
pub proof fn lemma_sub_flags_complement(pre: MachineV, x: u8, y: u8, rand: u8)
    requires
        pre.wf(),
        x < 16,
        y < 16,
        pre.regs[x as int] != pre.regs[y as int],
    ensures
        spec_execute(pre, Instruction::SubBorrow { x, y }, rand).0.regs[15] == 1 - spec_execute(
            pre,
            Instruction::SubReverse { x, y },
            rand,
        ).0.regs[15],
{
}

/// Shift flags: shifting right captures the low bit of the source
/// register (1 exactly for odd values), shifting left captures the
/// high bit (1 exactly for values of at least 128); every other input
/// pattern yields 0.
pub proof fn lemma_shift_flags(pre: MachineV, x: u8, y: u8, rand: u8)
    requires
        pre.wf(),
        x < 16,
        y < 16,
    ensures
        spec_execute(pre, Instruction::ShiftRight { x, y }, rand).0.regs[15] == (
        if pre.regs[y as int] % 2 == 1 {
            1u8
        } else {
            0u8
        }),
        spec_execute(pre, Instruction::ShiftLeft { x, y }, rand).0.regs[15] == (
        if pre.regs[y as int] >= 128 {
            1u8
        } else {
            0u8
        }),
{
}

/// Clear-screen is absolute: from any state — in particular after any
/// sequence of draws — it yields the all-zero display, so clearing
/// after drawing leaves exactly what the first clear left.
pub proof fn lemma_clear_screen(pre: MachineV, rand: u8)
    requires
        pre.wf(),
    ensures
        spec_execute(pre, Instruction::ClearScreen, rand).1 is Ok,
        spec_execute(pre, Instruction::ClearScreen, rand).0.gfx == Seq::new(2048, |p: int| 0u8),
        forall|p: int|
            0 <= p < 2048 ==> spec_execute(pre, Instruction::ClearScreen, rand).0.gfx[p] == 0u8,
{
}

/// A call followed by a return restores the program counter to the
/// value immediately following the call instruction and restores the
/// call stack — in particular its depth — to its pre-call state; no
/// register, memory byte or display cell changes along the way.
pub proof fn lemma_call_return(pre: MachineV, nnn: u16, r1: u8, r2: u8)
    requires
        pre.wf(),
        nnn < 4096,
        pre.stack.len() < 16,
    ensures
        ({
            let (s1, res1) = spec_execute(pre, Instruction::Call { nnn }, r1);
            let (s2, res2) = spec_execute(s1, Instruction::Return, r2);
            &&& res1 is Ok
            &&& res2 is Ok
            &&& s1.pc == nnn
            &&& s2.pc == pre.pc
            &&& s2.stack == pre.stack
            &&& s2.regs == pre.regs
            &&& s2.mem == pre.mem
            &&& s2.gfx == pre.gfx
        }),
{
    let (s1, res1) = spec_execute(pre, Instruction::Call { nnn }, r1);
    assert(s1.stack.drop_last() =~= pre.stack);
}

/// The outcome of a cycle does not depend on the drawn byte unless the
/// fetched word decodes to the random-with-mask instruction.
pub proof fn lemma_step_rand_irrelevant(pre: MachineV, r1: u8, r2: u8)
    requires
        !step_uses_rand(pre),
    ensures
        spec_step(pre, r1) == spec_step(pre, r2),
{
}

} // verus!
