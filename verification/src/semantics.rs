//! The meaning of each instruction: a total function from machine
//! state (and one random byte) to machine state and outcome.
//!
//! `spec_execute` acts on a state whose program counter has already
//! been advanced past the instruction word, as `spec_step` does after
//! the fetch; a skip adds a further 2 on top, a jump or call overrides
//! the counter with an absolute value.

use vstd::prelude::*;

use crate::isa::{spec_decode, Chip8Error, Instruction};
use crate::state::MachineV;

verus! {

/// The program counter after a conditional skip: two further bytes
/// when the condition holds.
pub open spec fn skip_pc(pc: u16, cond: bool) -> u16 {
    if cond {
        ((pc + 2) as u16)
    } else {
        pc
    }
}

/// The lowest pressed key at or above index `i`, if any.
pub open spec fn first_key_from(keys: Seq<u8>, i: int) -> Option<u8>
    decreases 16 - i,
{
    if i < 0 || i >= 16 {
        None
    } else if keys[i] == 1 {
        Some(i as u8)
    } else {
        first_key_from(keys, i + 1)
    }
}

/// Bit `k` of a sprite row byte, leftmost pixel first: bit 7 of the
/// byte is pixel 0.
pub open spec fn sprite_bit(b: u8, k: int) -> u8 {
    (b >> ((7 - k) as u8)) & 1
}

/// Display cell `p` after drawing an 8-wide, `n`-tall sprite whose
/// rows start at `mem[i]`, at origin `(x0, y0)` with wraparound on the
/// 64x32 grid.  A covered cell is XORed with its sprite bit; every
/// other cell keeps its value.
pub open spec fn draw_cell(
    gfx: Seq<u8>,
    mem: Seq<u8>,
    i: int,
    x0: int,
    y0: int,
    n: int,
    p: int,
) -> u8 {
    let x = p % 64;
    let y = p / 64;
    let row = (y - y0) % 32;
    let k = (x - x0) % 64;
    if row < n && k < 8 {
        gfx[p] ^ sprite_bit(mem[i + row], k)
    } else {
        gfx[p]
    }
}

/// The whole display after a sprite draw.
pub open spec fn spec_draw(
    gfx: Seq<u8>,
    mem: Seq<u8>,
    i: int,
    x0: int,
    y0: int,
    n: int,
) -> Seq<u8> {
    Seq::new(2048, |p: int| draw_cell(gfx, mem, i, x0, y0, n, p))
}

/// Whether the draw turns cell `p` from on to off: the cell is covered,
/// currently on, and its sprite bit is set.
pub open spec fn draw_collision_at(
    gfx: Seq<u8>,
    mem: Seq<u8>,
    i: int,
    x0: int,
    y0: int,
    n: int,
    p: int,
) -> bool {
    let x = p % 64;
    let y = p / 64;
    let row = (y - y0) % 32;
    let k = (x - x0) % 64;
    &&& row < n
    &&& k < 8
    &&& gfx[p] == 1
    &&& sprite_bit(mem[i + row], k) == 1
}

/// Whether the draw turns any cell from on to off.
pub open spec fn spec_draw_collision(
    gfx: Seq<u8>,
    mem: Seq<u8>,
    i: int,
    x0: int,
    y0: int,
    n: int,
) -> bool {
    exists|p: int| 0 <= p < 2048 && draw_collision_at(gfx, mem, i, x0, y0, n, p)
}

/// Whether an instruction belongs to the conditional-skip family.
pub open spec fn is_skip(inst: Instruction) -> bool {
    ||| inst is SkipEqImm
    ||| inst is SkipNeImm
    ||| inst is SkipEqReg
    ||| inst is SkipNeReg
    ||| inst is SkipKeyPressed
    ||| inst is SkipKeyNotPressed
}

/// What `execute` asks of its caller beyond well-formedness: the skips
/// advance the counter by two further bytes without wrapping, and the
/// blocking key wait reverts the two-byte advance of the fetch.
pub open spec fn execute_pre(pre: MachineV, inst: Instruction) -> bool {
    &&& pre.wf()
    &&& crate::isa::inst_wf(inst)
    &&& (is_skip(inst) ==> pre.pc + 2 <= u16::MAX)
    &&& (inst is WaitKey ==> pre.pc >= 2)
}

/// The effect of one decoded instruction on the machine state, given
/// the byte `rand` drawn for the random-with-mask instruction (every
/// other instruction ignores it).  A fatal outcome leaves the state
/// unchanged.
pub open spec fn spec_execute(pre: MachineV, inst: Instruction, rand: u8) -> (MachineV, Result<
    (),
    Chip8Error,
>) {
    match inst {
        Instruction::Sys { nnn } => (pre, Ok(())),
        Instruction::ClearScreen => (
            MachineV { gfx: Seq::new(2048, |p: int| 0u8), ..pre },
            Ok(()),
        ),
        Instruction::Return => if pre.stack.len() == 0 {
            (pre, Err(Chip8Error::StackUnderflow))
        } else {
            (MachineV { pc: pre.stack.last(), stack: pre.stack.drop_last(), ..pre }, Ok(()))
        },
        Instruction::Jump { nnn } => (MachineV { pc: nnn, ..pre }, Ok(())),
        Instruction::Call { nnn } => if pre.stack.len() >= 16 {
            (pre, Err(Chip8Error::StackOverflow))
        } else {
            (MachineV { pc: nnn, stack: pre.stack.push(pre.pc), ..pre }, Ok(()))
        },
        Instruction::SkipEqImm { x, nn } => (
            MachineV { pc: skip_pc(pre.pc, pre.regs[x as int] == nn), ..pre },
            Ok(()),
        ),
        Instruction::SkipNeImm { x, nn } => (
            MachineV { pc: skip_pc(pre.pc, pre.regs[x as int] != nn), ..pre },
            Ok(()),
        ),
        Instruction::SkipEqReg { x, y } => (
            MachineV { pc: skip_pc(pre.pc, pre.regs[x as int] == pre.regs[y as int]), ..pre },
            Ok(()),
        ),
        Instruction::StoreImm { x, nn } => (
            MachineV { regs: pre.regs.update(x as int, nn), ..pre },
            Ok(()),
        ),
        Instruction::AddImm { x, nn } => (
            MachineV {
                regs: pre.regs.update(x as int, (((pre.regs[x as int] + nn) % 256) as u8)),
                ..pre
            },
            Ok(()),
        ),
        Instruction::Assign { x, y } => (
            MachineV { regs: pre.regs.update(x as int, pre.regs[y as int]), ..pre },
            Ok(()),
        ),
        Instruction::Or { x, y } => (
            MachineV {
                regs: pre.regs.update(x as int, pre.regs[x as int] | pre.regs[y as int]),
                ..pre
            },
            Ok(()),
        ),
        Instruction::And { x, y } => (
            MachineV {
                regs: pre.regs.update(x as int, pre.regs[x as int] & pre.regs[y as int]),
                ..pre
            },
            Ok(()),
        ),
        Instruction::Xor { x, y } => (
            MachineV {
                regs: pre.regs.update(x as int, pre.regs[x as int] ^ pre.regs[y as int]),
                ..pre
            },
            Ok(()),
        ),
        Instruction::AddCarry { x, y } => {
            let sum = pre.regs[x as int] + pre.regs[y as int];
            let flag: u8 = if sum > 255 {
                1u8
            } else {
                0u8
            };
            (
                MachineV {
                    regs: pre.regs.update(x as int, ((sum % 256) as u8)).update(15, flag),
                    ..pre
                },
                Ok(()),
            )
        },
        Instruction::SubBorrow { x, y } => {
            let a = pre.regs[x as int];
            let b = pre.regs[y as int];
            let flag: u8 = if a >= b {
                1u8
            } else {
                0u8
            };
            (
                MachineV {
                    regs: pre.regs.update(x as int, (((a - b) % 256) as u8)).update(15, flag),
                    ..pre
                },
                Ok(()),
            )
        },
        Instruction::ShiftRight { x, y } => {
            let v = pre.regs[y as int];
            (
                MachineV {
                    regs: pre.regs.update(x as int, ((v / 2) as u8)).update(15, ((v % 2) as u8)),
                    ..pre
                },
                Ok(()),
            )
        },
        Instruction::SubReverse { x, y } => {
            let a = pre.regs[x as int];
            let b = pre.regs[y as int];
            let flag: u8 = if b >= a {
                1u8
            } else {
                0u8
            };
            (
                MachineV {
                    regs: pre.regs.update(x as int, (((b - a) % 256) as u8)).update(15, flag),
                    ..pre
                },
                Ok(()),
            )
        },
        Instruction::ShiftLeft { x, y } => {
            let v = pre.regs[y as int];
            (
                MachineV {
                    regs: pre.regs.update(x as int, (((v * 2) % 256) as u8)).update(
                        15,
                        ((v / 128) as u8),
                    ),
                    ..pre
                },
                Ok(()),
            )
        },
        Instruction::SkipNeReg { x, y } => (
            MachineV { pc: skip_pc(pre.pc, pre.regs[x as int] != pre.regs[y as int]), ..pre },
            Ok(()),
        ),
        Instruction::SetIndex { nnn } => (MachineV { index: nnn, ..pre }, Ok(())),
        Instruction::JumpOffset { nnn } => {
            let target = nnn + pre.regs[0];
            if target > 4095 {
                (pre, Err(Chip8Error::InvalidJumpTarget))
            } else {
                (MachineV { pc: (target as u16), ..pre }, Ok(()))
            }
        },
        Instruction::Random { x, mask } => (
            MachineV { regs: pre.regs.update(x as int, rand & mask), ..pre },
            Ok(()),
        ),
        Instruction::Draw { x, y, n } => if pre.index + n > 4096 {
            (pre, Err(Chip8Error::OutOfBoundsAccess))
        } else {
            let x0 = pre.regs[x as int] as int;
            let y0 = pre.regs[y as int] as int;
            let i = pre.index as int;
            let flag: u8 = if spec_draw_collision(pre.gfx, pre.mem, i, x0, y0, n as int) {
                1u8
            } else {
                0u8
            };
            (
                MachineV {
                    gfx: spec_draw(pre.gfx, pre.mem, i, x0, y0, n as int),
                    regs: pre.regs.update(15, flag),
                    ..pre
                },
                Ok(()),
            )
        },
        Instruction::SkipKeyPressed { x } => {
            let k = pre.regs[x as int] % 16;
            (MachineV { pc: skip_pc(pre.pc, pre.keys[k as int] == 1), ..pre }, Ok(()))
        },
        Instruction::SkipKeyNotPressed { x } => {
            let k = pre.regs[x as int] % 16;
            (MachineV { pc: skip_pc(pre.pc, pre.keys[k as int] == 0), ..pre }, Ok(()))
        },
        Instruction::ReadDelay { x } => (
            MachineV { regs: pre.regs.update(x as int, pre.delay), ..pre },
            Ok(()),
        ),
        Instruction::WaitKey { x } => match first_key_from(pre.keys, 0) {
            Some(k) => (MachineV { regs: pre.regs.update(x as int, k), ..pre }, Ok(())),
            None => (MachineV { pc: ((pre.pc - 2) as u16), ..pre }, Ok(())),
        },
        Instruction::SetDelay { x } => (MachineV { delay: pre.regs[x as int], ..pre }, Ok(())),
        Instruction::SetSound { x } => (MachineV { sound: pre.regs[x as int], ..pre }, Ok(())),
        Instruction::AddIndex { x } => (
            MachineV { index: (((pre.index + pre.regs[x as int]) % 0x10000) as u16), ..pre },
            Ok(()),
        ),
        Instruction::SetIndexFont { x } => (
            MachineV { index: ((pre.regs[x as int] * 5) as u16), ..pre },
            Ok(()),
        ),
        Instruction::StoreBcd { x } => if pre.index > 4093 {
            (pre, Err(Chip8Error::OutOfBoundsAccess))
        } else {
            let v = pre.regs[x as int];
            let i = pre.index as int;
            (
                MachineV {
                    mem: pre.mem.update(i, ((v / 100) as u8)).update(
                        i + 1,
                        (((v / 10) % 10) as u8),
                    ).update(i + 2, ((v % 10) as u8)),
                    ..pre
                },
                Ok(()),
            )
        },
        Instruction::StoreRegs { x } => if pre.index + x >= 4096 {
            (pre, Err(Chip8Error::OutOfBoundsAccess))
        } else {
            let i = pre.index as int;
            (
                MachineV {
                    mem: Seq::new(
                        4096,
                        |a: int|
                            if i <= a <= i + x {
                                pre.regs[a - i]
                            } else {
                                pre.mem[a]
                            },
                    ),
                    ..pre
                },
                Ok(()),
            )
        },
        Instruction::LoadRegs { x } => if pre.index + x >= 4096 {
            (pre, Err(Chip8Error::OutOfBoundsAccess))
        } else {
            let i = pre.index as int;
            (
                MachineV {
                    regs: Seq::new(
                        16,
                        |r: int|
                            if r <= x {
                                pre.mem[i + r]
                            } else {
                                pre.regs[r]
                            },
                    ),
                    ..pre
                },
                Ok(()),
            )
        },
    }
}

/// One whole cycle: fetch the two bytes at the program counter (fatal
/// if the fetch would leave the address space), decode them (fatal if
/// they match no opcode pattern), advance the counter by 2, and
/// execute.  A fatal outcome during execution leaves the state with
/// the counter advanced and nothing else changed.
pub open spec fn spec_step(pre: MachineV, rand: u8) -> (MachineV, Result<(), Chip8Error>) {
    if pre.pc + 1 >= 4096 {
        (pre, Err(Chip8Error::OutOfBoundsAccess))
    } else {
        let op = ((pre.mem[pre.pc as int] * 256 + pre.mem[pre.pc as int + 1]) as u16);
        match spec_decode(op) {
            None => (pre, Err(Chip8Error::UnknownInstruction)),
            Some(inst) => spec_execute(MachineV { pc: ((pre.pc + 2) as u16), ..pre }, inst, rand),
        }
    }
}

/// Whether the next cycle from `pre` executes the random-with-mask
/// instruction; only then does `spec_step` depend on the random byte.
pub open spec fn step_uses_rand(pre: MachineV) -> bool {
    &&& pre.pc + 1 < 4096
    &&& spec_decode(
        ((pre.mem[pre.pc as int] * 256 + pre.mem[pre.pc as int + 1]) as u16),
    ) matches Some(inst) && inst is Random
}

} // verus!
