//! The machine state and its lifecycle: construction, reset, the
//! per-cycle step, and the execution of decoded instructions.

use vstd::prelude::*;

use crate::isa::{decode, Chip8Error, Instruction};
use crate::semantics::{
    draw_cell, draw_collision_at, execute_pre, first_key_from, spec_draw, spec_draw_collision,
    spec_execute, spec_step, sprite_bit, step_uses_rand,
};
use crate::state::{font_seq, spec_new, spec_reset, spec_tick, MachineV};

verus! {

/// The whole emulated machine.  The fields are public so that the
/// external collaborators can write the keypad flags and read the
/// display buffer and timers between cycles; `wf` is the structural
/// invariant every operation requires and preserves.
#[derive(Clone, Debug)]
pub struct Chip8 {
    /// Sixteen 8-bit registers; index 15 is the flags register.
    pub registers: Vec<u8>,
    /// The program counter.
    pub pc: u16,
    /// The index register.
    pub index: u16,
    /// The delay timer.
    pub timer_delay: u8,
    /// The sound timer.
    pub timer_sound: u8,
    /// The 4096-byte address space.
    pub memory: Vec<u8>,
    /// The 16-entry call stack array; entries at `sp` and above are
    /// inactive.
    pub stack: Vec<u16>,
    /// The stack pointer: the number of active stack entries.
    pub sp: u16,
    /// The 64x32 display cells in row-major order.
    pub graphics: Vec<u8>,
    /// The sixteen key flags, 0 = released, 1 = pressed.
    pub keypad: Vec<u8>,
}

impl View for Chip8 {
    type V = MachineV;

    open spec fn view(&self) -> MachineV {
        MachineV {
            regs: self.registers@,
            pc: self.pc,
            index: self.index,
            delay: self.timer_delay,
            sound: self.timer_sound,
            mem: self.memory@,
            stack: self.stack@.subrange(0, self.sp as int),
            gfx: self.graphics@,
            keys: self.keypad@,
        }
    }
}

impl Chip8 {
    /// The structural invariant: every buffer has its architectural
    /// size, the stack pointer is within capacity, and display cells
    /// are binary.
    pub open spec fn wf(self) -> bool {
        &&& self.registers@.len() == 16
        &&& self.memory@.len() == 4096
        &&& self.stack@.len() == 16
        &&& self.sp <= 16
        &&& self.graphics@.len() == 2048
        &&& (forall|p: int| 0 <= p < 2048 ==> self.graphics@[p] <= 1)
        &&& self.keypad@.len() == 16
    }

    /// A fresh machine: all state zero and the program counter at the
    /// entry offset.  The font is installed by `reset`.
    pub fn new() -> (r: Chip8)
        ensures
            r.wf(),
            r@ == spec_new(),
    {
        let r = Chip8 {
            registers: zero_bytes(16),
            pc: 0x200,
            index: 0,
            timer_delay: 0,
            timer_sound: 0,
            memory: zero_bytes(4096),
            stack: zero_words(16),
            sp: 0,
            graphics: zero_bytes(2048),
            keypad: zero_bytes(16),
        };
        proof {
            assert(r@ =~= spec_new());
        }
        r
    }

    /// Reinitialize every field, install the font in low memory, and
    /// copy the program image verbatim starting at the entry offset.
    /// The loader must have validated that the image fits below the
    /// end of the address space.
    pub fn reset(&mut self, program: &[u8])
        requires
            program@.len() <= 3584,
        ensures
            final(self).wf(),
            final(self)@ == spec_reset(program@),
    {
        self.registers = zero_bytes(16);
        self.pc = 0x200;
        self.index = 0;
        self.timer_delay = 0;
        self.timer_sound = 0;
        self.memory = zero_bytes(4096);
        self.stack = zero_words(16);
        self.sp = 0;
        self.graphics = zero_bytes(2048);
        self.keypad = zero_bytes(16);

        let font: [u8; 80] = [
            0xF0, 0x90, 0x90, 0x90, 0xF0, // 0
            0x20, 0x60, 0x20, 0x20, 0x70, // 1
            0xF0, 0x10, 0xF0, 0x80, 0xF0, // 2
            0xF0, 0x10, 0xF0, 0x10, 0xF0, // 3
            0x90, 0x90, 0xF0, 0x10, 0x10, // 4
            0xF0, 0x80, 0xF0, 0x10, 0xF0, // 5
            0xF0, 0x80, 0xF0, 0x90, 0xF0, // 6
            0xF0, 0x10, 0x20, 0x40, 0x40, // 7
            0xF0, 0x90, 0xF0, 0x90, 0xF0, // 8
            0xF0, 0x90, 0xF0, 0x10, 0xF0, // 9
            0xF0, 0x90, 0xF0, 0x90, 0x90, // A
            0xE0, 0x90, 0xE0, 0x90, 0xE0, // B
            0xF0, 0x80, 0x80, 0x80, 0xF0, // C
            0xE0, 0x90, 0x90, 0x90, 0xE0, // D
            0xF0, 0x80, 0xF0, 0x80, 0xF0, // E
            0xF0, 0x80, 0xF0, 0x80, 0x80, // F
        ];
        proof {
            assert(font@ =~= font_seq());
        }
        let mut i: usize = 0;
        while i < 80
            invariant
                i <= 80,
                self.memory@.len() == 4096,
                forall|j: int| 0 <= j < i ==> self.memory@[j] == font_seq()[j],
                forall|j: int| i <= j < 4096 ==> self.memory@[j] == 0u8,
                font@ == font_seq(),
                reset_but_memory(*self),
            decreases 80 - i,
        {
            self.memory[i] = font[i];
            i = i + 1;
        }

        let mut k: usize = 0;
        while k < program.len()
            invariant
                k <= program@.len() <= 3584,
                self.memory@.len() == 4096,
                forall|j: int| 0 <= j < 80 ==> self.memory@[j] == font_seq()[j],
                forall|j: int| 0x200 <= j < 0x200 + k ==> self.memory@[j] == program@[j - 0x200],
                forall|j: int|
                    (80 <= j < 0x200 || 0x200 + k <= j < 4096) ==> self.memory@[j] == 0u8,
                reset_but_memory(*self),
            decreases program@.len() - k,
        {
            self.memory[0x200 + k] = program[k];
            k = k + 1;
        }

        proof {
            assert(self@ =~= spec_reset(program@));
        }
    }

    /// One tick of the external timer driver: decrement each timer if
    /// it is nonzero.
    pub fn tick_timers(&mut self)
        requires
            old(self).wf(),
        ensures
            final(self).wf(),
            final(self)@ == spec_tick(old(self)@),
    {
        if self.timer_delay > 0 {
            self.timer_delay = self.timer_delay - 1;
        }
        if self.timer_sound > 0 {
            self.timer_sound = self.timer_sound - 1;
        }
        proof {
            assert(self@ =~= spec_tick(old(self)@));
        }
    }
}

impl Chip8 {
    /// The register `i`, read.
    fn reg(&self, i: u8) -> (r: u8)
        requires
            self.wf(),
            i < 16,
        ensures
            r == self@.regs[i as int],
    {
        self.registers[i as usize]
    }

    /// The lowest-index pressed key, if any.
    fn find_pressed_key(&self) -> (r: Option<u8>)
        requires
            self.wf(),
        ensures
            r == first_key_from(self@.keys, 0),
    {
        let mut i: usize = 0;
        while i < 16
            invariant
                i <= 16,
                self.wf(),
                first_key_from(self@.keys, 0) == first_key_from(self@.keys, i as int),
            decreases 16 - i,
        {
            if self.keypad[i] == 1 {
                return Some(i as u8);
            }
            i = i + 1;
        }
        None
    }

    /// Draw an 8-wide, `n`-tall sprite whose rows start at the index
    /// register, at the coordinates held in registers `x` and `y`,
    /// XORing each covered cell and recording any on-to-off transition
    /// in the flags register.
    #[verifier::loop_isolation(false)]
    fn draw_sprite(&mut self, x: u8, y: u8, n: u8)
        requires
            old(self).wf(),
            x < 16,
            y < 16,
            n < 16,
            old(self).index + n <= 4096,
        ensures
            final(self).wf(),
            final(self).graphics@ == spec_draw(
                old(self)@.gfx,
                old(self)@.mem,
                old(self).index as int,
                old(self)@.regs[x as int] as int,
                old(self)@.regs[y as int] as int,
                n as int,
            ),
            final(self).registers@ == old(self)@.regs.update(
                15,
                if spec_draw_collision(
                    old(self)@.gfx,
                    old(self)@.mem,
                    old(self).index as int,
                    old(self)@.regs[x as int] as int,
                    old(self)@.regs[y as int] as int,
                    n as int,
                ) {
                    1u8
                } else {
                    0u8
                },
            ),
            final(self).pc == old(self).pc,
            final(self).index == old(self).index,
            final(self).timer_delay == old(self).timer_delay,
            final(self).timer_sound == old(self).timer_sound,
            final(self).memory@ == old(self).memory@,
            final(self).stack@ == old(self).stack@,
            final(self).sp == old(self).sp,
            final(self).keypad@ == old(self).keypad@,
    {
        let x0: usize = self.registers[x as usize] as usize;
        let y0: usize = self.registers[y as usize] as usize;
        let i0: usize = self.index as usize;
        let nn: usize = n as usize;
        let ghost gfx0 = self.graphics@;
        let ghost mem0 = self.memory@;
        let mut newg: Vec<u8> = Vec::new();
        let mut coll: bool = false;
        let mut p: usize = 0;
        while p < 2048
            invariant
                p <= 2048,
                newg@.len() == p as int,
                forall|q: int|
                    0 <= q < p ==> newg@[q] == draw_cell(
                        gfx0,
                        mem0,
                        i0 as int,
                        x0 as int,
                        y0 as int,
                        nn as int,
                        q,
                    ),
                coll <==> exists|q: int|
                    0 <= q < p && draw_collision_at(
                        gfx0,
                        mem0,
                        i0 as int,
                        x0 as int,
                        y0 as int,
                        nn as int,
                        q,
                    ),
            decreases 2048 - p,
        {
            let xx: usize = p % 64;
            let yy: usize = p / 64;
            let row: usize = (yy + 32 - y0 % 32) % 32;
            let kk: usize = (xx + 64 - x0 % 64) % 64;
            proof {
                lemma_wrap_diff(yy as int, y0 as int, 32);
                lemma_wrap_diff(xx as int, x0 as int, 64);
            }
            let oldc: u8 = self.graphics[p];
            let mut cell: u8 = oldc;
            if row < nn && kk < 8 {
                let b: u8 = self.memory[i0 + row];
                let sb: u8 = (b >> ((7 - kk) as u8)) & 1;
                proof {
                    lemma_low_bit_binary(b, (7 - kk) as u8);
                    lemma_xor_binary(oldc, sb);
                    assert(sb == sprite_bit(mem0[i0 + row as int], kk as int));
                    assert(draw_collision_at(
                        gfx0,
                        mem0,
                        i0 as int,
                        x0 as int,
                        y0 as int,
                        nn as int,
                        p as int,
                    ) <==> (oldc == 1 && sb == 1));
                }
                if oldc == 1 && sb == 1 {
                    coll = true;
                }
                cell = oldc ^ sb;
            } else {
                proof {
                    assert(!draw_collision_at(
                        gfx0,
                        mem0,
                        i0 as int,
                        x0 as int,
                        y0 as int,
                        nn as int,
                        p as int,
                    ));
                }
            }
            newg.push(cell);
            p = p + 1;
        }
        self.graphics = newg;
        self.registers[15] = if coll {
            1
        } else {
            0
        };
        proof {
            assert(self.graphics@ =~= spec_draw(
                gfx0,
                mem0,
                i0 as int,
                x0 as int,
                y0 as int,
                nn as int,
            ));
            assert forall|q: int| 0 <= q < 2048 implies self.graphics@[q] <= 1 by {
                lemma_draw_cell_binary(gfx0, mem0, i0 as int, x0 as int, y0 as int, nn as int, q);
            }
        }
    }
    /// Execute one decoded instruction on a state whose program
    /// counter has already been advanced past the instruction word,
    /// with `rand` the byte drawn for the random-with-mask
    /// instruction.  A fatal outcome leaves the state unchanged.
    pub fn execute(&mut self, inst: Instruction, rand: u8) -> (r: Result<(), Chip8Error>)
        requires
            old(self).wf(),
            execute_pre(old(self)@, inst),
        ensures
            final(self).wf(),
            final(self)@ == spec_execute(old(self)@, inst, rand).0,
            r == spec_execute(old(self)@, inst, rand).1,
    {
        match inst {
            Instruction::Sys { nnn } => Ok(()),
            Instruction::ClearScreen => {
                self.graphics = zero_bytes(2048);
                proof {
                    assert(self@ =~= spec_execute(old(self)@, inst, rand).0);
                }
                Ok(())
            },
            Instruction::Return => {
                if self.sp == 0 {
                    return Err(Chip8Error::StackUnderflow);
                }
                self.sp = self.sp - 1;
                self.pc = self.stack[self.sp as usize];
                proof {
                    assert(self@ =~= spec_execute(old(self)@, inst, rand).0);
                }
                Ok(())
            },
            Instruction::Jump { nnn } => {
                self.pc = nnn;
                Ok(())
            },
            Instruction::Call { nnn } => {
                if self.sp >= 16 {
                    return Err(Chip8Error::StackOverflow);
                }
                self.stack[self.sp as usize] = self.pc;
                self.sp = self.sp + 1;
                self.pc = nnn;
                proof {
                    assert(self@ =~= spec_execute(old(self)@, inst, rand).0);
                }
                Ok(())
            },
            Instruction::SkipEqImm { x, nn } => {
                if self.reg(x) == nn {
                    self.pc = self.pc + 2;
                }
                Ok(())
            },
            Instruction::SkipNeImm { x, nn } => {
                if self.reg(x) != nn {
                    self.pc = self.pc + 2;
                }
                Ok(())
            },
            Instruction::SkipEqReg { x, y } => {
                if self.reg(x) == self.reg(y) {
                    self.pc = self.pc + 2;
                }
                Ok(())
            },
            Instruction::StoreImm { x, nn } => {
                self.registers[x as usize] = nn;
                Ok(())
            },
            Instruction::AddImm { x, nn } => {
                let v: u16 = (self.reg(x) as u16 + nn as u16) % 256;
                self.registers[x as usize] = v as u8;
                Ok(())
            },
            Instruction::Assign { x, y } => {
                let v = self.reg(y);
                self.registers[x as usize] = v;
                Ok(())
            },
            Instruction::Or { x, y } => {
                let v = self.reg(x) | self.reg(y);
                self.registers[x as usize] = v;
                Ok(())
            },
            Instruction::And { x, y } => {
                let v = self.reg(x) & self.reg(y);
                self.registers[x as usize] = v;
                Ok(())
            },
            Instruction::Xor { x, y } => {
                let v = self.reg(x) ^ self.reg(y);
                self.registers[x as usize] = v;
                Ok(())
            },
            Instruction::AddCarry { x, y } => {
                let sum: u16 = self.reg(x) as u16 + self.reg(y) as u16;
                self.registers[x as usize] = (sum % 256) as u8;
                self.registers[15] = if sum > 255 {
                    1
                } else {
                    0
                };
                Ok(())
            },
            Instruction::SubBorrow { x, y } => {
                let a = self.reg(x);
                let b = self.reg(y);
                let v: u16 = (a as u16 + 256 - b as u16) % 256;
                proof {
                    lemma_wrap_sub(a as int, b as int);
                }
                self.registers[x as usize] = v as u8;
                self.registers[15] = if a >= b {
                    1
                } else {
                    0
                };
                Ok(())
            },
            Instruction::ShiftRight { x, y } => {
                let v = self.reg(y);
                self.registers[x as usize] = v / 2;
                self.registers[15] = v % 2;
                Ok(())
            },
            Instruction::SubReverse { x, y } => {
                let a = self.reg(x);
                let b = self.reg(y);
                let v: u16 = (b as u16 + 256 - a as u16) % 256;
                proof {
                    lemma_wrap_sub(b as int, a as int);
                }
                self.registers[x as usize] = v as u8;
                self.registers[15] = if b >= a {
                    1
                } else {
                    0
                };
                Ok(())
            },
            Instruction::ShiftLeft { x, y } => {
                let v = self.reg(y);
                self.registers[x as usize] = ((v as u16 * 2) % 256) as u8;
                self.registers[15] = v / 128;
                Ok(())
            },
            Instruction::SkipNeReg { x, y } => {
                if self.reg(x) != self.reg(y) {
                    self.pc = self.pc + 2;
                }
                Ok(())
            },
            Instruction::SetIndex { nnn } => {
                self.index = nnn;
                Ok(())
            },
            Instruction::JumpOffset { nnn } => {
                let target: u16 = nnn + self.reg(0) as u16;
                if target > 4095 {
                    return Err(Chip8Error::InvalidJumpTarget);
                }
                self.pc = target;
                Ok(())
            },
            Instruction::Random { x, mask } => {
                self.registers[x as usize] = rand & mask;
                Ok(())
            },
            Instruction::Draw { x, y, n } => {
                if self.index as usize + n as usize > 4096 {
                    return Err(Chip8Error::OutOfBoundsAccess);
                }
                self.draw_sprite(x, y, n);
                proof {
                    assert(self@ =~= spec_execute(old(self)@, inst, rand).0);
                }
                Ok(())
            },
            Instruction::SkipKeyPressed { x } => {
                let k = self.reg(x) % 16;
                if self.keypad[k as usize] == 1 {
                    self.pc = self.pc + 2;
                }
                Ok(())
            },
            Instruction::SkipKeyNotPressed { x } => {
                let k = self.reg(x) % 16;
                if self.keypad[k as usize] == 0 {
                    self.pc = self.pc + 2;
                }
                Ok(())
            },
            Instruction::ReadDelay { x } => {
                self.registers[x as usize] = self.timer_delay;
                Ok(())
            },
            Instruction::WaitKey { x } => {
                match self.find_pressed_key() {
                    Some(k) => {
                        self.registers[x as usize] = k;
                    },
                    None => {
                        // Revert the two-byte advance of the fetch so
                        // the wait re-executes on the next cycle.
                        self.pc = self.pc - 2;
                    },
                }
                Ok(())
            },
            Instruction::SetDelay { x } => {
                self.timer_delay = self.reg(x);
                Ok(())
            },
            Instruction::SetSound { x } => {
                self.timer_sound = self.reg(x);
                Ok(())
            },
            Instruction::AddIndex { x } => {
                let sum: u32 = (self.index as u32 + self.reg(x) as u32) % 0x10000;
                self.index = sum as u16;
                Ok(())
            },
            Instruction::SetIndexFont { x } => {
                self.index = self.reg(x) as u16 * 5;
                Ok(())
            },
            Instruction::StoreBcd { x } => {
                if self.index > 4093 {
                    return Err(Chip8Error::OutOfBoundsAccess);
                }
                let v = self.reg(x);
                let i = self.index as usize;
                self.memory[i] = v / 100;
                self.memory[i + 1] = (v / 10) % 10;
                self.memory[i + 2] = v % 10;
                Ok(())
            },
            Instruction::StoreRegs { x } => {
                if self.index as usize + x as usize >= 4096 {
                    return Err(Chip8Error::OutOfBoundsAccess);
                }
                let i0 = self.index as usize;
                let xl = x as usize;
                let mut k: usize = 0;
                #[verifier::loop_isolation(false)]
                while k <= xl
                    invariant
                        k <= xl + 1,
                        self.memory@.len() == 4096,
                        same_but_memory(*self, *old(self)),
                        forall|a: int|
                            i0 <= a < i0 + k ==> self.memory@[a] == old(self).registers@[a - i0],
                        forall|a: int|
                            (0 <= a < i0 || i0 + k <= a < 4096) ==> self.memory@[a] == old(
                                self,
                            ).memory@[a],
                    decreases xl + 1 - k,
                {
                    self.memory[i0 + k] = self.registers[k];
                    k = k + 1;
                }
                proof {
                    assert(self@ =~= spec_execute(old(self)@, inst, rand).0);
                }
                Ok(())
            },
            Instruction::LoadRegs { x } => {
                if self.index as usize + x as usize >= 4096 {
                    return Err(Chip8Error::OutOfBoundsAccess);
                }
                let i0 = self.index as usize;
                let xl = x as usize;
                let mut k: usize = 0;
                #[verifier::loop_isolation(false)]
                while k <= xl
                    invariant
                        k <= xl + 1,
                        self.registers@.len() == 16,
                        same_but_registers(*self, *old(self)),
                        forall|r: int|
                            0 <= r < k ==> self.registers@[r] == old(self).memory@[i0 + r],
                        forall|r: int| k <= r < 16 ==> self.registers@[r] == old(self).registers@[r],
                    decreases xl + 1 - k,
                {
                    self.registers[k] = self.memory[i0 + k];
                    k = k + 1;
                }
                proof {
                    assert(self@ =~= spec_execute(old(self)@, inst, rand).0);
                }
                Ok(())
            },
        }
    }
    /// One instruction cycle: fetch the two bytes at the program
    /// counter, advance it by 2, decode, and execute.  The byte drawn
    /// for the random-with-mask instruction is the one thing no caller
    /// can predict, so the postcondition holds for some random byte;
    /// every other instruction's effect does not depend on it.
    pub fn step(&mut self) -> (res: Result<(), Chip8Error>)
        requires
            old(self).wf(),
        ensures
            final(self).wf(),
            exists|r: u8| (final(self)@, res) == spec_step(old(self)@, r),
            !step_uses_rand(old(self)@) ==> (final(self)@, res) == spec_step(old(self)@, 0),
    {
        if self.pc as usize + 1 >= 4096 {
            proof {
                assert((self@, Err::<(), Chip8Error>(Chip8Error::OutOfBoundsAccess)) == spec_step(
                    old(self)@,
                    0u8,
                ));
            }
            return Err(Chip8Error::OutOfBoundsAccess);
        }
        let hi = self.memory[self.pc as usize];
        let lo = self.memory[self.pc as usize + 1];
        let op: u16 = hi as u16 * 256 + lo as u16;
        match decode(op) {
            None => {
                proof {
                    assert((self@, Err::<(), Chip8Error>(Chip8Error::UnknownInstruction))
                        == spec_step(old(self)@, 0u8));
                }
                Err(Chip8Error::UnknownInstruction)
            },
            Some(inst) => {
                self.pc = self.pc + 2;
                let r: u8 = if let Instruction::Random { .. } = inst {
                    random_byte()
                } else {
                    0
                };
                proof {
                    assert(self@ =~= MachineV { pc: ((old(self).pc + 2) as u16), ..old(self)@ });
                }
                let res = self.execute(inst, r);
                proof {
                    assert((self@, res) == spec_step(old(self)@, r));
                }
                res
            },
        }
    }
}

impl PartialEq for Chip8 {
    /// Two machines are equal when every stored field agrees,
    /// inactive stack entries included.
    fn eq(&self, other: &Chip8) -> (r: bool) {
        proof {
            if self.registers@.len() == other.registers@.len() && (forall|i: int|
                0 <= i < self.registers@.len() ==> self.registers@[i] == other.registers@[i]) {
                assert(self.registers@ =~= other.registers@);
            }
            if self.memory@.len() == other.memory@.len() && (forall|i: int|
                0 <= i < self.memory@.len() ==> self.memory@[i] == other.memory@[i]) {
                assert(self.memory@ =~= other.memory@);
            }
            if self.stack@.len() == other.stack@.len() && (forall|i: int|
                0 <= i < self.stack@.len() ==> self.stack@[i] == other.stack@[i]) {
                assert(self.stack@ =~= other.stack@);
            }
            if self.graphics@.len() == other.graphics@.len() && (forall|i: int|
                0 <= i < self.graphics@.len() ==> self.graphics@[i] == other.graphics@[i]) {
                assert(self.graphics@ =~= other.graphics@);
            }
            if self.keypad@.len() == other.keypad@.len() && (forall|i: int|
                0 <= i < self.keypad@.len() ==> self.keypad@[i] == other.keypad@[i]) {
                assert(self.keypad@ =~= other.keypad@);
            }
        }
        self.registers == other.registers && self.pc == other.pc && self.index == other.index
            && self.timer_delay == other.timer_delay && self.timer_sound == other.timer_sound
            && self.memory == other.memory && self.stack == other.stack && self.sp == other.sp
            && self.graphics == other.graphics && self.keypad == other.keypad
    }
}

impl vstd::std_specs::cmp::PartialEqSpecImpl for Chip8 {
    open spec fn obeys_eq_spec() -> bool {
        true
    }

    open spec fn eq_spec(&self, other: &Chip8) -> bool {
        &&& self.registers@ == other.registers@
        &&& self.pc == other.pc
        &&& self.index == other.index
        &&& self.timer_delay == other.timer_delay
        &&& self.timer_sound == other.timer_sound
        &&& self.memory@ == other.memory@
        &&& self.stack@ == other.stack@
        &&& self.sp == other.sp
        &&& self.graphics@ == other.graphics@
        &&& self.keypad@ == other.keypad@
    }
}

/// Relies on `rand::random`: one byte drawn from the thread-local
/// generator, uniformly distributed.  Nothing can be promised of the
/// value, so nothing is.
#[verifier::external_body]
fn random_byte() -> u8 {
    rand::random::<u8>()
}

/// The fields of two machines other than the memory agree.
spec fn same_but_memory(m: Chip8, o: Chip8) -> bool {
    &&& m.registers@ == o.registers@
    &&& m.pc == o.pc
    &&& m.index == o.index
    &&& m.timer_delay == o.timer_delay
    &&& m.timer_sound == o.timer_sound
    &&& m.stack@ == o.stack@
    &&& m.sp == o.sp
    &&& m.graphics@ == o.graphics@
    &&& m.keypad@ == o.keypad@
}

/// The fields of two machines other than the registers agree.
spec fn same_but_registers(m: Chip8, o: Chip8) -> bool {
    &&& m.pc == o.pc
    &&& m.index == o.index
    &&& m.timer_delay == o.timer_delay
    &&& m.timer_sound == o.timer_sound
    &&& m.memory@ == o.memory@
    &&& m.stack@ == o.stack@
    &&& m.sp == o.sp
    &&& m.graphics@ == o.graphics@
    &&& m.keypad@ == o.keypad@
}

/// The borrow-free difference `(a + 256 - b) % 256` is the Euclidean
/// remainder `(a - b) % 256`.
proof fn lemma_wrap_sub(a: int, b: int)
    requires
        0 <= a < 256,
        0 <= b < 256,
    ensures
        (a + 256 - b) % 256 == (a - b) % 256,
{
    vstd::arithmetic::div_mod::lemma_mod_add_multiples_vanish(a - b, 256);
}

/// The value `(a + m - b % m) % m` computed without going negative is
/// the Euclidean remainder `(a - b) % m`.
proof fn lemma_wrap_diff(a: int, b: int, m: int)
    requires
        0 <= a,
        0 <= b,
        0 < m,
    ensures
        (a + m - b % m) % m == (a - b) % m,
{
    let q = b / m;
    vstd::arithmetic::div_mod::lemma_fundamental_div_mod(b, m);
    assert(m * (1 + q) == m + m * q) by (nonlinear_arith);
    assert(a + m - b % m == m * (1 + q) + (a - b));
    vstd::arithmetic::div_mod::lemma_mod_multiples_vanish(1 + q, a - b, m);
}

/// The lowest bit of any shifted byte is 0 or 1.
proof fn lemma_low_bit_binary(b: u8, s: u8)
    by (bit_vector)
    ensures
        ((b >> s) & 1) <= 1,
{
}

/// XOR of two binary cells is binary, and is 0 exactly when they agree.
proof fn lemma_xor_binary(a: u8, c: u8)
    by (bit_vector)
    requires
        a <= 1,
        c <= 1,
    ensures
        (a ^ c) <= 1,
        ((a ^ c) == 0) == (a == c),
{
}

/// Each cell of a drawn display is binary when the cell it replaces is.
proof fn lemma_draw_cell_binary(
    gfx: Seq<u8>,
    mem: Seq<u8>,
    i: int,
    x0: int,
    y0: int,
    n: int,
    p: int,
)
    requires
        0 <= p < gfx.len(),
        gfx[p] <= 1,
    ensures
        draw_cell(gfx, mem, i, x0, y0, n, p) <= 1,
{
    let x = p % 64;
    let y = p / 64;
    let row = (y - y0) % 32;
    let k = (x - x0) % 64;
    if row < n && k < 8 {
        lemma_low_bit_binary(mem[i + row], ((7 - k) as u8));
        lemma_xor_binary(gfx[p], sprite_bit(mem[i + row], k));
    }
}

/// Every field of a machine in mid-reset other than the memory holds
/// its reset value.
spec fn reset_but_memory(m: Chip8) -> bool {
    &&& m.registers@ == Seq::new(16, |i: int| 0u8)
    &&& m.pc == 0x200u16
    &&& m.index == 0u16
    &&& m.timer_delay == 0u8
    &&& m.timer_sound == 0u8
    &&& m.stack@ == Seq::new(16, |i: int| 0u16)
    &&& m.sp == 0u16
    &&& m.graphics@ == Seq::new(2048, |i: int| 0u8)
    &&& m.keypad@ == Seq::new(16, |i: int| 0u8)
}

/// A vector of `n` zero bytes.
fn zero_bytes(n: usize) -> (v: Vec<u8>)
    ensures
        v@ == Seq::new(n as nat, |i: int| 0u8),
{
    let mut v: Vec<u8> = Vec::new();
    while v.len() < n
        invariant
            v@.len() <= n,
            forall|i: int| 0 <= i < v@.len() ==> v@[i] == 0u8,
        decreases n - v@.len(),
    {
        v.push(0);
    }
    proof {
        assert(v@ =~= Seq::new(n as nat, |i: int| 0u8));
    }
    v
}

/// A vector of `n` zero words.
fn zero_words(n: usize) -> (v: Vec<u16>)
    ensures
        v@ == Seq::new(n as nat, |i: int| 0u16),
{
    let mut v: Vec<u16> = Vec::new();
    while v.len() < n
        invariant
            v@.len() <= n,
            forall|i: int| 0 <= i < v@.len() ==> v@[i] == 0u16,
        decreases n - v@.len(),
    {
        v.push(0);
    }
    proof {
        assert(v@ =~= Seq::new(n as nat, |i: int| 0u16));
    }
    v
}

} // verus!
