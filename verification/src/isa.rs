//! Instruction words, their decoding, and the machine's fatal error kinds.
//!
//! An instruction word is a 16-bit value fetched from two consecutive
//! memory bytes, most-significant byte first.  `decode` turns a word into
//! one variant of the closed `Instruction` set, or `None` for an opcode
//! pattern the machine does not define.

use vstd::prelude::*;

verus! {

/// A fatal condition: the loaded program or an engine invariant is
/// violated and execution cannot safely continue.
#[derive(Clone, Copy, Debug, PartialEq, Eq, Structural)]
pub enum Chip8Error {
    /// A subroutine call would push beyond the 16-entry call stack.
    StackOverflow,
    /// A subroutine return was executed with no matching call.
    StackUnderflow,
    /// An offset jump's target exceeds the 12-bit address space.
    InvalidJumpTarget,
    /// The fetched word matches no defined opcode pattern.
    UnknownInstruction,
    /// A fetch or a memory write would fall outside the address space.
    OutOfBoundsAccess,
}

/// One decoded instruction.  Register operands `x` and `y` are 4-bit
/// fields and therefore always in `[0, 15]`; `nnn` is a 12-bit address;
/// `nn` an 8-bit immediate; `n` a 4-bit sprite height.
#[derive(Clone, Copy, Debug, PartialEq, Eq, Structural)]
pub enum Instruction {
    /// Call of an unsupported legacy native routine: a no-op.
    Sys { nnn: u16 },
    /// Set every display cell to 0.
    ClearScreen,
    /// Pop the call stack into the program counter.
    Return,
    /// Jump to the absolute address `nnn`.
    Jump { nnn: u16 },
    /// Push the return address, then jump to `nnn`.
    Call { nnn: u16 },
    /// Skip the next instruction if register `x` equals `nn`.
    SkipEqImm { x: u8, nn: u8 },
    /// Skip the next instruction if register `x` differs from `nn`.
    SkipNeImm { x: u8, nn: u8 },
    /// Skip the next instruction if registers `x` and `y` are equal.
    SkipEqReg { x: u8, y: u8 },
    /// Store `nn` into register `x`.
    StoreImm { x: u8, nn: u8 },
    /// Add `nn` to register `x` modulo 256; no flag side effect.
    AddImm { x: u8, nn: u8 },
    /// Copy register `y` into register `x`.
    Assign { x: u8, y: u8 },
    /// Bitwise OR of registers `x` and `y` into `x`.
    Or { x: u8, y: u8 },
    /// Bitwise AND of registers `x` and `y` into `x`.
    And { x: u8, y: u8 },
    /// Bitwise XOR of registers `x` and `y` into `x`.
    Xor { x: u8, y: u8 },
    /// Add register `y` to register `x` modulo 256; the flags register
    /// becomes 1 exactly when the mathematical sum exceeds 255.
    AddCarry { x: u8, y: u8 },
    /// Register `x` minus register `y` modulo 256; the flags register
    /// becomes 1 exactly when no borrow occurred.
    SubBorrow { x: u8, y: u8 },
    /// Shift register `y` right one bit into register `x`; the flags
    /// register captures the bit shifted out.
    ShiftRight { x: u8, y: u8 },
    /// Register `y` minus register `x` modulo 256, stored into `x`; the
    /// flags register becomes 1 exactly when no borrow occurred.
    SubReverse { x: u8, y: u8 },
    /// Shift register `y` left one bit into register `x`; the flags
    /// register captures the bit shifted out.
    ShiftLeft { x: u8, y: u8 },
    /// Skip the next instruction if registers `x` and `y` differ.
    SkipNeReg { x: u8, y: u8 },
    /// Store `nnn` into the index register.
    SetIndex { nnn: u16 },
    /// Jump to `nnn` plus register 0; fatal if the sum leaves the
    /// 12-bit address space.
    JumpOffset { nnn: u16 },
    /// Draw a random byte ANDed with `mask` into register `x`.
    Random { x: u8, mask: u8 },
    /// Draw an 8-wide, `n`-tall sprite at the coordinates held in
    /// registers `x` and `y`.
    Draw { x: u8, y: u8, n: u8 },
    /// Skip the next instruction if the key named by register `x` is
    /// pressed.
    SkipKeyPressed { x: u8 },
    /// Skip the next instruction if the key named by register `x` is
    /// not pressed.
    SkipKeyNotPressed { x: u8 },
    /// Store the delay timer into register `x`.
    ReadDelay { x: u8 },
    /// Block until a key is pressed, then store its index in register
    /// `x`.
    WaitKey { x: u8 },
    /// Set the delay timer from register `x`.
    SetDelay { x: u8 },
    /// Set the sound timer from register `x`.
    SetSound { x: u8 },
    /// Add register `x` to the index register with 16-bit wraparound.
    AddIndex { x: u8 },
    /// Point the index register at the font glyph for the digit held in
    /// register `x`.
    SetIndexFont { x: u8 },
    /// Write the decimal digits of register `x` to memory at the index
    /// register.
    StoreBcd { x: u8 },
    /// Store registers 0 through `x` to memory at the index register.
    StoreRegs { x: u8 },
    /// Load registers 0 through `x` from memory at the index register.
    LoadRegs { x: u8 },
}

/// The 4-bit register field in bits 8..12 of an instruction word.
pub open spec fn op_x(op: u16) -> u8 {
    (((op / 256) % 16) as u8)
}

/// The 4-bit register field in bits 4..8 of an instruction word.
pub open spec fn op_y(op: u16) -> u8 {
    (((op / 16) % 16) as u8)
}

/// The 8-bit immediate in the low byte of an instruction word.
pub open spec fn op_nn(op: u16) -> u8 {
    ((op % 256) as u8)
}

/// The 12-bit address in the low bits of an instruction word.
pub open spec fn op_nnn(op: u16) -> u16 {
    op % 4096
}

/// The 4-bit field in the low nibble of an instruction word.
pub open spec fn op_n(op: u16) -> u8 {
    ((op % 16) as u8)
}

/// Which instruction, if any, a 16-bit word denotes.  The dispatch key
/// is the top 4 bits; the families with top nibble 8, 0xE and 0xF
/// dispatch a second time on the low nibble or low byte.
pub open spec fn spec_decode(op: u16) -> Option<Instruction> {
    let x = op_x(op);
    let y = op_y(op);
    let nn = op_nn(op);
    let nnn = op_nnn(op);
    let n = op_n(op);
    match op / 4096 {
        0x0 => if op == 0x00E0 {
            Some(Instruction::ClearScreen)
        } else if op == 0x00EE {
            Some(Instruction::Return)
        } else {
            Some(Instruction::Sys { nnn })
        },
        0x1 => Some(Instruction::Jump { nnn }),
        0x2 => Some(Instruction::Call { nnn }),
        0x3 => Some(Instruction::SkipEqImm { x, nn }),
        0x4 => Some(Instruction::SkipNeImm { x, nn }),
        0x5 => Some(Instruction::SkipEqReg { x, y }),
        0x6 => Some(Instruction::StoreImm { x, nn }),
        0x7 => Some(Instruction::AddImm { x, nn }),
        0x8 => match op % 16 {
            0x0 => Some(Instruction::Assign { x, y }),
            0x1 => Some(Instruction::Or { x, y }),
            0x2 => Some(Instruction::And { x, y }),
            0x3 => Some(Instruction::Xor { x, y }),
            0x4 => Some(Instruction::AddCarry { x, y }),
            0x5 => Some(Instruction::SubBorrow { x, y }),
            0x6 => Some(Instruction::ShiftRight { x, y }),
            0x7 => Some(Instruction::SubReverse { x, y }),
            0xE => Some(Instruction::ShiftLeft { x, y }),
            _ => None,
        },
        0x9 => Some(Instruction::SkipNeReg { x, y }),
        0xA => Some(Instruction::SetIndex { nnn }),
        0xB => Some(Instruction::JumpOffset { nnn }),
        0xC => Some(Instruction::Random { x, mask: nn }),
        0xD => Some(Instruction::Draw { x, y, n }),
        0xE => match op % 256 {
            0x9E => Some(Instruction::SkipKeyPressed { x }),
            0xA1 => Some(Instruction::SkipKeyNotPressed { x }),
            _ => None,
        },
        0xF => match op % 256 {
            0x07 => Some(Instruction::ReadDelay { x }),
            0x0A => Some(Instruction::WaitKey { x }),
            0x15 => Some(Instruction::SetDelay { x }),
            0x18 => Some(Instruction::SetSound { x }),
            0x1E => Some(Instruction::AddIndex { x }),
            0x29 => Some(Instruction::SetIndexFont { x }),
            0x33 => Some(Instruction::StoreBcd { x }),
            0x55 => Some(Instruction::StoreRegs { x }),
            0x65 => Some(Instruction::LoadRegs { x }),
            _ => None,
        },
        _ => None,
    }
}

/// Every register operand of a decoded instruction lies in `[0, 15]`,
/// every address in the 12-bit space, every sprite height in `[0, 15]`.
pub open spec fn inst_wf(inst: Instruction) -> bool {
    match inst {
        Instruction::Sys { nnn } => nnn < 4096,
        Instruction::ClearScreen => true,
        Instruction::Return => true,
        Instruction::Jump { nnn } => nnn < 4096,
        Instruction::Call { nnn } => nnn < 4096,
        Instruction::SkipEqImm { x, nn } => x < 16,
        Instruction::SkipNeImm { x, nn } => x < 16,
        Instruction::SkipEqReg { x, y } => x < 16 && y < 16,
        Instruction::StoreImm { x, nn } => x < 16,
        Instruction::AddImm { x, nn } => x < 16,
        Instruction::Assign { x, y } => x < 16 && y < 16,
        Instruction::Or { x, y } => x < 16 && y < 16,
        Instruction::And { x, y } => x < 16 && y < 16,
        Instruction::Xor { x, y } => x < 16 && y < 16,
        Instruction::AddCarry { x, y } => x < 16 && y < 16,
        Instruction::SubBorrow { x, y } => x < 16 && y < 16,
        Instruction::ShiftRight { x, y } => x < 16 && y < 16,
        Instruction::SubReverse { x, y } => x < 16 && y < 16,
        Instruction::ShiftLeft { x, y } => x < 16 && y < 16,
        Instruction::SkipNeReg { x, y } => x < 16 && y < 16,
        Instruction::SetIndex { nnn } => nnn < 4096,
        Instruction::JumpOffset { nnn } => nnn < 4096,
        Instruction::Random { x, mask } => x < 16,
        Instruction::Draw { x, y, n } => x < 16 && y < 16 && n < 16,
        Instruction::SkipKeyPressed { x } => x < 16,
        Instruction::SkipKeyNotPressed { x } => x < 16,
        Instruction::ReadDelay { x } => x < 16,
        Instruction::WaitKey { x } => x < 16,
        Instruction::SetDelay { x } => x < 16,
        Instruction::SetSound { x } => x < 16,
        Instruction::AddIndex { x } => x < 16,
        Instruction::SetIndexFont { x } => x < 16,
        Instruction::StoreBcd { x } => x < 16,
        Instruction::StoreRegs { x } => x < 16,
        Instruction::LoadRegs { x } => x < 16,
    }
}

/// Decode one instruction word, or `None` for an opcode pattern the
/// machine does not define.
pub fn decode(op: u16) -> (r: Option<Instruction>)
    ensures
        r == spec_decode(op),
        r matches Some(inst) ==> inst_wf(inst),
{
    let x: u8 = ((op / 256) % 16) as u8;
    let y: u8 = ((op / 16) % 16) as u8;
    let nn: u8 = (op % 256) as u8;
    let nnn: u16 = op % 4096;
    let n: u8 = (op % 16) as u8;
    match op / 4096 {
        0x0 => if op == 0x00E0 {
            Some(Instruction::ClearScreen)
        } else if op == 0x00EE {
            Some(Instruction::Return)
        } else {
            Some(Instruction::Sys { nnn })
        },
        0x1 => Some(Instruction::Jump { nnn }),
        0x2 => Some(Instruction::Call { nnn }),
        0x3 => Some(Instruction::SkipEqImm { x, nn }),
        0x4 => Some(Instruction::SkipNeImm { x, nn }),
        0x5 => Some(Instruction::SkipEqReg { x, y }),
        0x6 => Some(Instruction::StoreImm { x, nn }),
        0x7 => Some(Instruction::AddImm { x, nn }),
        0x8 => match op % 16 {
            0x0 => Some(Instruction::Assign { x, y }),
            0x1 => Some(Instruction::Or { x, y }),
            0x2 => Some(Instruction::And { x, y }),
            0x3 => Some(Instruction::Xor { x, y }),
            0x4 => Some(Instruction::AddCarry { x, y }),
            0x5 => Some(Instruction::SubBorrow { x, y }),
            0x6 => Some(Instruction::ShiftRight { x, y }),
            0x7 => Some(Instruction::SubReverse { x, y }),
            0xE => Some(Instruction::ShiftLeft { x, y }),
            _ => None,
        },
        0x9 => Some(Instruction::SkipNeReg { x, y }),
        0xA => Some(Instruction::SetIndex { nnn }),
        0xB => Some(Instruction::JumpOffset { nnn }),
        0xC => Some(Instruction::Random { x, mask: nn }),
        0xD => Some(Instruction::Draw { x, y, n }),
        0xE => match op % 256 {
            0x9E => Some(Instruction::SkipKeyPressed { x }),
            0xA1 => Some(Instruction::SkipKeyNotPressed { x }),
            _ => None,
        },
        0xF => match op % 256 {
            0x07 => Some(Instruction::ReadDelay { x }),
            0x0A => Some(Instruction::WaitKey { x }),
            0x15 => Some(Instruction::SetDelay { x }),
            0x18 => Some(Instruction::SetSound { x }),
            0x1E => Some(Instruction::AddIndex { x }),
            0x29 => Some(Instruction::SetIndexFont { x }),
            0x33 => Some(Instruction::StoreBcd { x }),
            0x55 => Some(Instruction::StoreRegs { x }),
            0x65 => Some(Instruction::LoadRegs { x }),
            _ => None,
        },
        _ => None,
    }
}

} // verus!
