//! The mathematical model of the machine state.
//!
//! `MachineV` is the architectural state an instruction acts on: the
//! inactive tail of the call stack array is not part of it, so the view
//! of the stack holds exactly the pushed return addresses.

use vstd::prelude::*;

verus! {

/// The architectural machine state, as seen by specifications.
#[verifier::ext_equal]
pub ghost struct MachineV {
    /// Sixteen 8-bit general-purpose registers; index 15 is the
    /// implicit flags register.
    pub regs: Seq<u8>,
    /// The program counter.
    pub pc: u16,
    /// The index register, used for indirect memory addressing.
    pub index: u16,
    /// The delay timer, decremented by the external timer driver.
    pub delay: u8,
    /// The sound timer, decremented by the external timer driver.
    pub sound: u8,
    /// The 4096-byte address space.
    pub mem: Seq<u8>,
    /// The pushed return addresses, oldest first; at most 16.
    pub stack: Seq<u16>,
    /// The 64x32 display cells in row-major order, each 0 or 1.
    pub gfx: Seq<u8>,
    /// The sixteen key flags, 0 = released, 1 = pressed.
    pub keys: Seq<u8>,
}

impl MachineV {
    /// The structural invariant: every component has its architectural
    /// size, the call stack is within capacity, and display cells are
    /// binary.
    pub open spec fn wf(self) -> bool {
        &&& self.regs.len() == 16
        &&& self.mem.len() == 4096
        &&& self.stack.len() <= 16
        &&& self.gfx.len() == 2048
        &&& (forall|p: int| 0 <= p < 2048 ==> self.gfx[p] <= 1)
        &&& self.keys.len() == 16
    }
}

/// The built-in glyph font: 16 glyphs of 5 bytes each, one per
/// hexadecimal digit, installed at address 0 on every reset.
pub open spec fn font_seq() -> Seq<u8> {
    seq![
        0xF0u8, 0x90u8, 0x90u8, 0x90u8, 0xF0u8, // 0
        0x20u8, 0x60u8, 0x20u8, 0x20u8, 0x70u8, // 1
        0xF0u8, 0x10u8, 0xF0u8, 0x80u8, 0xF0u8, // 2
        0xF0u8, 0x10u8, 0xF0u8, 0x10u8, 0xF0u8, // 3
        0x90u8, 0x90u8, 0xF0u8, 0x10u8, 0x10u8, // 4
        0xF0u8, 0x80u8, 0xF0u8, 0x10u8, 0xF0u8, // 5
        0xF0u8, 0x80u8, 0xF0u8, 0x90u8, 0xF0u8, // 6
        0xF0u8, 0x10u8, 0x20u8, 0x40u8, 0x40u8, // 7
        0xF0u8, 0x90u8, 0xF0u8, 0x90u8, 0xF0u8, // 8
        0xF0u8, 0x90u8, 0xF0u8, 0x10u8, 0xF0u8, // 9
        0xF0u8, 0x90u8, 0xF0u8, 0x90u8, 0x90u8, // A
        0xE0u8, 0x90u8, 0xE0u8, 0x90u8, 0xE0u8, // B
        0xF0u8, 0x80u8, 0x80u8, 0x80u8, 0xF0u8, // C
        0xE0u8, 0x90u8, 0x90u8, 0x90u8, 0xE0u8, // D
        0xF0u8, 0x80u8, 0xF0u8, 0x80u8, 0xF0u8, // E
        0xF0u8, 0x80u8, 0xF0u8, 0x80u8, 0x80u8, // F
    ]
}

/// The state of a freshly constructed machine: everything zero, the
/// program counter at the entry offset, no font and no program yet.
pub open spec fn spec_new() -> MachineV {
    MachineV {
        regs: Seq::new(16, |i: int| 0u8),
        pc: 0x200,
        index: 0,
        delay: 0,
        sound: 0,
        mem: Seq::new(4096, |a: int| 0u8),
        stack: Seq::empty(),
        gfx: Seq::new(2048, |p: int| 0u8),
        keys: Seq::new(16, |k: int| 0u8),
    }
}

/// The state after a reset with the program image `prog`: every field
/// reinitialized, the font installed in low memory, and the image
/// copied verbatim starting at the entry offset 0x200.
pub open spec fn spec_reset(prog: Seq<u8>) -> MachineV {
    MachineV {
        mem: Seq::new(
            4096,
            |a: int|
                if a < 80 {
                    font_seq()[a]
                } else if 0x200 <= a < 0x200 + prog.len() {
                    prog[a - 0x200]
                } else {
                    0u8
                },
        ),
        ..spec_new()
    }
}

/// One tick of the external timer driver: each timer is decremented
/// if it is nonzero.
pub open spec fn spec_tick(pre: MachineV) -> MachineV {
    MachineV {
        delay: if pre.delay > 0 { (pre.delay - 1) as u8 } else { 0u8 },
        sound: if pre.sound > 0 { (pre.sound - 1) as u8 } else { 0u8 },
        ..pre
    }
}

} // verus!
