//! An emulator for a historical 8-bit virtual machine instruction set.
//!
//! The machine owns a 4096-byte memory, sixteen 8-bit registers, a
//! 16-entry call stack, two timers, a 64x32 monochrome display and a
//! 16-key keypad.  `reset` installs a program image and `step` advances
//! the machine by one fetched, decoded and executed instruction.

pub mod isa;
pub mod laws;
pub mod machine;
pub mod semantics;
pub mod state;
