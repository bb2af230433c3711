//! Whole-machine scenarios: reset, programs of a few instructions,
//! blocking input and the fatal conditions.

use chip8::isa::Chip8Error;
use chip8::machine::Chip8;

#[test]
fn store_immediate_program() {
    // A two-byte program storing immediate 5 into register 0.
    let mut chip = Chip8::new();
    chip.reset(&[0x60, 0x05]);

    assert_eq!(chip.step(), Ok(()));
    assert_eq!(chip.registers[0], 5);
    assert_eq!(chip.pc, 0x202);
}

#[test]
fn add_with_carry_program() {
    // Add register 1 into register 0 with 250 + 10: wraps to 4 and
    // sets the carry flag.
    let mut chip = Chip8::new();
    chip.reset(&[0x80, 0x14, 0x80, 0x14]);
    chip.registers[0] = 250;
    chip.registers[1] = 10;

    assert_eq!(chip.step(), Ok(()));
    assert_eq!(chip.registers[0], 4);
    assert_eq!(chip.registers[15], 1);
}

#[test]
fn call_at_full_stack_is_fatal() {
    // With the stack pointer at capacity a call must report stack
    // overflow and must not move the program counter to the target.
    let mut chip = Chip8::new();
    chip.reset(&[0x23, 0x00]);
    chip.sp = 16;

    assert_eq!(chip.step(), Err(Chip8Error::StackOverflow));
    assert_ne!(chip.pc, 0x300);
    assert_eq!(chip.sp, 16);
}

#[test]
fn return_with_empty_stack_is_fatal() {
    let mut chip = Chip8::new();
    chip.reset(&[0x00, 0xEE]);

    assert_eq!(chip.step(), Err(Chip8Error::StackUnderflow));
}

#[test]
fn wait_key_blocks_until_pressed() {
    // The blocking key wait makes no progress while no key is
    // pressed; once one is, its index lands in the target register
    // and the counter advances normally.
    let mut chip = Chip8::new();
    chip.reset(&[0xF3, 0x0A]);

    assert_eq!(chip.step(), Ok(()));
    assert_eq!(chip.pc, 0x200);
    assert_eq!(chip.step(), Ok(()));
    assert_eq!(chip.pc, 0x200);

    chip.keypad[7] = 1;
    assert_eq!(chip.step(), Ok(()));
    assert_eq!(chip.registers[3], 7);
    assert_eq!(chip.pc, 0x202);
}

#[test]
fn call_then_return_restores_counter_and_stack() {
    // A call at 0x200 to a subroutine holding only a return: the
    // counter comes back to the word after the call, the stack
    // pointer to its pre-call value.
    let mut chip = Chip8::new();
    let mut program = [0u8; 0x102];
    program[0] = 0x23; // call 0x300
    program[1] = 0x00;
    program[0x100] = 0x00; // return, placed at 0x300
    program[0x101] = 0xEE;
    chip.reset(&program);

    assert_eq!(chip.step(), Ok(()));
    assert_eq!(chip.pc, 0x300);
    assert_eq!(chip.sp, 1);
    assert_eq!(chip.stack[0], 0x202);

    assert_eq!(chip.step(), Ok(()));
    assert_eq!(chip.pc, 0x202);
    assert_eq!(chip.sp, 0);
}

#[test]
fn clear_after_draws_leaves_zero_display() {
    // Clear, any draws, clear again: an all-zero display.
    let mut chip = Chip8::new();
    chip.reset(&[
        0x00, 0xE0, // clear
        0xD0, 0x15, // draw glyph 0 at (0, 0)
        0xD1, 0x25, // draw glyph 0 at (8, 3)
        0x00, 0xE0, // clear
    ]);
    chip.registers[1] = 8;
    chip.registers[2] = 3;

    for _ in 0..4 {
        assert_eq!(chip.step(), Ok(()));
    }
    assert!(chip.graphics.iter().all(|&c| c == 0));
}

#[test]
fn fetch_beyond_address_space_is_fatal() {
    let mut chip = Chip8::new();
    chip.reset(&[]);
    chip.pc = 4095;

    assert_eq!(chip.step(), Err(Chip8Error::OutOfBoundsAccess));
    assert_eq!(chip.pc, 4095);
}

#[test]
fn unknown_opcodes_are_fatal() {
    for opcode in [[0x80u8, 0x08u8], [0xE0, 0x00], [0xF0, 0x00], [0x8A, 0xBF]] {
        let mut chip = Chip8::new();
        chip.reset(&opcode);
        assert_eq!(chip.step(), Err(Chip8Error::UnknownInstruction));
        assert_eq!(chip.pc, 0x200);
    }
}

#[test]
fn reset_installs_font_and_program() {
    let mut chip = Chip8::new();
    chip.registers[3] = 9;
    chip.reset(&[0xAB, 0xCD]);

    // The first glyph rows and the last byte of the font table.
    assert_eq!(&chip.memory[0..5], &[0xF0, 0x90, 0x90, 0x90, 0xF0]);
    assert_eq!(chip.memory[79], 0x80);
    // The program image sits at the entry offset.
    assert_eq!(chip.memory[0x200], 0xAB);
    assert_eq!(chip.memory[0x201], 0xCD);
    assert_eq!(chip.memory[0x202], 0);
    // Every register is reinitialized.
    assert_eq!(chip.registers[3], 0);
    assert_eq!(chip.pc, 0x200);
    assert_eq!(chip.sp, 0);
}

#[test]
fn timer_ticks_decrement_to_zero_and_stop() {
    let mut chip = Chip8::new();
    chip.reset(&[]);
    chip.timer_delay = 2;
    chip.timer_sound = 1;

    chip.tick_timers();
    assert_eq!((chip.timer_delay, chip.timer_sound), (1, 0));
    chip.tick_timers();
    assert_eq!((chip.timer_delay, chip.timer_sound), (0, 0));
    chip.tick_timers();
    assert_eq!((chip.timer_delay, chip.timer_sound), (0, 0));
}
