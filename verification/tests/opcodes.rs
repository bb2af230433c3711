//! Per-opcode behaviour, each checked by comparing the whole machine
//! against an expected copy.

#![allow(non_snake_case)]

use chip8::machine::Chip8;

/// Install a two-byte program holding exactly one instruction word.
fn load_opcode(opcode: u16, chip: &mut Chip8) {
    let low = (opcode & 0x00FF) as u8;
    let high = ((opcode >> 8) & 0xFF) as u8;
    let program = [high, low];

    chip.reset(&program);
}

#[test]
fn test_0NNN() {
    let mut chip = Chip8::new();
    load_opcode(0x0000, &mut chip);

    let mut expected: Chip8 = chip.clone();
    assert_eq!(chip.step(), Ok(()));

    // Only pc should have changed
    expected.pc += 2;
    assert_eq!(expected, chip);
}

#[test]
fn test_00E0() {
    let mut chip = Chip8::new();
    load_opcode(0x00E0, &mut chip);

    // Set display
    chip.graphics.fill(1);

    // Set expected
    let mut expected = chip.clone();
    expected.pc += 2;
    expected.graphics.fill(0);

    // Run cycle
    assert_eq!(chip.step(), Ok(()));

    // Asserts
    assert_eq!(expected, chip);
}

#[test]
fn test_00EE_normal() {
    let mut chip = Chip8::new();
    load_opcode(0x00EE, &mut chip);

    // Prepare setup
    chip.stack[chip.sp as usize] = 0x300;
    chip.sp += 1;

    // Set expected
    let mut expected = chip.clone();
    expected.sp -= 1; // Pop first stack entry
    expected.pc = 0x300; // Jump to return-address

    // Run cycle
    assert_eq!(chip.step(), Ok(()));

    // Assert
    assert_eq!(expected, chip);
}

#[test]
fn test_1NNN() {
    let mut chip = Chip8::new();
    load_opcode(0x1300, &mut chip);

    // Prepare setup
    let mut expected = chip.clone();
    expected.pc = 0x300;

    // Run cycle
    assert_eq!(chip.step(), Ok(()));

    // Assert
    assert_eq!(expected, chip);
}

#[test]
fn test_2NNN_normal() {
    let mut chip = Chip8::new();
    load_opcode(0x2300, &mut chip);

    // Prepare setup
    let mut expected = chip.clone();
    expected.pc += 2;
    expected.stack[0] = expected.pc;
    expected.pc = 0x300;
    expected.sp = 1;

    // Run cycle
    assert_eq!(chip.step(), Ok(()));

    // Assert
    assert_eq!(expected, chip);
}

#[test]
fn test_3XNN_skip() {
    let mut chip = Chip8::new();
    load_opcode(0x3000, &mut chip);

    // Prepare setup
    let mut expected = chip.clone();
    expected.pc += 4;

    // Run cycle
    assert_eq!(chip.step(), Ok(()));

    // Assert
    assert_eq!(expected, chip);
}

#[test]
fn test_3XNN_noskip() {
    let mut chip = Chip8::new();
    load_opcode(0x3001, &mut chip);

    // Prepare setup
    let mut expected = chip.clone();
    expected.pc += 2;

    // Run cycle
    assert_eq!(chip.step(), Ok(()));

    // Assert
    assert_eq!(expected, chip);
}

#[test]
fn test_4XNN_skip() {
    let mut chip = Chip8::new();
    load_opcode(0x4001, &mut chip);

    // Prepare setup
    let mut expected = chip.clone();
    expected.pc += 4;

    // Run cycle
    assert_eq!(chip.step(), Ok(()));

    // Assert
    assert_eq!(expected, chip);
}

#[test]
fn test_4XNN_noskip() {
    let mut chip = Chip8::new();
    load_opcode(0x4000, &mut chip);

    // Prepare setup
    let mut expected = chip.clone();
    expected.pc += 2;

    // Run cycle
    assert_eq!(chip.step(), Ok(()));

    // Assert
    assert_eq!(expected, chip);
}

#[test]
fn test_5XY0_skip() {
    let mut chip = Chip8::new();
    load_opcode(0x5010, &mut chip);

    // Prepare setup
    let mut expected = chip.clone();
    expected.pc += 4;

    // Run cycle
    assert_eq!(chip.step(), Ok(()));

    // Assert
    assert_eq!(expected, chip);
}

#[test]
fn test_5XY0_noskip() {
    let mut chip = Chip8::new();
    load_opcode(0x5010, &mut chip);

    // Prepare setup
    chip.registers[1] = 1;

    let mut expected = chip.clone();
    expected.pc += 2;

    // Run cycle
    assert_eq!(chip.step(), Ok(()));

    // Assert
    assert_eq!(expected, chip);
}
