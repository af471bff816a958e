use chip8_core::cpu::CPU;
use chip8_core::error::Chip8Error;
use chip8_core::keypad::Keypad;

fn machine_with(program: &[u8]) -> CPU {
    let mut cpu = CPU::new();
    assert_eq!(cpu.load_rom(program), Ok(()));
    cpu
}

fn run(cpu: &mut CPU, keypad: &Keypad, cycles: usize) {
    for _ in 0..cycles {
        assert_eq!(cpu.run_cycle(keypad), Ok(()));
    }
}

#[test]
fn test_add_xkk_overflow() {
    let keypad = Keypad::new();
    // V0 = 200; V0 += 100.
    let mut cpu = machine_with(&[0x60, 0xC8, 0x70, 0x64]);
    run(&mut cpu, &keypad, 2);

    assert_eq!(cpu.registers[0], 44);
    assert_eq!(cpu.registers[0xF], 1);
}

#[test]
fn test_add_xkk_no_overflow() {
    let keypad = Keypad::new();
    // V0 = 10; V0 += 5.
    let mut cpu = machine_with(&[0x60, 0x0A, 0x70, 0x05]);
    run(&mut cpu, &keypad, 2);

    assert_eq!(cpu.registers[0], 15);
    assert_eq!(cpu.registers[0xF], 0);
}

#[test]
fn test_add_xy_overflow() {
    let keypad = Keypad::new();
    // V0 = 200; V1 = 100; V0 += V1.
    let mut cpu = machine_with(&[0x60, 0xC8, 0x61, 0x64, 0x80, 0x14]);
    run(&mut cpu, &keypad, 3);

    assert_eq!(cpu.registers[0], 44);
    assert_eq!(cpu.registers[1], 100);
    assert_eq!(cpu.registers[0xF], 1);
}

#[test]
fn test_sub_flag_convention_consistent() {
    let keypad = Keypad::new();
    // Same operand pair both directions: V0 = 10, V1 = 20.
    // 8xy5: V0 = V0 - V1 borrows, flag 0.
    let mut cpu = machine_with(&[0x60, 0x0A, 0x61, 0x14, 0x80, 0x15]);
    run(&mut cpu, &keypad, 3);
    assert_eq!(cpu.registers[0], 246);
    assert_eq!(cpu.registers[0xF], 0);

    // 8xy7: V0 = V1 - V0 does not borrow, flag 1.
    let mut cpu = machine_with(&[0x60, 0x0A, 0x61, 0x14, 0x80, 0x17]);
    run(&mut cpu, &keypad, 3);
    assert_eq!(cpu.registers[0], 10);
    assert_eq!(cpu.registers[0xF], 1);
}

#[test]
fn test_sub_no_borrow() {
    let keypad = Keypad::new();
    // V0 = 20, V1 = 10; V0 = V0 - V1.
    let mut cpu = machine_with(&[0x60, 0x14, 0x61, 0x0A, 0x80, 0x15]);
    run(&mut cpu, &keypad, 3);

    assert_eq!(cpu.registers[0], 10);
    assert_eq!(cpu.registers[0xF], 1);
}

#[test]
fn test_shr_flag_from_original_value() {
    let keypad = Keypad::new();
    // V0 = 5 = 0b101: result 2, the shifted-out bit is 1.
    let mut cpu = machine_with(&[0x60, 0x05, 0x80, 0x06]);
    run(&mut cpu, &keypad, 2);
    assert_eq!(cpu.registers[0], 2);
    assert_eq!(cpu.registers[0xF], 1);

    // V0 = 4 = 0b100: result 2, the shifted-out bit is 0.
    let mut cpu = machine_with(&[0x60, 0x04, 0x80, 0x06]);
    run(&mut cpu, &keypad, 2);
    assert_eq!(cpu.registers[0], 2);
    assert_eq!(cpu.registers[0xF], 0);
}

#[test]
fn test_shl_flag_from_original_value() {
    let keypad = Keypad::new();
    // V0 = 0x81: result 0x02, the shifted-out high bit is 1.
    let mut cpu = machine_with(&[0x60, 0x81, 0x80, 0x0E]);
    run(&mut cpu, &keypad, 2);
    assert_eq!(cpu.registers[0], 0x02);
    assert_eq!(cpu.registers[0xF], 1);

    // V0 = 0x41: result 0x82, the shifted-out high bit is 0.
    let mut cpu = machine_with(&[0x60, 0x41, 0x80, 0x0E]);
    run(&mut cpu, &keypad, 2);
    assert_eq!(cpu.registers[0], 0x82);
    assert_eq!(cpu.registers[0xF], 0);
}

#[test]
fn test_bitwise_ops() {
    let keypad = Keypad::new();
    // V0 = 0b1100, V1 = 0b1010: OR, AND, XOR in three runs.
    let mut cpu = machine_with(&[0x60, 0x0C, 0x61, 0x0A, 0x80, 0x11]);
    run(&mut cpu, &keypad, 3);
    assert_eq!(cpu.registers[0], 0x0E);

    let mut cpu = machine_with(&[0x60, 0x0C, 0x61, 0x0A, 0x80, 0x12]);
    run(&mut cpu, &keypad, 3);
    assert_eq!(cpu.registers[0], 0x08);

    let mut cpu = machine_with(&[0x60, 0x0C, 0x61, 0x0A, 0x80, 0x13]);
    run(&mut cpu, &keypad, 3);
    assert_eq!(cpu.registers[0], 0x06);
}

#[test]
fn test_register_copy() {
    let keypad = Keypad::new();
    // V1 = 0x42; V0 = V1.
    let mut cpu = machine_with(&[0x61, 0x42, 0x80, 0x10]);
    run(&mut cpu, &keypad, 2);

    assert_eq!(cpu.registers[0], 0x42);
    assert_eq!(cpu.registers[1], 0x42);
}

#[test]
fn test_skip_on_not_equal_immediate() {
    let keypad = Keypad::new();
    // V0 = 5; skip next when V0 != 6; the skipped word would set V1.
    let mut cpu = machine_with(&[0x60, 0x05, 0x40, 0x06, 0x61, 0x66, 0x62, 0x01]);
    run(&mut cpu, &keypad, 3);

    assert_eq!(cpu.registers[1], 0);
    assert_eq!(cpu.registers[2], 1);
}

#[test]
fn test_skip_on_equal_immediate() {
    let keypad = Keypad::new();
    // V0 = 5; skip next when V0 == 5; the skipped word would set V1.
    let mut cpu = machine_with(&[0x60, 0x05, 0x30, 0x05, 0x61, 0x66, 0x62, 0x01]);
    run(&mut cpu, &keypad, 3);

    assert_eq!(cpu.registers[1], 0);
    assert_eq!(cpu.registers[2], 1);
}

#[test]
fn test_skip_not_taken_on_unequal_immediate() {
    let keypad = Keypad::new();
    // V0 = 5; skip next when V0 == 6 does not fire.
    let mut cpu = machine_with(&[0x60, 0x05, 0x30, 0x06, 0x61, 0x66]);
    run(&mut cpu, &keypad, 3);

    assert_eq!(cpu.registers[1], 0x66);
}

#[test]
fn test_skip_on_register_compare() {
    let keypad = Keypad::new();
    // V0 = 7, V1 = 7: 5xy0 skips; then 9xy0 on V0, V2 (unequal) skips too.
    let mut cpu = machine_with(&[
        0x60, 0x07, 0x61, 0x07, 0x50, 0x10, 0x63, 0x01, 0x90, 0x20, 0x64, 0x01, 0x65, 0x01,
    ]);
    run(&mut cpu, &keypad, 5);

    assert_eq!(cpu.registers[3], 0);
    assert_eq!(cpu.registers[4], 0);
    assert_eq!(cpu.registers[5], 1);
}

#[test]
fn test_jump() {
    let keypad = Keypad::new();
    let mut cpu = machine_with(&[0x13, 0x00]);
    run(&mut cpu, &keypad, 1);

    assert_eq!(cpu.position_in_memory, 0x300);
}

#[test]
fn test_jump_v0() {
    let keypad = Keypad::new();
    // V0 = 4; jump to 0x300 + V0.
    let mut cpu = machine_with(&[0x60, 0x04, 0xB3, 0x00]);
    run(&mut cpu, &keypad, 2);

    assert_eq!(cpu.position_in_memory, 0x304);
}

#[test]
fn test_set_index_and_add_to_index() {
    let keypad = Keypad::new();
    // I = 0x123; V0 = 0x10; I += V0.
    let mut cpu = machine_with(&[0xA1, 0x23, 0x60, 0x10, 0xF0, 0x1E]);
    run(&mut cpu, &keypad, 3);

    assert_eq!(cpu.index_register, 0x133);
}

#[test]
fn test_timers() {
    let keypad = Keypad::new();
    // V0 = 0x30; DT = V0; ST = V0; V1 = DT.
    let mut cpu = machine_with(&[0x60, 0x30, 0xF0, 0x15, 0xF0, 0x18, 0xF1, 0x07]);
    run(&mut cpu, &keypad, 4);

    assert_eq!(cpu.delay_timer, 0x30);
    assert_eq!(cpu.sound_timer, 0x30);
    assert_eq!(cpu.registers[1], 0x30);
}

#[test]
fn test_bcd_255() {
    let keypad = Keypad::new();
    // V0 = 255; I = 0x300; write digits.
    let mut cpu = machine_with(&[0x60, 0xFF, 0xA3, 0x00, 0xF0, 0x33]);
    run(&mut cpu, &keypad, 3);

    assert_eq!(&cpu.memory[0x300..0x303], &[2, 5, 5]);
}

#[test]
fn test_bcd_7() {
    let keypad = Keypad::new();
    let mut cpu = machine_with(&[0x60, 0x07, 0xA3, 0x00, 0xF0, 0x33]);
    run(&mut cpu, &keypad, 3);

    assert_eq!(&cpu.memory[0x300..0x303], &[0, 0, 7]);
}

#[test]
fn test_bcd_out_of_bounds() {
    let keypad = Keypad::new();
    // I = 0xFFE leaves no room for three digits.
    let mut cpu = machine_with(&[0xAF, 0xFE, 0xF0, 0x33]);
    run(&mut cpu, &keypad, 1);

    assert_eq!(cpu.run_cycle(&keypad), Err(Chip8Error::OutOfBounds));
}

#[test]
fn test_store_load_round_trip() {
    let keypad = Keypad::new();
    // V0..V3 distinct; store through V3 at I = 0x300; clobber; load back.
    let mut cpu = machine_with(&[
        0x60, 0x11, 0x61, 0x22, 0x62, 0x33, 0x63, 0x44, 0xA3, 0x00, 0xF3, 0x55, 0x60, 0x00, 0x61,
        0x00, 0x62, 0x00, 0x63, 0x00, 0xF3, 0x65,
    ]);
    run(&mut cpu, &keypad, 6);
    assert_eq!(&cpu.memory[0x300..0x304], &[0x11, 0x22, 0x33, 0x44]);
    // The index register is not advanced by the store.
    assert_eq!(cpu.index_register, 0x300);

    run(&mut cpu, &keypad, 5);
    assert_eq!(&cpu.registers[0..4], &[0x11, 0x22, 0x33, 0x44]);
    assert_eq!(cpu.index_register, 0x300);
}

#[test]
fn test_store_out_of_bounds() {
    let keypad = Keypad::new();
    // I = 0xFFD with registers through V3 runs past memory.
    let mut cpu = machine_with(&[0xAF, 0xFD, 0xF3, 0x55]);
    run(&mut cpu, &keypad, 1);

    assert_eq!(cpu.run_cycle(&keypad), Err(Chip8Error::OutOfBounds));
}
