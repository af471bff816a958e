use chip8_core::cpu::CPU;
use chip8_core::error::Chip8Error;
use chip8_core::keypad::Keypad;

fn machine_with(program: &[u8]) -> CPU {
    let mut cpu = CPU::new();
    assert_eq!(cpu.load_rom(program), Ok(()));
    cpu
}

fn run(cpu: &mut CPU, keypad: &Keypad, cycles: usize) {
    for _ in 0..cycles {
        assert_eq!(cpu.run_cycle(keypad), Ok(()));
    }
}

fn pixel(cpu: &CPU, x: usize, y: usize) -> bool {
    cpu.frame_buffer[y * 64 + x]
}

#[test]
fn test_clear_then_draw_leaves_outside_unset() {
    let keypad = Keypad::new();
    // Light a stray pixel, clear, then draw the fontset glyph for 0 at
    // (2, 3): everything outside the 8x5 sprite window stays unset.
    let mut cpu = machine_with(&[0x60, 0x02, 0x61, 0x03, 0xA0, 0x00, 0x00, 0xE0, 0xD0, 0x15]);
    cpu.frame_buffer[20 * 64 + 40] = true;
    run(&mut cpu, &keypad, 5);

    // The glyph's top-left pixel comes from the set high bit of 0xF0.
    assert!(pixel(&cpu, 2, 3));
    // The stray pixel was cleared and not redrawn.
    assert!(!pixel(&cpu, 40, 20));
    for y in 0..32 {
        for x in 0..64 {
            if !(2..10).contains(&x) || !(3..8).contains(&y) {
                assert!(!pixel(&cpu, x, y));
            }
        }
    }
    assert_eq!(cpu.registers[0xF], 0);
}

#[test]
fn test_double_draw_erases_and_collides() {
    let keypad = Keypad::new();
    // Clear, then draw the glyph for 0 twice at the same position.
    let mut cpu = machine_with(&[
        0x60, 0x02, 0x61, 0x03, 0xA0, 0x00, 0x00, 0xE0, 0xD0, 0x15, 0xD0, 0x15,
    ]);
    run(&mut cpu, &keypad, 5);
    assert!(pixel(&cpu, 2, 3));
    assert_eq!(cpu.registers[0xF], 0);

    run(&mut cpu, &keypad, 1);
    assert!(cpu.frame_buffer.iter().all(|&p| !p));
    assert_eq!(cpu.registers[0xF], 1);
}

#[test]
fn test_draw_wraps_at_edges() {
    let keypad = Keypad::new();
    // A solid 8x4 sprite at (60, 30): columns wrap past x = 63 back to
    // x = 0, rows wrap past y = 31 back to y = 0.
    let mut cpu = machine_with(&[0x60, 0x3C, 0x61, 0x1E, 0xA3, 0x00, 0xD0, 0x14]);
    for k in 0..4 {
        cpu.memory[0x300 + k] = 0xFF;
    }
    run(&mut cpu, &keypad, 4);

    let rows = [30usize, 31, 0, 1];
    let cols = [60usize, 61, 62, 63, 0, 1, 2, 3];
    for y in 0..32 {
        for x in 0..64 {
            let inside = rows.contains(&y) && cols.contains(&x);
            assert_eq!(pixel(&cpu, x, y), inside);
        }
    }
    assert_eq!(cpu.registers[0xF], 0);
}

#[test]
fn test_draw_zero_rows_changes_nothing() {
    let keypad = Keypad::new();
    let mut cpu = machine_with(&[0xA3, 0x00, 0xD0, 0x10]);
    run(&mut cpu, &keypad, 2);

    assert!(cpu.frame_buffer.iter().all(|&p| !p));
    assert_eq!(cpu.registers[0xF], 0);
}

#[test]
fn test_draw_out_of_bounds_sprite() {
    let keypad = Keypad::new();
    // I = 0xFFF with two sprite rows reads past the end of memory.
    let mut cpu = machine_with(&[0xAF, 0xFF, 0xD0, 0x12]);
    run(&mut cpu, &keypad, 1);

    assert_eq!(cpu.run_cycle(&keypad), Err(Chip8Error::OutOfBounds));
    // The framebuffer is untouched by the failed draw.
    assert!(cpu.frame_buffer.iter().all(|&p| !p));
}

#[test]
fn test_partial_overlap_collision() {
    let keypad = Keypad::new();
    // Draw a one-row sprite, then another shifted row that shares one
    // pixel column: the shared pixel goes dark and the flag reports the
    // collision.
    let mut cpu = machine_with(&[0xA3, 0x00, 0xD0, 0x11, 0x60, 0x07, 0xD0, 0x11]);
    cpu.memory[0x300] = 0xFF;
    run(&mut cpu, &keypad, 4);

    // First draw set x = 0..8 on row 0; second draw at x = 7 flipped
    // x = 7 off and set x = 8..15.
    assert!(pixel(&cpu, 0, 0));
    assert!(!pixel(&cpu, 7, 0));
    assert!(pixel(&cpu, 8, 0));
    assert!(pixel(&cpu, 14, 0));
    assert_eq!(cpu.registers[0xF], 1);
}
