use chip8_core::cpu::CPU;
use chip8_core::error::Chip8Error;
use chip8_core::keypad::Keypad;

fn machine_with(program: &[u8]) -> CPU {
    let mut cpu = CPU::new();
    assert_eq!(cpu.load_rom(program), Ok(()));
    cpu
}

fn run(cpu: &mut CPU, keypad: &Keypad, cycles: usize) {
    for _ in 0..cycles {
        assert_eq!(cpu.run_cycle(keypad), Ok(()));
    }
}

#[test]
fn test_call_then_ret_balances() {
    let keypad = Keypad::new();
    // 0x200: call 0x204; 0x204: ret.
    let mut cpu = machine_with(&[0x22, 0x04, 0x00, 0x00, 0x00, 0xEE]);

    run(&mut cpu, &keypad, 1);
    assert_eq!(cpu.stack_pointer, 1);
    assert_eq!(cpu.position_in_memory, 0x204);
    assert_eq!(cpu.stack[0], 0x202);

    run(&mut cpu, &keypad, 1);
    assert_eq!(cpu.stack_pointer, 0);
    assert_eq!(cpu.position_in_memory, 0x202);
}

#[test]
fn test_sixteen_nested_calls_balance() {
    let keypad = Keypad::new();
    // Sixteen nested calls, each 0x10 bytes apart, each followed by a ret
    // for the unwind; the deepest target holds the first ret.
    let mut rom = vec![0u8; 0x102];
    for k in 0..16usize {
        let target = 0x200 + 0x10 * (k + 1);
        rom[0x10 * k] = 0x20 | ((target >> 8) as u8 & 0x0F);
        rom[0x10 * k + 1] = (target & 0xFF) as u8;
        rom[0x10 * k + 2] = 0x00;
        rom[0x10 * k + 3] = 0xEE;
    }
    rom[0x100] = 0x00;
    rom[0x101] = 0xEE;
    let mut cpu = machine_with(&rom);

    run(&mut cpu, &keypad, 16);
    assert_eq!(cpu.stack_pointer, 16);
    assert_eq!(cpu.position_in_memory, 0x300);

    run(&mut cpu, &keypad, 16);
    assert_eq!(cpu.stack_pointer, 0);
    // The final return lands just past the very first call.
    assert_eq!(cpu.position_in_memory, 0x202);
}

#[test]
fn test_stack_overflow_on_seventeenth_call() {
    let keypad = Keypad::new();
    // A call that targets itself fills the stack.
    let mut cpu = machine_with(&[0x22, 0x00]);
    run(&mut cpu, &keypad, 16);
    assert_eq!(cpu.stack_pointer, 16);

    assert_eq!(cpu.run_cycle(&keypad), Err(Chip8Error::StackOverflow));
    assert_eq!(cpu.stack_pointer, 16);
}

#[test]
fn test_stack_underflow_on_bare_ret() {
    let keypad = Keypad::new();
    let mut cpu = machine_with(&[0x00, 0xEE]);

    assert_eq!(cpu.run_cycle(&keypad), Err(Chip8Error::StackUnderflow));
    assert_eq!(cpu.stack_pointer, 0);
}

#[test]
fn test_fetch_out_of_bounds() {
    let keypad = Keypad::new();
    // Jump to 0xFFF: the next fetch would need a byte past the end.
    let mut cpu = machine_with(&[0x1F, 0xFF]);
    run(&mut cpu, &keypad, 1);

    assert_eq!(cpu.run_cycle(&keypad), Err(Chip8Error::OutOfBounds));
    assert_eq!(cpu.position_in_memory, 0xFFF);
}

#[test]
fn test_unimplemented_opcode_class() {
    let keypad = Keypad::new();
    // 0x5001: the 5xy0 skip demands a zero low nibble.
    let mut cpu = machine_with(&[0x50, 0x01]);

    assert_eq!(cpu.run_cycle(&keypad), Err(Chip8Error::UnimplementedOpcode));
    // The program counter has still moved past the bad word.
    assert_eq!(cpu.position_in_memory, 0x202);
}

#[test]
fn test_unimplemented_opcode_variants() {
    let keypad = Keypad::new();
    for rom in [[0x01u8, 0x23], [0x80, 0x08], [0xE0, 0x55], [0xF0, 0x99]] {
        let mut cpu = machine_with(&rom);
        assert_eq!(cpu.run_cycle(&keypad), Err(Chip8Error::UnimplementedOpcode));
    }
}

#[test]
fn test_nop_advances_only() {
    let keypad = Keypad::new();
    let mut cpu = machine_with(&[0x00, 0x00]);
    run(&mut cpu, &keypad, 1);

    assert_eq!(cpu.position_in_memory, 0x202);
    assert!(cpu.registers.iter().all(|&r| r == 0));
}

#[test]
fn test_skip_if_key_pressed() {
    let mut keypad = Keypad::new();
    keypad.key_down('5');
    // V0 = 5; skip when key V0 is down; the skipped word would set V1.
    let mut cpu = machine_with(&[0x60, 0x05, 0xE0, 0x9E, 0x61, 0x66, 0x62, 0x01]);
    run(&mut cpu, &keypad, 3);

    assert_eq!(cpu.registers[1], 0);
    assert_eq!(cpu.registers[2], 1);
}

#[test]
fn test_skip_if_key_not_pressed() {
    let keypad = Keypad::new();
    // No key down: ExA1 skips.
    let mut cpu = machine_with(&[0x60, 0x05, 0xE0, 0xA1, 0x61, 0x66, 0x62, 0x01]);
    run(&mut cpu, &keypad, 3);

    assert_eq!(cpu.registers[1], 0);
    assert_eq!(cpu.registers[2], 1);
}

#[test]
fn test_wait_for_key_repeats_then_reads() {
    let mut keypad = Keypad::new();
    let mut cpu = machine_with(&[0xF0, 0x0A, 0x61, 0x01]);

    // With no key down the same instruction repeats each cycle.
    for _ in 0..3 {
        assert_eq!(cpu.run_cycle(&keypad), Ok(()));
        assert_eq!(cpu.position_in_memory, 0x200);
    }

    keypad.key_down('7');
    run(&mut cpu, &keypad, 2);
    assert_eq!(cpu.registers[0], 7);
    assert_eq!(cpu.registers[1], 1);
}
