use chip8_core::keypad::Keypad;

#[test]
fn test_key_down() {
    let mut keypad = Keypad::new();

    keypad.key_down('2');

    assert_eq!(keypad.key_state(2), 1)
}

#[test]
fn test_key_up() {
    let mut keypad = Keypad::new();

    keypad.key_up('0');

    assert_eq!(keypad.key_state(0x0), 0)
}

#[test]
fn test_get_down_key() {
    let mut keypad = Keypad::new();

    assert_eq!(keypad.get_down_key(), None);

    keypad.key_down('C');

    assert_eq!(keypad.get_down_key(), Some(0xC));

    keypad.key_up('C');

    assert_eq!(keypad.get_down_key(), None);
}

#[test]
fn test_unknown_character_is_ignored() {
    let mut keypad = Keypad::new();

    keypad.key_down('z');

    for k in 0..16u8 {
        assert_eq!(keypad.key_state(k), 0);
    }
    assert_eq!(keypad.get_down_key(), None);
}

#[test]
fn test_key_state_out_of_range_code() {
    let mut keypad = Keypad::new();

    keypad.key_down('5');

    assert_eq!(keypad.key_state(200), 0);
}

#[test]
fn test_get_down_key_returns_lowest() {
    let mut keypad = Keypad::new();

    keypad.key_down('9');
    keypad.key_down('4');

    assert_eq!(keypad.get_down_key(), Some(4));
}
