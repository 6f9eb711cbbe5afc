use chip8::keypad::KeyState;

#[test]
fn press_then_release_every_key() {
    let mut k = KeyState::new();
    for key in 0x0..=0xFu8 {
        assert!(!k.is_pressed(key));
        k.press(key);
        assert!(k.is_pressed(key));
        k.release(key);
        assert!(!k.is_pressed(key));
    }
}

#[test]
fn untouched_keys_read_as_up() {
    let mut k = KeyState::new();
    k.press(0x3);
    for key in 0x0..=0xFu8 {
        assert_eq!(k.is_pressed(key), key == 0x3);
    }
}

#[test]
fn out_of_range_codes_are_ignored() {
    let mut k = KeyState::new();
    k.press(0x10);
    k.press(0xFF);
    assert!(!k.is_pressed(0x10));
    assert!(!k.is_pressed(0xFF));
    for key in 0x0..=0xFu8 {
        assert!(!k.is_pressed(key));
    }
    k.release(0x42);
    assert!(!k.is_pressed(0x42));
}
