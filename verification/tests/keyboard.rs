use chip8::keyboard::{Keyboard, Scancode};

fn keys_down(down: &[usize]) -> [bool; 16] {
    let mut keys = [false; 16];
    for &k in down {
        keys[k] = true;
    }
    keys
}

#[test]
fn new_keyboard_has_no_key_down() {
    let k = Keyboard::new();
    for key in 0..16u8 {
        assert!(!k.key_pressed(key));
    }
}

#[test]
fn read_user_input_takes_the_snapshot() {
    let mut k = Keyboard::new();
    k.read_user_input(&keys_down(&[2, 9]));
    for key in 0..16u8 {
        assert_eq!(k.key_pressed(key), key == 2 || key == 9);
    }
    k.read_user_input(&keys_down(&[]));
    for key in 0..16u8 {
        assert!(!k.key_pressed(key));
    }
}

#[test]
fn read_user_input_reports_the_lowest_new_press() {
    let mut k = Keyboard::new();
    assert_eq!(k.read_user_input(&keys_down(&[11, 4, 7])), Some(4));
}

#[test]
fn read_user_input_ignores_keys_that_stay_down() {
    let mut k = Keyboard::new();
    assert_eq!(k.read_user_input(&keys_down(&[1])), Some(1));
    assert_eq!(k.read_user_input(&keys_down(&[1])), None);
    assert_eq!(k.read_user_input(&keys_down(&[1, 15])), Some(15));
    assert_eq!(k.read_user_input(&keys_down(&[15])), None);
    assert_eq!(k.read_user_input(&keys_down(&[0, 15])), Some(0));
}

#[test]
fn read_user_input_reports_nothing_without_a_press() {
    let mut k = Keyboard::new();
    assert_eq!(k.read_user_input(&keys_down(&[])), None);
}

#[test]
fn to_scancode_covers_the_keypad() {
    assert_eq!(Keyboard::to_scancode(0x0), Some(Scancode::X));
    assert_eq!(Keyboard::to_scancode(0x1), Some(Scancode::Num1));
    assert_eq!(Keyboard::to_scancode(0x2), Some(Scancode::Num2));
    assert_eq!(Keyboard::to_scancode(0x3), Some(Scancode::Num3));
    assert_eq!(Keyboard::to_scancode(0x4), Some(Scancode::Q));
    assert_eq!(Keyboard::to_scancode(0x5), Some(Scancode::W));
    assert_eq!(Keyboard::to_scancode(0x6), Some(Scancode::E));
    assert_eq!(Keyboard::to_scancode(0x7), Some(Scancode::A));
    assert_eq!(Keyboard::to_scancode(0x8), Some(Scancode::S));
    assert_eq!(Keyboard::to_scancode(0x9), Some(Scancode::D));
    assert_eq!(Keyboard::to_scancode(0xA), Some(Scancode::Z));
    assert_eq!(Keyboard::to_scancode(0xB), Some(Scancode::C));
    assert_eq!(Keyboard::to_scancode(0xC), Some(Scancode::Num4));
    assert_eq!(Keyboard::to_scancode(0xD), Some(Scancode::R));
    assert_eq!(Keyboard::to_scancode(0xE), Some(Scancode::F));
    assert_eq!(Keyboard::to_scancode(0xF), Some(Scancode::V));
}

#[test]
fn to_scancode_knows_no_key_past_the_keypad() {
    assert_eq!(Keyboard::to_scancode(0x10), None);
    assert_eq!(Keyboard::to_scancode(0xFF), None);
}

#[test]
fn from_scancode_undoes_to_scancode() {
    for key in 0..16u8 {
        let code = Keyboard::to_scancode(key).unwrap();
        assert_eq!(Keyboard::from_scancode(code), key);
    }
}

#[test]
fn from_scancode_follows_the_keyboard_rows() {
    assert_eq!(Keyboard::from_scancode(Scancode::Num1), 0x1);
    assert_eq!(Keyboard::from_scancode(Scancode::Num4), 0xC);
    assert_eq!(Keyboard::from_scancode(Scancode::Q), 0x4);
    assert_eq!(Keyboard::from_scancode(Scancode::R), 0xD);
    assert_eq!(Keyboard::from_scancode(Scancode::A), 0x7);
    assert_eq!(Keyboard::from_scancode(Scancode::F), 0xE);
    assert_eq!(Keyboard::from_scancode(Scancode::Z), 0xA);
    assert_eq!(Keyboard::from_scancode(Scancode::X), 0x0);
    assert_eq!(Keyboard::from_scancode(Scancode::V), 0xF);
}
