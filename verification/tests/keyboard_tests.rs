use kernel::console::typed_char;
use kernel::events::EventHandler;
use kernel::interrupts::InterruptTable;
use kernel::keyboard::{
    get_pos, get_state, init, is_caps_lock_active, is_key_pressed, on_key, set_key, Key, KeyArgs,
    Keyboard, KEY_BYTES, KEY_COUNT,
};

#[test]
fn scancodes_name_their_keys() {
    assert_eq!(Key::from_u8(0x00), None);
    assert_eq!(Key::from_u8(0x01), Some(Key::Escape));
    assert_eq!(Key::from_u8(0x1E), Some(Key::A));
    assert_eq!(Key::from_u8(0x39), Some(Key::Space));
    assert_eq!(Key::from_u8(0x53), Some(Key::NPDot));
    assert_eq!(Key::from_u8(0x54), None);
    assert_eq!(Key::from_u8(0x56), None);
    assert_eq!(Key::from_u8(0x57), Some(Key::F11));
    assert_eq!(Key::from_u8(0x58), Some(Key::F12));
    assert_eq!(Key::from_u8(0x59), None);
    assert_eq!(Key::from_u8(0xFF), None);
    for code in 0..=255u8 {
        if let Some(key) = Key::from_u8(code) {
            assert_eq!(key.index(), code as usize);
        }
    }
    assert_eq!(Key::MMPrevious.index(), 0x59);
    assert_eq!(Key::Unknown.index(), 0x70);
    assert_eq!(KEY_COUNT, 0x71);
    assert_eq!(KEY_BYTES, 15);
}

#[test]
fn extended_scancodes_name_their_keys() {
    assert_eq!(Key::from_extended(0x48), Key::Up);
    assert_eq!(Key::from_extended(0x50), Key::Down);
    assert_eq!(Key::from_extended(0x4B), Key::Left);
    assert_eq!(Key::from_extended(0x4D), Key::Right);
    assert_eq!(Key::from_extended(0x1C), Key::NPEnter);
    assert_eq!(Key::from_extended(0x1D), Key::RCtrl);
    assert_eq!(Key::from_extended(0x5D), Key::Menu);
    assert_eq!(Key::from_extended(0x10), Key::MMPrevious);
    assert_eq!(Key::from_extended(0x00), Key::Unknown);
    assert_eq!(Key::from_extended(0x1E), Key::Unknown);
}

#[test]
fn keys_type_their_characters() {
    assert_eq!(Key::A.to_char(), Some('a'));
    assert_eq!(Key::Z.to_char(), Some('z'));
    assert_eq!(Key::R1.to_char(), Some('1'));
    assert_eq!(Key::NP1.to_char(), Some('1'));
    assert_eq!(Key::R0.to_char(), Some('0'));
    assert_eq!(Key::NPDot.to_char(), Some('.'));
    assert_eq!(Key::NPPlus.to_char(), Some('+'));
    assert_eq!(Key::Quote.to_char(), Some('\''));
    assert_eq!(Key::Backslash.to_char(), Some('\\'));
    assert_eq!(Key::Tilde.to_char(), Some('`'));
    assert_eq!(Key::Enter.to_char(), Some('\n'));
    assert_eq!(Key::Tab.to_char(), Some('\t'));
    assert_eq!(Key::Space.to_char(), Some(' '));
    assert_eq!(Key::Semicolon.to_char(), Some(';'));
    assert_eq!(Key::Escape.to_char(), None);
    assert_eq!(Key::LShift.to_char(), None);
    assert_eq!(Key::F1.to_char(), None);
    assert_eq!(Key::Up.to_char(), None);
    assert_eq!(Key::NPEnter.to_char(), None);
}

#[test]
fn shifted_keys_type_their_characters() {
    assert_eq!(Key::A.to_shifted_char(), Some('A'));
    assert_eq!(Key::R1.to_shifted_char(), Some('!'));
    assert_eq!(Key::R2.to_shifted_char(), Some('@'));
    assert_eq!(Key::R8.to_shifted_char(), Some('*'));
    assert_eq!(Key::R0.to_shifted_char(), Some(')'));
    assert_eq!(Key::Comma.to_shifted_char(), Some('<'));
    assert_eq!(Key::Quote.to_shifted_char(), Some('"'));
    assert_eq!(Key::Tilde.to_shifted_char(), Some('~'));
    assert_eq!(Key::Semicolon.to_shifted_char(), Some(':'));
    assert_eq!(Key::Minus.to_shifted_char(), Some('_'));
    assert_eq!(Key::Enter.to_shifted_char(), Some('\n'));
    assert_eq!(Key::NP1.to_shifted_char(), None);
    assert_eq!(Key::Tab.to_shifted_char(), None);
    assert_eq!(Key::NPAsterisk.to_shifted_char(), None);
    assert_eq!(Key::NPMinus.to_shifted_char(), None);
}

#[test]
fn letters_are_capitals_under_shift() {
    let letters = [
        Key::A, Key::B, Key::C, Key::D, Key::E, Key::F, Key::G, Key::H, Key::I, Key::J, Key::K,
        Key::L, Key::M, Key::N, Key::O, Key::P, Key::Q, Key::R, Key::S, Key::T, Key::U, Key::V,
        Key::W, Key::X, Key::Y, Key::Z,
    ];
    let mut seen = String::new();
    for key in letters {
        let c = key.to_char().unwrap();
        assert_eq!(key.to_shifted_char(), Some(c.to_ascii_uppercase()));
        seen.push(c);
    }
    assert_eq!(seen, "abcdefghijklmnopqrstuvwxyz");
}

#[test]
fn caps_lock_makes_the_a_key_type_a_capital() {
    assert_eq!(typed_char(Key::A, false, true), Some('A'));
    assert_eq!(typed_char(Key::A, false, false), Some('a'));
    assert_eq!(typed_char(Key::A, true, false), Some('A'));
    assert_eq!(typed_char(Key::A, true, true), Some('A'));
    assert_eq!(typed_char(Key::R1, false, true), Some('1'));
    assert_eq!(typed_char(Key::R1, true, true), Some('!'));
    assert_eq!(typed_char(Key::F5, false, true), None);
}

#[test]
fn a_scancode_holds_a_code_and_a_direction() {
    assert_eq!(get_state(0x1E), (0x1E, true));
    assert_eq!(get_state(0x9E), (0x1E, false));
    assert_eq!(get_state(0x80), (0x80, true));
    assert_eq!(get_state(0x81), (0x01, false));
    assert_eq!(get_state(0xFF), (0x7F, false));
    assert_eq!(get_pos(Key::A), (3, 6));
    assert_eq!(get_pos(Key::Escape), (0, 1));
    assert_eq!(get_pos(Key::Unknown), (14, 0));
}

#[test]
fn the_table_of_keys_notes_each_key_alone() {
    let mut kb: Keyboard<u32> = Keyboard::new();
    assert!(!is_key_pressed(&kb, Key::A));
    set_key(&mut kb, Key::A, true);
    set_key(&mut kb, Key::S, true);
    set_key(&mut kb, Key::Unknown, true);
    assert!(is_key_pressed(&kb, Key::A));
    assert!(is_key_pressed(&kb, Key::S));
    assert!(is_key_pressed(&kb, Key::Unknown));
    assert!(!is_key_pressed(&kb, Key::D));
    assert!(!is_key_pressed(&kb, Key::Ctrl));
    set_key(&mut kb, Key::A, false);
    assert!(!is_key_pressed(&kb, Key::A));
    assert!(is_key_pressed(&kb, Key::S));
    set_key(&mut kb, Key::S, true);
    assert!(is_key_pressed(&kb, Key::S));
}

#[test]
fn pressing_and_releasing_a_key_calls_the_handlers() {
    let mut kb: Keyboard<u32> = Keyboard::new();
    kb.on_key_down.subscribe(1);
    kb.on_key_down.subscribe(2);
    kb.on_key_up.subscribe(3);
    let down = on_key(&mut kb, 0x1E, 0);
    assert_eq!(down.event, Some((Key::A, true)));
    assert_eq!(down.handlers, vec![1, 2]);
    assert!(is_key_pressed(&kb, Key::A));
    let up = on_key(&mut kb, 0x9E, 0);
    assert_eq!(up.event, Some((Key::A, false)));
    assert_eq!(up.handlers, vec![3]);
    assert!(!is_key_pressed(&kb, Key::A));
    let nothing = on_key(&mut kb, 0x54, 0);
    assert_eq!(nothing.event, None);
    assert!(nothing.handlers.is_empty());
    let nothing = on_key(&mut kb, 0x00, 0);
    assert_eq!(nothing.event, None);
}

#[test]
fn a_two_byte_scancode_is_read_at_once_and_its_echo_is_dropped() {
    let mut kb: Keyboard<u32> = Keyboard::new();
    let up = on_key(&mut kb, 0xE0, 0x48);
    assert_eq!(up.event, Some((Key::Up, true)));
    assert!(kb.prev_extended);
    assert!(is_key_pressed(&kb, Key::Up));
    let echo = on_key(&mut kb, 0x48, 0);
    assert_eq!(echo.event, None);
    assert!(!kb.prev_extended);
    assert!(!is_key_pressed(&kb, Key::NP8));
    let released = on_key(&mut kb, 0xE0, 0xC8);
    assert_eq!(released.event, Some((Key::Up, false)));
    assert!(!is_key_pressed(&kb, Key::Up));
    let unknown = on_key(&mut kb, 0xE0, 0x77);
    assert_eq!(unknown.event, Some((Key::Unknown, true)));
}

#[test]
fn caps_lock_switches_when_its_key_is_released() {
    let mut kb: Keyboard<u32> = Keyboard::new();
    assert!(!is_caps_lock_active(&kb));
    on_key(&mut kb, 0x3A, 0);
    assert!(!is_caps_lock_active(&kb));
    on_key(&mut kb, 0xBA, 0);
    assert!(is_caps_lock_active(&kb));
    on_key(&mut kb, 0x3A, 0);
    on_key(&mut kb, 0xBA, 0);
    assert!(!is_caps_lock_active(&kb));
    assert_eq!(KeyArgs(Key::CapsLock).0, Key::CapsLock);
}

#[test]
fn the_keyboard_is_installed_on_line_one() {
    let mut table = InterruptTable::new(0x08);
    init(&mut table, 0x4321);
    assert_eq!(table.handler_for(0x21), Some(0x4321));
    assert_eq!(table.handler_for(0x20), None);
}
