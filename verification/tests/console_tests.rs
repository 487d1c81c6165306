use kernel::console::{init, is_whitespace, on_key_down, typed_char};
use kernel::events::EventHandler;
use kernel::io::{Seek, Write};
use kernel::keyboard::{set_key, Key, KeyArgs, Keyboard};
use kernel::vga_console::Console;

fn text_at(console: &Console, pos: usize, len: usize) -> String {
    (pos..pos + len).map(|p| console.read_at(p).byte as char).collect()
}

#[test]
fn the_console_subscribes_to_keys_going_down() {
    let mut kb: Keyboard<u32> = Keyboard::new();
    assert_eq!(init(&mut kb, 0xC0), 0);
    assert_eq!(init(&mut kb, 0xC1), 1);
    assert_eq!(kb.on_key_down.invoke(), vec![0xC0, 0xC1]);
    assert!(kb.on_key_up.invoke().is_empty());
}

#[test]
fn the_a_key_under_caps_lock_shows_a_capital() {
    let mut kb: Keyboard<u32> = Keyboard::new();
    kb.caps_lock = true;
    let mut console = Console::new();
    on_key_down(KeyArgs(Key::A), &kb, &mut console);
    assert_eq!(console.read_at(0).byte, b'A');
    assert_eq!(console.get_cursor_position(), 1);
    kb.caps_lock = false;
    on_key_down(KeyArgs(Key::A), &kb, &mut console);
    assert_eq!(text_at(&console, 0, 2), "Aa");
}

#[test]
fn shift_selects_the_shifted_character() {
    let mut kb: Keyboard<u32> = Keyboard::new();
    let mut console = Console::new();
    on_key_down(KeyArgs(Key::R1), &kb, &mut console);
    set_key(&mut kb, Key::LShift, true);
    on_key_down(KeyArgs(Key::R1), &kb, &mut console);
    set_key(&mut kb, Key::LShift, false);
    set_key(&mut kb, Key::RShift, true);
    on_key_down(KeyArgs(Key::Slash), &kb, &mut console);
    kb.caps_lock = true;
    on_key_down(KeyArgs(Key::B), &kb, &mut console);
    on_key_down(KeyArgs(Key::R2), &kb, &mut console);
    assert_eq!(text_at(&console, 0, 5), "1!?B@");
    // A key without a character shows nothing.
    on_key_down(KeyArgs(Key::F3), &kb, &mut console);
    on_key_down(KeyArgs(Key::LShift), &kb, &mut console);
    assert_eq!(console.get_cursor_position(), 5);
}

#[test]
fn enter_and_tab_move_the_cursor() {
    let kb: Keyboard<u32> = Keyboard::new();
    let mut console = Console::new();
    on_key_down(KeyArgs(Key::X), &kb, &mut console);
    on_key_down(KeyArgs(Key::Tab), &kb, &mut console);
    assert_eq!(console.get_cursor_position(), 5);
    on_key_down(KeyArgs(Key::Enter), &kb, &mut console);
    assert_eq!(console.get_cursor_position(), 80);
    assert_eq!(text_at(&console, 0, 6), "x     ");
}

#[test]
fn backspace_erases_a_character_or_a_word() {
    let mut kb: Keyboard<u32> = Keyboard::new();
    let mut console = Console::new();
    console.write_string("one two three");
    on_key_down(KeyArgs(Key::Backspace), &kb, &mut console);
    assert_eq!(text_at(&console, 0, 13), "one two thre ");
    assert_eq!(console.get_cursor_position(), 12);
    set_key(&mut kb, Key::Ctrl, true);
    on_key_down(KeyArgs(Key::Backspace), &kb, &mut console);
    assert_eq!(text_at(&console, 0, 13), "one two      ");
    assert_eq!(console.get_cursor_position(), 8);
    // With the cursor behind a blank the blank goes, and then the word.
    on_key_down(KeyArgs(Key::Backspace), &kb, &mut console);
    assert_eq!(text_at(&console, 0, 13), "one          ");
    assert_eq!(console.get_cursor_position(), 4);
    on_key_down(KeyArgs(Key::Backspace), &kb, &mut console);
    assert_eq!(console.get_cursor_position(), 0);
    on_key_down(KeyArgs(Key::Backspace), &kb, &mut console);
    assert_eq!(console.get_cursor_position(), 0);
}

#[test]
fn the_arrows_move_the_cursor_on_the_screen() {
    let kb: Keyboard<u32> = Keyboard::new();
    let mut console = Console::new();
    on_key_down(KeyArgs(Key::Left), &kb, &mut console);
    assert_eq!(console.get_cursor_position(), 0);
    on_key_down(KeyArgs(Key::Right), &kb, &mut console);
    on_key_down(KeyArgs(Key::Right), &kb, &mut console);
    assert_eq!(console.get_cursor_position(), 2);
    on_key_down(KeyArgs(Key::Left), &kb, &mut console);
    assert_eq!(console.get_cursor_position(), 1);
    console.seek(1199);
    on_key_down(KeyArgs(Key::Right), &kb, &mut console);
    assert_eq!(console.get_cursor_position(), 1200);
    on_key_down(KeyArgs(Key::Right), &kb, &mut console);
    assert_eq!(console.get_cursor_position(), 1200);
}

#[test]
fn white_space_on_the_screen() {
    for b in [b' ', b'\t', b'\n', 0x0B, 0x0C, b'\r', 0x85, 0xA0] {
        assert!(is_whitespace(b));
        assert!((b as char).is_whitespace());
    }
    for b in 0..=255u8 {
        assert_eq!(is_whitespace(b), (b as char).is_whitespace());
    }
    assert_eq!(typed_char(Key::Space, false, true), Some(' '));
}
