use kernel::interrupts::InterruptState;
use kernel::io::{Clear, PortWrite, Read, Seek, TextError, Write};
use kernel::vga_console::{Buffer, Char, Color, ColorCode, Console, _print};

const WHITE: ColorCode = ColorCode(0x0F);

fn text_at(console: &Console, pos: usize, len: usize) -> String {
    (pos..pos + len).map(|p| console.read_at(p).byte as char).collect()
}

#[test]
fn colour_codes_pack_background_and_foreground() {
    assert_eq!(ColorCode::new(Color::White, Color::Black), ColorCode(0x0F));
    assert_eq!(ColorCode::new(Color::Yellow, Color::Blue), ColorCode(0x1E));
    assert_eq!(ColorCode::new(Color::Black, Color::White), ColorCode(0xF0));
    assert_eq!(ColorCode::new(Color::LightGray, Color::Red), ColorCode(0x47));
    assert_eq!(Color::Black.code(), 0);
    assert_eq!(Color::Brown.code(), 6);
    assert_eq!(Color::Pink.code(), 13);
    assert_eq!(Color::White.code(), 15);
}

#[test]
fn a_cell_holds_what_was_written_to_it() {
    let mut buffer = Buffer::new(ColorCode(0x1E));
    assert_eq!(buffer.get(0), Char { byte: b' ', color: ColorCode(0x1E) });
    assert_eq!(buffer.get(1199), Char { byte: b' ', color: ColorCode(0x1E) });
    buffer.set(5, Char { byte: b'x', color: ColorCode(0x47) });
    buffer.set(6, Char { byte: 0xFF, color: ColorCode(0xFF) });
    assert_eq!(buffer.get(5), Char { byte: b'x', color: ColorCode(0x47) });
    assert_eq!(buffer.get(6), Char { byte: 0xFF, color: ColorCode(0xFF) });
    assert_eq!(buffer.get(4), Char { byte: b' ', color: ColorCode(0x1E) });
    assert_eq!(buffer.get(7), Char { byte: b' ', color: ColorCode(0x1E) });
    buffer.set(5, Char { byte: b'y', color: ColorCode(0x00) });
    assert_eq!(buffer.get(5), Char { byte: b'y', color: ColorCode(0x00) });
}

#[test]
fn writing_behind_the_last_cell_scrolls() {
    let mut buffer = Buffer::new(WHITE);
    let mut ptr = 80;
    buffer.write(&mut ptr, b'a', WHITE);
    assert_eq!(ptr, 81);
    let mut ptr = 1199;
    buffer.write(&mut ptr, b'z', WHITE);
    assert_eq!(ptr, 1200);
    buffer.write(&mut ptr, b'!', ColorCode(0x1E));
    assert_eq!(ptr, 1121);
    // The second row is the first now, and the last row is new.
    assert_eq!(buffer.get(0).byte, b'a');
    assert_eq!(buffer.get(80).byte, b' ');
    assert_eq!(buffer.get(1119).byte, b'z');
    assert_eq!(buffer.get(1120), Char { byte: b'!', color: ColorCode(0x1E) });
    assert_eq!(buffer.get(1121), Char { byte: b' ', color: ColorCode(0x1E) });
    assert_eq!(buffer.get(1199), Char { byte: b' ', color: ColorCode(0x1E) });
}

#[test]
fn scrolling_moves_every_row_up() {
    let mut buffer = Buffer::new(WHITE);
    for row in 0..15usize {
        for col in 0..80usize {
            buffer.set(row * 80 + col, Char { byte: b'A' + row as u8, color: WHITE });
        }
    }
    let mut ptr = 1200;
    buffer.scroll_down(&mut ptr, ColorCode(0x20));
    assert_eq!(ptr, 1120);
    for row in 0..14usize {
        assert_eq!(buffer.get(row * 80).byte, b'B' + row as u8);
        assert_eq!(buffer.get(row * 80 + 79).byte, b'B' + row as u8);
    }
    for col in 0..80usize {
        assert_eq!(buffer.get(1120 + col), Char { byte: b' ', color: ColorCode(0x20) });
    }
}

#[test]
fn text_is_written_with_line_feeds_tabs_and_question_marks() {
    let mut console = Console::new();
    console.write_string("ab\ncd\te\u{7f}f\u{e9}");
    assert_eq!(text_at(&console, 0, 3), "ab ");
    assert_eq!(text_at(&console, 80, 9), "cd    e?f");
    // The two bytes of the last character are two question marks.
    assert_eq!(text_at(&console, 89, 3), "?? ");
    assert_eq!(console.get_cursor_position(), 91);
    assert_eq!(console.read_at(80).color, WHITE);
}

#[test]
fn a_line_feed_in_the_last_row_scrolls_when_the_next_byte_comes() {
    let mut console = Console::new();
    console.seek(14 * 80 + 3);
    console.write_string("x\n");
    assert_eq!(console.get_cursor_position(), 1200);
    assert_eq!(console.read_at(1123).byte, b'x');
    console.write_string("y");
    assert_eq!(console.get_cursor_position(), 1121);
    assert_eq!(console.read_at(1043).byte, b'x');
    assert_eq!(console.read_at(1120).byte, b'y');
    // A line feed with the cursor behind the last cell scrolls at once.
    console.seek(1200);
    console.newline();
    assert_eq!(console.get_cursor_position(), 1200);
    assert_eq!(console.read_at(963).byte, b'x');
    assert_eq!(console.read_at(1040).byte, b'y');
}

#[test]
fn bytes_are_written_as_they_are() {
    let mut console = Console::new();
    console.set_color(ColorCode(0x2A));
    assert_eq!(console.get_color(), ColorCode(0x2A));
    console.write_bytes(b"a\nb");
    assert_eq!(console.read_at(0), Char { byte: b'a', color: ColorCode(0x2A) });
    assert_eq!(console.read_at(1).byte, b'\n');
    assert_eq!(console.read_at(2).byte, b'b');
    console.write_byte(0x00);
    assert_eq!(console.read_at(3).byte, 0);
    assert_eq!(console.get_cursor_position(), 4);
}

#[test]
fn the_hardware_cursor_follows() {
    let mut console = Console::new();
    console.seek(0x123);
    assert_eq!(
        console.cursor_commands(),
        vec![
            PortWrite { port: 0x3D4, value: 0x0E },
            PortWrite { port: 0x3D5, value: 0x01 },
            PortWrite { port: 0x3D4, value: 0x0F },
            PortWrite { port: 0x3D5, value: 0x23 },
        ]
    );
    console.seek_raw(7);
    assert_eq!(console.get_cursor_position(), 7);
    assert_eq!(console.cursor_commands()[3].value, 0x23);
    console.update_cursor();
    assert_eq!(console.cursor_commands()[1].value, 0x00);
    assert_eq!(console.cursor_commands()[3].value, 0x07);
    console.newline_raw();
    assert_eq!(console.get_cursor_position(), 80);
    assert_eq!(console.cursor_commands()[3].value, 0x07);
    console.newline();
    assert_eq!(console.get_cursor_position(), 160);
    assert_eq!(console.cursor_commands()[3].value, 160);
}

#[test]
fn backspace_erases_the_cell_before_the_cursor() {
    let mut console = Console::new();
    console.write_string("abc");
    console.backspace();
    assert_eq!(text_at(&console, 0, 3), "ab ");
    assert_eq!(console.get_cursor_position(), 2);
    console.backspace();
    console.backspace();
    assert_eq!(console.get_cursor_position(), 0);
    console.backspace();
    assert_eq!(console.get_cursor_position(), 0);
    assert_eq!(text_at(&console, 0, 3), "   ");
}

#[test]
fn backspace_at_the_start_of_a_row_goes_back_to_the_text() {
    let mut console = Console::new();
    console.write_string("hello\n");
    assert_eq!(console.get_cursor_position(), 80);
    console.backspace();
    assert_eq!(console.get_cursor_position(), 5);
    assert_eq!(text_at(&console, 0, 6), "hello ");
    // An empty row sends the cursor to its start.
    console.seek(240);
    console.backspace();
    assert_eq!(console.get_cursor_position(), 160);
    // A full row keeps the cursor behind its last character but one.
    let mut full = Console::new();
    full.write_bytes(&[b'x'; 80]);
    assert_eq!(full.get_cursor_position(), 80);
    full.backspace();
    assert_eq!(full.get_cursor_position(), 79);
    assert_eq!(full.read_at(79).byte, b' ');
    assert_eq!(full.read_at(78).byte, b'x');
}

#[test]
fn clearing_blanks_the_screen() {
    let mut console = Console::new();
    console.write_string("some text\nmore");
    console.set_color(ColorCode(0x4F));
    console.clear();
    assert_eq!(console.get_cursor_position(), 0);
    for pos in [0usize, 1, 80, 84, 1199] {
        assert_eq!(console.read_at(pos), Char { byte: b' ', color: ColorCode(0x4F) });
    }
    assert_eq!(console.cursor_commands()[3].value, 0);
}

#[test]
fn reading_gives_the_byte_at_the_cursor() {
    let mut console = Console::new();
    console.write_string("hi");
    console.seek(1);
    assert_eq!(console.read_byte(), b'i');
    assert_eq!(console.read_char(), 'i');
    let mut buffer = vec![0u8; 3];
    assert_eq!(console.read_bytes(&mut buffer), 3);
    assert_eq!(buffer, b"iii");
    assert_eq!(console.read_string(2), Ok(String::from("ii")));
    assert_eq!(console.read_string(0), Ok(String::new()));
    // A byte that is no text on its own.
    console.seek(5);
    console.write_byte(0xE9);
    console.seek(5);
    assert_eq!(console.read_string(1), Err(TextError { valid_up_to: 0 }));
    assert_eq!(console.read_string(3), Err(TextError { valid_up_to: 0 }));
    // The first byte of a two-byte character, alone and then repeated.
    console.seek(6);
    console.write_byte(0xC3);
    console.seek(6);
    assert_eq!(console.read_string(1), Err(TextError { valid_up_to: 0 }));
    assert_eq!(console.read_string(2), Err(TextError { valid_up_to: 0 }));
}

#[test]
fn printing_leaves_interrupts_as_they_were() {
    let mut console = Console::new();
    let mut on = InterruptState { enabled: true };
    _print(&mut console, &mut on, "ok\n");
    assert!(on.enabled);
    let mut off = InterruptState { enabled: false };
    _print(&mut console, &mut off, "then");
    assert!(!off.enabled);
    assert_eq!(text_at(&console, 0, 2), "ok");
    assert_eq!(text_at(&console, 80, 4), "then");
    assert_eq!(console.get_cursor_position(), 84);
}
