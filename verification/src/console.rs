//! The console's answer to the keyboard: what a key does to the screen.

use vstd::prelude::*;
use crate::events::EventHandler;
use crate::io::{Seek, Write};
use crate::keyboard::{Key, KeyArgs, Keyboard, is_caps_lock_active, is_key_pressed};
use crate::vga_console::{Console, Screen, VGA_BUFFER_SIZE, erased, put};

verus! {

/// Subscribes `handler` to the keys that go down, and returns the token
/// of the subscription.
pub fn init<H: Copy>(keyboard: &mut Keyboard<H>, handler: H) -> (id: usize)
    requires
        old(keyboard).on_key_down.next_token() < usize::MAX,
    ensures
        id == old(keyboard).on_key_down.next_token(),
        final(keyboard).on_key_down.next_token() == id + 1,
        final(keyboard).on_key_down.subscriptions() == old(keyboard).on_key_down.subscriptions().insert(id, handler),
        final(keyboard).on_key_up == old(keyboard).on_key_up,
        final(keyboard).keys == old(keyboard).keys,
        final(keyboard).caps_lock == old(keyboard).caps_lock,
        final(keyboard).prev_extended == old(keyboard).prev_extended,
{
    keyboard.on_key_down.subscribe(handler)
}

/// Whether a byte read from the screen is white space.
pub open spec fn spec_is_whitespace(byte: u8) -> bool {
    byte == 0x20 || (0x09 <= byte <= 0x0D) || byte == 0x85 || byte == 0xA0
}

/// Whether a byte read from the screen is white space.
#[verifier::when_used_as_spec(spec_is_whitespace)]
pub fn is_whitespace(byte: u8) -> (r: bool)
    ensures
        r == spec_is_whitespace(byte),
{
    byte == 0x20 || (0x09 <= byte && byte <= 0x0D) || byte == 0x85 || byte == 0xA0
}

/// The character that `key` types with shift held or not and caps lock
/// on or not: the shifted character under shift, and a letter as a
/// capital under caps lock.
pub open spec fn spec_typed_char(key: Key, shift: bool, caps: bool) -> Option<char> {
    let plain = if shift {
        key.spec_to_shifted_char()
    } else {
        key.spec_to_char()
    };
    match plain {
        Some(c) => if caps && 'a' <= c <= 'z' {
            Some(((c as u8) - 32) as char)
        } else {
            Some(c)
        },
        None => None,
    }
}

/// The character that `key` types with shift held or not and caps lock on
/// or not, if it types one.
#[verifier::when_used_as_spec(spec_typed_char)]
pub fn typed_char(key: Key, shift: bool, caps: bool) -> (r: Option<char>)
    ensures
        r == spec_typed_char(key, shift, caps),
{
    let plain = if shift {
        key.to_shifted_char()
    } else {
        key.to_char()
    };
    match plain {
        Some(c) => if caps && 'a' <= c && c <= 'z' {
            Some(((c as u8) - 32) as char)
        } else {
            Some(c)
        },
        None => None,
    }
}

/// The screen after backspace has been pressed with control held: the
/// cell before the cursor is erased, and then every cell before it up to
/// the nearest white space or the start of the screen.
pub open spec fn word_erased(s: Screen, color: crate::vga_console::ColorCode) -> Screen
    decreases s.ptr,
{
    if 0 < s.ptr <= s.cells.len() && !spec_is_whitespace(s.cells[s.ptr - 1].byte) && 0 <= erased(
        s,
        color,
    ).ptr < s.ptr {
        word_erased(erased(s, color), color)
    } else {
        s
    }
}

/// What a key that went down does to the console.
///
/// Backspace erases the cell before the cursor, and with control held the
/// rest of the word before it as well. The left and right arrows move the
/// cursor by one cell, as far as the screen goes. Any other key types its
/// character, if it has one, at the cursor: the shifted one while a shift
/// key is held, and a letter as a capital while caps lock is on.
pub fn on_key_down<H: Copy>(args: KeyArgs, keyboard: &Keyboard<H>, console: &mut Console)
    requires
        keyboard.wf(),
        old(console).wf(),
    ensures
        final(console).wf(),
        final(console).colors() == old(console).colors(),
        final(console).screen() == match args.0 {
            Key::Backspace => if keyboard.pressed(Key::Ctrl) {
                word_erased(erased(old(console).screen(), old(console).colors()), old(console).colors())
            } else {
                erased(old(console).screen(), old(console).colors())
            },
            Key::Left => if old(console).screen().ptr > 0 {
                Screen { ptr: old(console).screen().ptr - 1, ..old(console).screen() }
            } else {
                old(console).screen()
            },
            Key::Right => if old(console).screen().ptr < VGA_BUFFER_SIZE {
                Screen { ptr: old(console).screen().ptr + 1, ..old(console).screen() }
            } else {
                old(console).screen()
            },
            _ => match spec_typed_char(
                args.0,
                keyboard.pressed(Key::LShift) || keyboard.pressed(Key::RShift),
                keyboard.caps_lock,
            ) {
                Some(c) => crate::vga_console::typed(
                    old(console).screen(),
                    c as u8,
                    old(console).colors(),
                ),
                None => old(console).screen(),
            },
        },
{
    match args.0 {
        Key::Backspace => {
            console.backspace();
            if is_key_pressed(keyboard, Key::Ctrl) {
                while console.get_cursor_position() > 0 && !is_whitespace(
                    console.read_at(console.get_cursor_position() - 1).byte,
                )
                    invariant
                        console.wf(),
                        console.colors() == old(console).colors(),
                        word_erased(console.screen(), console.colors()) == word_erased(
                            erased(old(console).screen(), old(console).colors()),
                            old(console).colors(),
                        ),
                    decreases console.screen().ptr,
                {
                    console.backspace();
                }
            }
        },
        Key::Left => {
            let pos = console.get_cursor_position();
            if pos > 0 {
                console.seek(pos - 1);
            }
        },
        Key::Right => {
            let pos = console.get_cursor_position();
            if pos < VGA_BUFFER_SIZE {
                console.seek(pos + 1);
            }
        },
        _ => {
            let shift = is_key_pressed(keyboard, Key::LShift) || is_key_pressed(keyboard, Key::RShift);
            match typed_char(args.0, shift, is_caps_lock_active(keyboard)) {
                Some(x) => {
                    console.type_byte(x as u8);
                },
                None => {},
            }
        },
    }
}

} // verus!
