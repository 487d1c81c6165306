//! The PS/2 keyboard: keys and their scancodes, the characters they type,
//! the table of keys held down, and the decoding of what the keyboard
//! sends.

use vstd::prelude::*;
use crate::events::{Event, EventHandler, in_token_order};
use crate::interrupts::{GateType, InterruptTable, gate};
use crate::pic::IRQ_OFFSET;

verus! {

/// A key. The keys up to `F12` are those of scancode set 1 in the order of
/// their codes; the ones after it are sent with the prefix 0xE0.
#[derive(Clone, Copy, Debug, PartialEq, Eq, Structural)]
pub enum Key {
    Escape,
    R1,
    R2,
    R3,
    R4,
    R5,
    R6,
    R7,
    R8,
    R9,
    R0,
    Minus,
    Equals,
    Backspace,
    Tab,
    Q,
    W,
    E,
    R,
    T,
    Y,
    U,
    I,
    O,
    P,
    LeftBracket,
    RightBracket,
    Enter,
    Ctrl,
    A,
    S,
    D,
    F,
    G,
    H,
    J,
    K,
    L,
    Semicolon,
    Quote,
    Tilde,
    LShift,
    Backslash,
    Z,
    X,
    C,
    V,
    B,
    N,
    M,
    Comma,
    Dot,
    Slash,
    RShift,
    NPAsterisk,
    Alt,
    Space,
    CapsLock,
    F1,
    F2,
    F3,
    F4,
    F5,
    F6,
    F7,
    F8,
    F9,
    F10,
    NumLock,
    ScrollLock,
    NP7,
    NP8,
    NP9,
    NPMinus,
    NP4,
    NP5,
    NP6,
    NPPlus,
    NP1,
    NP2,
    NP3,
    NP0,
    NPDot,
    F11,
    F12,
    MMPrevious,
    MMNext,
    NPEnter,
    Mute,
    Calculator,
    MMPlay,
    MMStop,
    VolumeDown,
    VolumeUp,
    Home,
    Up,
    PageUp,
    Left,
    Right,
    End,
    Down,
    PageDown,
    Insert,
    Delete,
    Menu,
    RCtrl,
    RAlt,
    NPSlash,
    Unknown,
}

/// The number of keys, the one that stands for an unknown key included.
pub const KEY_COUNT: usize = 113;

/// Bytes in the table of keys held down: one bit for every key.
pub const KEY_BYTES: usize = 15;

/// The prefix of a two-byte scancode.
pub const EXTENDED: u8 = 0xE0;

impl Key {
    /// The number of the key: its scancode for the keys that have one of
    /// their own, and the numbers after those for the others.
    pub open spec fn spec_index(self) -> usize {
        match self {
            Key::Escape => 0x01,
            Key::R1 => 0x02,
            Key::R2 => 0x03,
            Key::R3 => 0x04,
            Key::R4 => 0x05,
            Key::R5 => 0x06,
            Key::R6 => 0x07,
            Key::R7 => 0x08,
            Key::R8 => 0x09,
            Key::R9 => 0x0A,
            Key::R0 => 0x0B,
            Key::Minus => 0x0C,
            Key::Equals => 0x0D,
            Key::Backspace => 0x0E,
            Key::Tab => 0x0F,
            Key::Q => 0x10,
            Key::W => 0x11,
            Key::E => 0x12,
            Key::R => 0x13,
            Key::T => 0x14,
            Key::Y => 0x15,
            Key::U => 0x16,
            Key::I => 0x17,
            Key::O => 0x18,
            Key::P => 0x19,
            Key::LeftBracket => 0x1A,
            Key::RightBracket => 0x1B,
            Key::Enter => 0x1C,
            Key::Ctrl => 0x1D,
            Key::A => 0x1E,
            Key::S => 0x1F,
            Key::D => 0x20,
            Key::F => 0x21,
            Key::G => 0x22,
            Key::H => 0x23,
            Key::J => 0x24,
            Key::K => 0x25,
            Key::L => 0x26,
            Key::Semicolon => 0x27,
            Key::Quote => 0x28,
            Key::Tilde => 0x29,
            Key::LShift => 0x2A,
            Key::Backslash => 0x2B,
            Key::Z => 0x2C,
            Key::X => 0x2D,
            Key::C => 0x2E,
            Key::V => 0x2F,
            Key::B => 0x30,
            Key::N => 0x31,
            Key::M => 0x32,
            Key::Comma => 0x33,
            Key::Dot => 0x34,
            Key::Slash => 0x35,
            Key::RShift => 0x36,
            Key::NPAsterisk => 0x37,
            Key::Alt => 0x38,
            Key::Space => 0x39,
            Key::CapsLock => 0x3A,
            Key::F1 => 0x3B,
            Key::F2 => 0x3C,
            Key::F3 => 0x3D,
            Key::F4 => 0x3E,
            Key::F5 => 0x3F,
            Key::F6 => 0x40,
            Key::F7 => 0x41,
            Key::F8 => 0x42,
            Key::F9 => 0x43,
            Key::F10 => 0x44,
            Key::NumLock => 0x45,
            Key::ScrollLock => 0x46,
            Key::NP7 => 0x47,
            Key::NP8 => 0x48,
            Key::NP9 => 0x49,
            Key::NPMinus => 0x4A,
            Key::NP4 => 0x4B,
            Key::NP5 => 0x4C,
            Key::NP6 => 0x4D,
            Key::NPPlus => 0x4E,
            Key::NP1 => 0x4F,
            Key::NP2 => 0x50,
            Key::NP3 => 0x51,
            Key::NP0 => 0x52,
            Key::NPDot => 0x53,
            Key::F11 => 0x57,
            Key::F12 => 0x58,
            Key::MMPrevious => 0x59,
            Key::MMNext => 0x5A,
            Key::NPEnter => 0x5B,
            Key::Mute => 0x5C,
            Key::Calculator => 0x5D,
            Key::MMPlay => 0x5E,
            Key::MMStop => 0x5F,
            Key::VolumeDown => 0x60,
            Key::VolumeUp => 0x61,
            Key::Home => 0x62,
            Key::Up => 0x63,
            Key::PageUp => 0x64,
            Key::Left => 0x65,
            Key::Right => 0x66,
            Key::End => 0x67,
            Key::Down => 0x68,
            Key::PageDown => 0x69,
            Key::Insert => 0x6A,
            Key::Delete => 0x6B,
            Key::Menu => 0x6C,
            Key::RCtrl => 0x6D,
            Key::RAlt => 0x6E,
            Key::NPSlash => 0x6F,
            Key::Unknown => 0x70,
        }
    }

    /// The number of the key.
    #[verifier::when_used_as_spec(spec_index)]
    pub fn index(self) -> (r: usize)
        ensures
            r == self.spec_index(),
            0 < r < KEY_COUNT,
    {
        match self {
            Key::Escape => 0x01,
            Key::R1 => 0x02,
            Key::R2 => 0x03,
            Key::R3 => 0x04,
            Key::R4 => 0x05,
            Key::R5 => 0x06,
            Key::R6 => 0x07,
            Key::R7 => 0x08,
            Key::R8 => 0x09,
            Key::R9 => 0x0A,
            Key::R0 => 0x0B,
            Key::Minus => 0x0C,
            Key::Equals => 0x0D,
            Key::Backspace => 0x0E,
            Key::Tab => 0x0F,
            Key::Q => 0x10,
            Key::W => 0x11,
            Key::E => 0x12,
            Key::R => 0x13,
            Key::T => 0x14,
            Key::Y => 0x15,
            Key::U => 0x16,
            Key::I => 0x17,
            Key::O => 0x18,
            Key::P => 0x19,
            Key::LeftBracket => 0x1A,
            Key::RightBracket => 0x1B,
            Key::Enter => 0x1C,
            Key::Ctrl => 0x1D,
            Key::A => 0x1E,
            Key::S => 0x1F,
            Key::D => 0x20,
            Key::F => 0x21,
            Key::G => 0x22,
            Key::H => 0x23,
            Key::J => 0x24,
            Key::K => 0x25,
            Key::L => 0x26,
            Key::Semicolon => 0x27,
            Key::Quote => 0x28,
            Key::Tilde => 0x29,
            Key::LShift => 0x2A,
            Key::Backslash => 0x2B,
            Key::Z => 0x2C,
            Key::X => 0x2D,
            Key::C => 0x2E,
            Key::V => 0x2F,
            Key::B => 0x30,
            Key::N => 0x31,
            Key::M => 0x32,
            Key::Comma => 0x33,
            Key::Dot => 0x34,
            Key::Slash => 0x35,
            Key::RShift => 0x36,
            Key::NPAsterisk => 0x37,
            Key::Alt => 0x38,
            Key::Space => 0x39,
            Key::CapsLock => 0x3A,
            Key::F1 => 0x3B,
            Key::F2 => 0x3C,
            Key::F3 => 0x3D,
            Key::F4 => 0x3E,
            Key::F5 => 0x3F,
            Key::F6 => 0x40,
            Key::F7 => 0x41,
            Key::F8 => 0x42,
            Key::F9 => 0x43,
            Key::F10 => 0x44,
            Key::NumLock => 0x45,
            Key::ScrollLock => 0x46,
            Key::NP7 => 0x47,
            Key::NP8 => 0x48,
            Key::NP9 => 0x49,
            Key::NPMinus => 0x4A,
            Key::NP4 => 0x4B,
            Key::NP5 => 0x4C,
            Key::NP6 => 0x4D,
            Key::NPPlus => 0x4E,
            Key::NP1 => 0x4F,
            Key::NP2 => 0x50,
            Key::NP3 => 0x51,
            Key::NP0 => 0x52,
            Key::NPDot => 0x53,
            Key::F11 => 0x57,
            Key::F12 => 0x58,
            Key::MMPrevious => 0x59,
            Key::MMNext => 0x5A,
            Key::NPEnter => 0x5B,
            Key::Mute => 0x5C,
            Key::Calculator => 0x5D,
            Key::MMPlay => 0x5E,
            Key::MMStop => 0x5F,
            Key::VolumeDown => 0x60,
            Key::VolumeUp => 0x61,
            Key::Home => 0x62,
            Key::Up => 0x63,
            Key::PageUp => 0x64,
            Key::Left => 0x65,
            Key::Right => 0x66,
            Key::End => 0x67,
            Key::Down => 0x68,
            Key::PageDown => 0x69,
            Key::Insert => 0x6A,
            Key::Delete => 0x6B,
            Key::Menu => 0x6C,
            Key::RCtrl => 0x6D,
            Key::RAlt => 0x6E,
            Key::NPSlash => 0x6F,
            Key::Unknown => 0x70,
        }
    }

    /// The key with the one-byte scancode `val`, or `None` where no key has
    /// that code.
    pub fn from_u8(val: u8) -> (r: Option<Key>)
        ensures
            r is Some <==> (0 < val <= 0x53 || val == 0x57 || val == 0x58),
            r matches Some(key) ==> key.spec_index() == val,
    {
        if val == 0x01 {
            Some(Key::Escape)
        } else if val == 0x02 {
            Some(Key::R1)
        } else if val == 0x03 {
            Some(Key::R2)
        } else if val == 0x04 {
            Some(Key::R3)
        } else if val == 0x05 {
            Some(Key::R4)
        } else if val == 0x06 {
            Some(Key::R5)
        } else if val == 0x07 {
            Some(Key::R6)
        } else if val == 0x08 {
            Some(Key::R7)
        } else if val == 0x09 {
            Some(Key::R8)
        } else if val == 0x0A {
            Some(Key::R9)
        } else if val == 0x0B {
            Some(Key::R0)
        } else if val == 0x0C {
            Some(Key::Minus)
        } else if val == 0x0D {
            Some(Key::Equals)
        } else if val == 0x0E {
            Some(Key::Backspace)
        } else if val == 0x0F {
            Some(Key::Tab)
        } else if val == 0x10 {
            Some(Key::Q)
        } else if val == 0x11 {
            Some(Key::W)
        } else if val == 0x12 {
            Some(Key::E)
        } else if val == 0x13 {
            Some(Key::R)
        } else if val == 0x14 {
            Some(Key::T)
        } else if val == 0x15 {
            Some(Key::Y)
        } else if val == 0x16 {
            Some(Key::U)
        } else if val == 0x17 {
            Some(Key::I)
        } else if val == 0x18 {
            Some(Key::O)
        } else if val == 0x19 {
            Some(Key::P)
        } else if val == 0x1A {
            Some(Key::LeftBracket)
        } else if val == 0x1B {
            Some(Key::RightBracket)
        } else if val == 0x1C {
            Some(Key::Enter)
        } else if val == 0x1D {
            Some(Key::Ctrl)
        } else if val == 0x1E {
            Some(Key::A)
        } else if val == 0x1F {
            Some(Key::S)
        } else if val == 0x20 {
            Some(Key::D)
        } else if val == 0x21 {
            Some(Key::F)
        } else if val == 0x22 {
            Some(Key::G)
        } else if val == 0x23 {
            Some(Key::H)
        } else if val == 0x24 {
            Some(Key::J)
        } else if val == 0x25 {
            Some(Key::K)
        } else if val == 0x26 {
            Some(Key::L)
        } else if val == 0x27 {
            Some(Key::Semicolon)
        } else if val == 0x28 {
            Some(Key::Quote)
        } else if val == 0x29 {
            Some(Key::Tilde)
        } else if val == 0x2A {
            Some(Key::LShift)
        } else if val == 0x2B {
            Some(Key::Backslash)
        } else if val == 0x2C {
            Some(Key::Z)
        } else if val == 0x2D {
            Some(Key::X)
        } else if val == 0x2E {
            Some(Key::C)
        } else if val == 0x2F {
            Some(Key::V)
        } else if val == 0x30 {
            Some(Key::B)
        } else if val == 0x31 {
            Some(Key::N)
        } else if val == 0x32 {
            Some(Key::M)
        } else if val == 0x33 {
            Some(Key::Comma)
        } else if val == 0x34 {
            Some(Key::Dot)
        } else if val == 0x35 {
            Some(Key::Slash)
        } else if val == 0x36 {
            Some(Key::RShift)
        } else if val == 0x37 {
            Some(Key::NPAsterisk)
        } else if val == 0x38 {
            Some(Key::Alt)
        } else if val == 0x39 {
            Some(Key::Space)
        } else if val == 0x3A {
            Some(Key::CapsLock)
        } else if val == 0x3B {
            Some(Key::F1)
        } else if val == 0x3C {
            Some(Key::F2)
        } else if val == 0x3D {
            Some(Key::F3)
        } else if val == 0x3E {
            Some(Key::F4)
        } else if val == 0x3F {
            Some(Key::F5)
        } else if val == 0x40 {
            Some(Key::F6)
        } else if val == 0x41 {
            Some(Key::F7)
        } else if val == 0x42 {
            Some(Key::F8)
        } else if val == 0x43 {
            Some(Key::F9)
        } else if val == 0x44 {
            Some(Key::F10)
        } else if val == 0x45 {
            Some(Key::NumLock)
        } else if val == 0x46 {
            Some(Key::ScrollLock)
        } else if val == 0x47 {
            Some(Key::NP7)
        } else if val == 0x48 {
            Some(Key::NP8)
        } else if val == 0x49 {
            Some(Key::NP9)
        } else if val == 0x4A {
            Some(Key::NPMinus)
        } else if val == 0x4B {
            Some(Key::NP4)
        } else if val == 0x4C {
            Some(Key::NP5)
        } else if val == 0x4D {
            Some(Key::NP6)
        } else if val == 0x4E {
            Some(Key::NPPlus)
        } else if val == 0x4F {
            Some(Key::NP1)
        } else if val == 0x50 {
            Some(Key::NP2)
        } else if val == 0x51 {
            Some(Key::NP3)
        } else if val == 0x52 {
            Some(Key::NP0)
        } else if val == 0x53 {
            Some(Key::NPDot)
        } else if val == 0x57 {
            Some(Key::F11)
        } else if val == 0x58 {
            Some(Key::F12)
        } else {
            None
        }
    }

    /// The key with the scancode `code` behind the prefix 0xE0.
    pub open spec fn spec_from_extended(code: u8) -> Key {
        if code == 0x10 {
            Key::MMPrevious
        } else if code == 0x19 {
            Key::MMNext
        } else if code == 0x1C {
            Key::NPEnter
        } else if code == 0x1D {
            Key::RCtrl
        } else if code == 0x20 {
            Key::Mute
        } else if code == 0x21 {
            Key::Calculator
        } else if code == 0x22 {
            Key::MMPlay
        } else if code == 0x24 {
            Key::MMStop
        } else if code == 0x2E {
            Key::VolumeDown
        } else if code == 0x30 {
            Key::VolumeUp
        } else if code == 0x35 {
            Key::NPSlash
        } else if code == 0x38 {
            Key::RAlt
        } else if code == 0x47 {
            Key::Home
        } else if code == 0x48 {
            Key::Up
        } else if code == 0x49 {
            Key::PageUp
        } else if code == 0x4B {
            Key::Left
        } else if code == 0x4D {
            Key::Right
        } else if code == 0x4F {
            Key::End
        } else if code == 0x50 {
            Key::Down
        } else if code == 0x51 {
            Key::PageDown
        } else if code == 0x52 {
            Key::Insert
        } else if code == 0x53 {
            Key::Delete
        } else if code == 0x5D {
            Key::Menu
        } else {
            Key::Unknown
        }
    }

    /// The key with the scancode `code` behind the prefix 0xE0, or
    /// `Key::Unknown` where no key has that code.
    pub fn from_extended(code: u8) -> (r: Key)
        ensures
            r == Key::spec_from_extended(code),
    {
        if code == 0x10 {
            Key::MMPrevious
        } else if code == 0x19 {
            Key::MMNext
        } else if code == 0x1C {
            Key::NPEnter
        } else if code == 0x1D {
            Key::RCtrl
        } else if code == 0x20 {
            Key::Mute
        } else if code == 0x21 {
            Key::Calculator
        } else if code == 0x22 {
            Key::MMPlay
        } else if code == 0x24 {
            Key::MMStop
        } else if code == 0x2E {
            Key::VolumeDown
        } else if code == 0x30 {
            Key::VolumeUp
        } else if code == 0x35 {
            Key::NPSlash
        } else if code == 0x38 {
            Key::RAlt
        } else if code == 0x47 {
            Key::Home
        } else if code == 0x48 {
            Key::Up
        } else if code == 0x49 {
            Key::PageUp
        } else if code == 0x4B {
            Key::Left
        } else if code == 0x4D {
            Key::Right
        } else if code == 0x4F {
            Key::End
        } else if code == 0x50 {
            Key::Down
        } else if code == 0x51 {
            Key::PageDown
        } else if code == 0x52 {
            Key::Insert
        } else if code == 0x53 {
            Key::Delete
        } else if code == 0x5D {
            Key::Menu
        } else {
            Key::Unknown
        }
    }

    /// The character the key types, if it types one.
    pub open spec fn spec_to_char(&self) -> Option<char> {
        match *self {
            Key::A => Some('a'),
            Key::B => Some('b'),
            Key::C => Some('c'),
            Key::D => Some('d'),
            Key::E => Some('e'),
            Key::F => Some('f'),
            Key::G => Some('g'),
            Key::H => Some('h'),
            Key::I => Some('i'),
            Key::J => Some('j'),
            Key::K => Some('k'),
            Key::L => Some('l'),
            Key::M => Some('m'),
            Key::N => Some('n'),
            Key::O => Some('o'),
            Key::P => Some('p'),
            Key::Q => Some('q'),
            Key::R => Some('r'),
            Key::S => Some('s'),
            Key::T => Some('t'),
            Key::U => Some('u'),
            Key::V => Some('v'),
            Key::W => Some('w'),
            Key::X => Some('x'),
            Key::Y => Some('y'),
            Key::Z => Some('z'),
            Key::R1 => Some('1'),
            Key::NP1 => Some('1'),
            Key::R2 => Some('2'),
            Key::NP2 => Some('2'),
            Key::R3 => Some('3'),
            Key::NP3 => Some('3'),
            Key::R4 => Some('4'),
            Key::NP4 => Some('4'),
            Key::R5 => Some('5'),
            Key::NP5 => Some('5'),
            Key::R6 => Some('6'),
            Key::NP6 => Some('6'),
            Key::R7 => Some('7'),
            Key::NP7 => Some('7'),
            Key::R8 => Some('8'),
            Key::NP8 => Some('8'),
            Key::R9 => Some('9'),
            Key::NP9 => Some('9'),
            Key::R0 => Some('0'),
            Key::NP0 => Some('0'),
            Key::Comma => Some(','),
            Key::Dot => Some('.'),
            Key::NPDot => Some('.'),
            Key::Equals => Some('='),
            Key::NPPlus => Some('+'),
            Key::Minus => Some('-'),
            Key::NPMinus => Some('-'),
            Key::Slash => Some('/'),
            Key::Quote => Some('\''),
            Key::LeftBracket => Some('['),
            Key::RightBracket => Some(']'),
            Key::Backslash => Some('\\'),
            Key::NPAsterisk => Some('*'),
            Key::Tilde => Some('`'),
            Key::Space => Some(' '),
            Key::Enter => Some('\n'),
            Key::Tab => Some('\t'),
            Key::Semicolon => Some(';'),
            _ => None,
        }
    }

    /// The character the key types, if it types one.
    #[verifier::when_used_as_spec(spec_to_char)]
    pub fn to_char(&self) -> (r: Option<char>)
        ensures
            r == self.spec_to_char(),
    {
        match *self {
            Key::A => Some('a'),
            Key::B => Some('b'),
            Key::C => Some('c'),
            Key::D => Some('d'),
            Key::E => Some('e'),
            Key::F => Some('f'),
            Key::G => Some('g'),
            Key::H => Some('h'),
            Key::I => Some('i'),
            Key::J => Some('j'),
            Key::K => Some('k'),
            Key::L => Some('l'),
            Key::M => Some('m'),
            Key::N => Some('n'),
            Key::O => Some('o'),
            Key::P => Some('p'),
            Key::Q => Some('q'),
            Key::R => Some('r'),
            Key::S => Some('s'),
            Key::T => Some('t'),
            Key::U => Some('u'),
            Key::V => Some('v'),
            Key::W => Some('w'),
            Key::X => Some('x'),
            Key::Y => Some('y'),
            Key::Z => Some('z'),
            Key::R1 => Some('1'),
            Key::NP1 => Some('1'),
            Key::R2 => Some('2'),
            Key::NP2 => Some('2'),
            Key::R3 => Some('3'),
            Key::NP3 => Some('3'),
            Key::R4 => Some('4'),
            Key::NP4 => Some('4'),
            Key::R5 => Some('5'),
            Key::NP5 => Some('5'),
            Key::R6 => Some('6'),
            Key::NP6 => Some('6'),
            Key::R7 => Some('7'),
            Key::NP7 => Some('7'),
            Key::R8 => Some('8'),
            Key::NP8 => Some('8'),
            Key::R9 => Some('9'),
            Key::NP9 => Some('9'),
            Key::R0 => Some('0'),
            Key::NP0 => Some('0'),
            Key::Comma => Some(','),
            Key::Dot => Some('.'),
            Key::NPDot => Some('.'),
            Key::Equals => Some('='),
            Key::NPPlus => Some('+'),
            Key::Minus => Some('-'),
            Key::NPMinus => Some('-'),
            Key::Slash => Some('/'),
            Key::Quote => Some('\''),
            Key::LeftBracket => Some('['),
            Key::RightBracket => Some(']'),
            Key::Backslash => Some('\\'),
            Key::NPAsterisk => Some('*'),
            Key::Tilde => Some('`'),
            Key::Space => Some(' '),
            Key::Enter => Some('\n'),
            Key::Tab => Some('\t'),
            Key::Semicolon => Some(';'),
            _ => None,
        }
    }

    /// The character the key types while shift is held, if it types one.
    pub open spec fn spec_to_shifted_char(&self) -> Option<char> {
        match *self {
            Key::A => Some('A'),
            Key::B => Some('B'),
            Key::C => Some('C'),
            Key::D => Some('D'),
            Key::E => Some('E'),
            Key::F => Some('F'),
            Key::G => Some('G'),
            Key::H => Some('H'),
            Key::I => Some('I'),
            Key::J => Some('J'),
            Key::K => Some('K'),
            Key::L => Some('L'),
            Key::M => Some('M'),
            Key::N => Some('N'),
            Key::O => Some('O'),
            Key::P => Some('P'),
            Key::Q => Some('Q'),
            Key::R => Some('R'),
            Key::S => Some('S'),
            Key::T => Some('T'),
            Key::U => Some('U'),
            Key::V => Some('V'),
            Key::W => Some('W'),
            Key::X => Some('X'),
            Key::Y => Some('Y'),
            Key::Z => Some('Z'),
            Key::R1 => Some('!'),
            Key::R2 => Some('@'),
            Key::R3 => Some('#'),
            Key::R4 => Some('$'),
            Key::R5 => Some('%'),
            Key::R6 => Some('^'),
            Key::R7 => Some('&'),
            Key::R8 => Some('*'),
            Key::R9 => Some('('),
            Key::R0 => Some(')'),
            Key::Comma => Some('<'),
            Key::Dot => Some('>'),
            Key::Equals => Some('+'),
            Key::Minus => Some('_'),
            Key::Slash => Some('?'),
            Key::Quote => Some('"'),
            Key::LeftBracket => Some('{'),
            Key::RightBracket => Some('}'),
            Key::Backslash => Some('|'),
            Key::Tilde => Some('~'),
            Key::Space => Some(' '),
            Key::Enter => Some('\n'),
            Key::Semicolon => Some(':'),
            _ => None,
        }
    }

    /// The character the key types while shift is held, if it types one.
    #[verifier::when_used_as_spec(spec_to_shifted_char)]
    pub fn to_shifted_char(&self) -> (r: Option<char>)
        ensures
            r == self.spec_to_shifted_char(),
    {
        match *self {
            Key::A => Some('A'),
            Key::B => Some('B'),
            Key::C => Some('C'),
            Key::D => Some('D'),
            Key::E => Some('E'),
            Key::F => Some('F'),
            Key::G => Some('G'),
            Key::H => Some('H'),
            Key::I => Some('I'),
            Key::J => Some('J'),
            Key::K => Some('K'),
            Key::L => Some('L'),
            Key::M => Some('M'),
            Key::N => Some('N'),
            Key::O => Some('O'),
            Key::P => Some('P'),
            Key::Q => Some('Q'),
            Key::R => Some('R'),
            Key::S => Some('S'),
            Key::T => Some('T'),
            Key::U => Some('U'),
            Key::V => Some('V'),
            Key::W => Some('W'),
            Key::X => Some('X'),
            Key::Y => Some('Y'),
            Key::Z => Some('Z'),
            Key::R1 => Some('!'),
            Key::R2 => Some('@'),
            Key::R3 => Some('#'),
            Key::R4 => Some('$'),
            Key::R5 => Some('%'),
            Key::R6 => Some('^'),
            Key::R7 => Some('&'),
            Key::R8 => Some('*'),
            Key::R9 => Some('('),
            Key::R0 => Some(')'),
            Key::Comma => Some('<'),
            Key::Dot => Some('>'),
            Key::Equals => Some('+'),
            Key::Minus => Some('_'),
            Key::Slash => Some('?'),
            Key::Quote => Some('"'),
            Key::LeftBracket => Some('{'),
            Key::RightBracket => Some('}'),
            Key::Backslash => Some('|'),
            Key::Tilde => Some('~'),
            Key::Space => Some(' '),
            Key::Enter => Some('\n'),
            Key::Semicolon => Some(':'),
            _ => None,
        }
    }

}
/// What the handlers of a key event are told: the key.
#[derive(Clone, Copy, Debug, PartialEq, Eq, Structural)]
pub struct KeyArgs(pub Key);

/// The code and the direction in a scancode byte: a key that is released
/// sends its code plus 0x80.
pub open spec fn spec_get_state(scancode: u8) -> (u8, bool) {
    if scancode > 0x80 {
        ((scancode - 0x80) as u8, false)
    } else {
        (scancode, true)
    }
}

/// The code in a scancode byte, and whether the key went down.
pub fn get_state(scancode: u8) -> (r: (u8, bool))
    ensures
        r == spec_get_state(scancode),
{
    if scancode > 0x80 {
        return (scancode - 0x80, false);
    }
    (scancode, true)
}

/// The byte of the table that holds the key's bit, and the bit's place.
pub fn get_pos(key: Key) -> (r: (usize, u8))
    ensures
        r.0 == key.spec_index() / 8,
        r.1 == key.spec_index() % 8,
        r.0 < KEY_BYTES,
{
    let k = key.index();
    (k / 8, (k % 8) as u8)
}

/// Writing one bit of a byte changes that bit and no other.
pub proof fn lemma_key_bit(w: u8, b: u8, v: u8, c: u8)
    by (bit_vector)
    requires
        b < 8,
        c < 8,
        v <= 1,
    ensures
        (((w & !(1u8 << b) | (v << b)) >> b) & 1 == 1) == (v == 1),
        c != b ==> (((w & !(1u8 << b) | (v << b)) >> c) & 1 == 1) == ((w >> c) & 1 == 1),
{
}

/// The keyboard's state: the keys held down, caps lock, whether the first
/// byte of a two-byte scancode has just been seen, and the handlers of key
/// events. `H` is what is kept for a handler.
pub struct Keyboard<H> {
    /// One bit for every key, set while the key is held down.
    pub keys: Vec<u8>,
    pub caps_lock: bool,
    /// Set when the byte before was the prefix 0xE0.
    pub prev_extended: bool,
    pub on_key_down: Event<H>,
    pub on_key_up: Event<H>,
}

/// What the keyboard's interrupt leaves for the caller to do: the handlers
/// to call with the key, if the bytes made a key event.
pub struct KeyOutcome<H> {
    /// The key and whether it went down.
    pub event: Option<(Key, bool)>,
    /// The handlers to call with the key, in the order of their tokens.
    pub handlers: Vec<H>,
}

/// Whether `event` is what the bytes `scancode` and `second` mean. Behind
/// the prefix 0xE0 the second byte names the key. A byte that follows a
/// two-byte scancode repeats what was read and means nothing. Any other
/// byte names a key by its code, or means nothing if no key has the code.
pub open spec fn is_key_event(
    prev_extended: bool,
    scancode: u8,
    second: u8,
    event: Option<(Key, bool)>,
) -> bool {
    if scancode == EXTENDED {
        event == Some((Key::spec_from_extended(spec_get_state(second).0), spec_get_state(second).1))
    } else if prev_extended {
        event is None
    } else {
        let code = spec_get_state(scancode).0;
        if 0 < code <= 0x53 || code == 0x57 || code == 0x58 {
            event matches Some((key, pressed)) && key.spec_index() == code && pressed
                == spec_get_state(scancode).1
        } else {
            event is None
        }
    }
}

impl<H: Copy> Keyboard<H> {
    /// The table has a bit for every key.
    pub open spec fn wf(&self) -> bool {
        self.keys.len() == KEY_BYTES
    }

    /// Whether `key` is held down.
    pub open spec fn pressed(&self, key: Key) -> bool {
        (self.keys[key.spec_index() as int / 8] >> ((key.spec_index() % 8) as u8)) & 1 == 1
    }

    /// A keyboard with no key held down, caps lock off and no handler.
    pub fn new() -> (r: Keyboard<H>)
        ensures
            r.wf(),
            forall|key: Key| !r.pressed(key),
            !r.caps_lock,
            !r.prev_extended,
            r.on_key_down.subscriptions() == Map::<usize, H>::empty(),
            r.on_key_up.subscriptions() == Map::<usize, H>::empty(),
    {
        let mut keys: Vec<u8> = Vec::new();
        let mut i: usize = 0;
        while i < KEY_BYTES
            invariant
                i <= KEY_BYTES,
                keys.len() == i,
                forall|k: int| 0 <= k < i ==> keys[k] == 0,
            decreases KEY_BYTES - i,
        {
            keys.push(0);
            i += 1;
        }
        let r = Keyboard {
            keys,
            caps_lock: false,
            prev_extended: false,
            on_key_down: Event::new(),
            on_key_up: Event::new(),
        };
        proof {
            assert forall|key: Key| !r.pressed(key) by {
                let b = (key.spec_index() % 8) as u8;
                assert((0u8 >> b) & 1 == 0) by (bit_vector)
                    requires
                        b < 8,
                ;
            }
        }
        r
    }
}

/// Whether `key` is held down.
pub fn is_key_pressed<H: Copy>(keyboard: &Keyboard<H>, key: Key) -> (r: bool)
    requires
        keyboard.wf(),
    ensures
        r == keyboard.pressed(key),
{
    let (index, bit) = get_pos(key);
    ((keyboard.keys[index] >> bit) & 1) == 1
}

/// Notes that `key` is held down, or that it is not, and leaves every
/// other key as it was.
pub fn set_key<H: Copy>(keyboard: &mut Keyboard<H>, key: Key, pressed: bool)
    requires
        old(keyboard).wf(),
    ensures
        final(keyboard).wf(),
        forall|other: Key|
            final(keyboard).pressed(other) == if other == key {
                pressed
            } else {
                old(keyboard).pressed(other)
            },
        final(keyboard).caps_lock == old(keyboard).caps_lock,
        final(keyboard).prev_extended == old(keyboard).prev_extended,
        final(keyboard).on_key_down == old(keyboard).on_key_down,
        final(keyboard).on_key_up == old(keyboard).on_key_up,
{
    let (index, bit) = get_pos(key);
    let v: u8 = if pressed {
        1
    } else {
        0
    };
    let word = keyboard.keys[index];
    keyboard.keys[index] = word & !(1u8 << bit) | (v << bit);
    proof {
        assert forall|other: Key|
            keyboard.pressed(other) == if other == key {
                pressed
            } else {
                old(keyboard).pressed(other)
            } by {
            let c = (other.spec_index() % 8) as u8;
            lemma_key_bit(word, bit, v, c);
            lemma_index_injective(key, other);
        }
    }
}

/// No two keys have the same number.
pub proof fn lemma_index_injective(a: Key, b: Key)
    ensures
        a.spec_index() == b.spec_index() ==> a == b,
{
}

/// Whether caps lock is on. The caller masks the keyboard's line for the
/// time of the call.
pub fn is_caps_lock_active<H: Copy>(keyboard: &Keyboard<H>) -> (r: bool)
    ensures
        r == keyboard.caps_lock,
{
    keyboard.caps_lock
}

/// Installs the keyboard's handler at `handler` on line 1 of the interrupt
/// controller, as a 32-bit interrupt gate of privilege level 0.
pub fn init(table: &mut InterruptTable, handler: u32)
    requires
        old(table).wf(),
    ensures
        final(table).wf(),
        final(table).selector() == old(table).selector(),
        final(table)@ == old(table)@.update(
            IRQ_OFFSET + 1,
            gate(handler, GateType::DInterrupt, 0, old(table).selector()),
        ),
{
    table.install(IRQ_OFFSET + 1, handler, 0, GateType::DInterrupt);
}

/// The keyboard's interrupt. `scancode` is the byte read from the
/// keyboard, and `second` the byte read after it where `scancode` is the
/// prefix 0xE0. Where the bytes mean a key event, the key is noted as held
/// down or not, caps lock is switched when the caps lock key is released,
/// and the handlers of the event are handed back to be called. The caller
/// signals the end of the interrupt of line 1.
pub fn on_key<H: Copy>(keyboard: &mut Keyboard<H>, scancode: u8, second: u8) -> (r: KeyOutcome<H>)
    requires
        old(keyboard).wf(),
    ensures
        final(keyboard).wf(),
        is_key_event(old(keyboard).prev_extended, scancode, second, r.event),
        final(keyboard).prev_extended == (scancode == EXTENDED),
        final(keyboard).on_key_down == old(keyboard).on_key_down,
        final(keyboard).on_key_up == old(keyboard).on_key_up,
        match r.event {
            Some((key, pressed)) => {
                &&& forall|other: Key|
                    final(keyboard).pressed(other) == if other == key {
                        pressed
                    } else {
                        old(keyboard).pressed(other)
                    }
                &&& final(keyboard).caps_lock == if !pressed && key == Key::CapsLock {
                    !old(keyboard).caps_lock
                } else {
                    old(keyboard).caps_lock
                }
                &&& in_token_order(
                    if pressed {
                        old(keyboard).on_key_down.subscriptions()
                    } else {
                        old(keyboard).on_key_up.subscriptions()
                    },
                    r.handlers@,
                )
            },
            None => {
                &&& final(keyboard).keys == old(keyboard).keys
                &&& final(keyboard).caps_lock == old(keyboard).caps_lock
                &&& r.handlers@ == Seq::<H>::empty()
            },
        },
{
    let pressed: bool;
    let key: Key;
    if scancode == EXTENDED {
        let (code, down) = get_state(second);
        pressed = down;
        key = Key::from_extended(code);
        keyboard.prev_extended = true;
    } else {
        if keyboard.prev_extended {
            keyboard.prev_extended = false;
            return KeyOutcome { event: None, handlers: Vec::new() };
        }
        let (code, down) = get_state(scancode);
        pressed = down;
        match Key::from_u8(code) {
            Some(found) => {
                key = found;
            },
            None => {
                return KeyOutcome { event: None, handlers: Vec::new() };
            },
        }
    }
    set_key(keyboard, key, pressed);
    let ghost noted = *keyboard;
    let handlers = if pressed {
        keyboard.on_key_down.invoke()
    } else {
        if key == Key::CapsLock {
            keyboard.caps_lock = !keyboard.caps_lock;
        }
        keyboard.on_key_up.invoke()
    };
    proof {
        assert forall|other: Key|
            keyboard.pressed(other) == if other == key {
                pressed
            } else {
                old(keyboard).pressed(other)
            } by {
            assert(keyboard.pressed(other) == noted.pressed(other));
        }
    }
    KeyOutcome { event: Some((key, pressed)), handlers }
}

} // verus!
