//! The text screen: colours, the cells of the screen behind volatile
//! access, and the console that writes to them.

use vstd::prelude::*;
use vstd::string::StringSliceAdditionalSpecFns;
use crate::interrupts::InterruptState;
use crate::io::{Clear, PortWrite, Read, Seek, Write};

verus! {

/// A colour of the text screen.
#[derive(Clone, Copy, Debug, PartialEq, Eq, Structural)]
pub enum Color {
    Black,
    Blue,
    Green,
    Cyan,
    Red,
    Magenta,
    Brown,
    LightGray,
    Gray,
    LightBlue,
    LightGreen,
    LightCyan,
    LightRed,
    Pink,
    Yellow,
    White,
}

impl Color {
    /// The number of the colour, 0 to 15.
    pub open spec fn spec_code(self) -> u8 {
        match self {
            Color::Black => 0x0,
            Color::Blue => 0x1,
            Color::Green => 0x2,
            Color::Cyan => 0x3,
            Color::Red => 0x4,
            Color::Magenta => 0x5,
            Color::Brown => 0x6,
            Color::LightGray => 0x7,
            Color::Gray => 0x8,
            Color::LightBlue => 0x9,
            Color::LightGreen => 0xA,
            Color::LightCyan => 0xB,
            Color::LightRed => 0xC,
            Color::Pink => 0xD,
            Color::Yellow => 0xE,
            Color::White => 0xF,
        }
    }

    /// The number of the colour, 0 to 15.
    #[verifier::when_used_as_spec(spec_code)]
    pub fn code(self) -> (r: u8)
        ensures
            r == self.spec_code(),
            r < 16,
    {
        match self {
            Color::Black => 0x0,
            Color::Blue => 0x1,
            Color::Green => 0x2,
            Color::Cyan => 0x3,
            Color::Red => 0x4,
            Color::Magenta => 0x5,
            Color::Brown => 0x6,
            Color::LightGray => 0x7,
            Color::Gray => 0x8,
            Color::LightBlue => 0x9,
            Color::LightGreen => 0xA,
            Color::LightCyan => 0xB,
            Color::LightRed => 0xC,
            Color::Pink => 0xD,
            Color::Yellow => 0xE,
            Color::White => 0xF,
        }
    }
}

/// The colours of a cell: the background in the high four bits, the
/// foreground in the low four.
#[derive(Clone, Copy, Debug, PartialEq, Eq, Structural)]
pub struct ColorCode(pub u8);

impl ColorCode {
    /// The byte for `foreground` on `background`.
    pub fn new(foreground: Color, background: Color) -> (r: ColorCode)
        ensures
            r.0 == background.spec_code() * 16 + foreground.spec_code(),
    {
        ColorCode(background.code() * 16 + foreground.code())
    }
}

/// A cell of the screen: a character and its colours.
#[derive(Clone, Copy, Debug, PartialEq, Eq, Structural)]
pub struct Char {
    pub byte: u8,
    pub color: ColorCode,
}

/// Cells in a row of the screen.
pub const VGA_BUFFER_WIDTH: usize = 80;

/// Rows of the screen.
pub const VGA_BUFFER_HEIGHT: usize = 15;

/// Cells of the screen.
pub const VGA_BUFFER_SIZE: usize = 1200;

/// What a cell of the screen holds: the word that a volatile read of it
/// returns, which is the word last written to it.
pub uninterp spec fn held(cell: volatile::Volatile<u16>) -> u16;

/// The wrapper type of the `volatile` crate around a value that is read
/// and written with volatile access.
#[verifier::external_type_specification]
#[verifier::external_body]
#[verifier::reject_recursive_types(T)]
pub struct ExVolatile<T: Copy>(volatile::Volatile<T>);

/// Makes a cell through `volatile::Volatile::new`, which wraps the value
/// given: the cell holds `value`.
#[verifier::external_body]
fn cell_new(value: u16) -> (r: volatile::Volatile<u16>)
    ensures
        held(r) == value,
{
    volatile::Volatile::new(value)
}

/// Reads a cell through `volatile::Volatile::read`, which returns a copy
/// of the wrapped value.
#[verifier::external_body]
fn cell_read(cell: &volatile::Volatile<u16>) -> (r: u16)
    ensures
        r == held(*cell),
{
    cell.read()
}

/// Writes a cell through `volatile::Volatile::write`, which sets the
/// wrapped value to the value given.
#[verifier::external_body]
fn cell_write(cell: &mut volatile::Volatile<u16>, value: u16)
    ensures
        held(*final(cell)) == value,
{
    cell.write(value)
}

/// The word of a cell: the character in the low byte, the colours in the
/// high byte.
pub open spec fn cell_word(c: Char) -> u16 {
    (c.byte + c.color.0 * 0x100) as u16
}

/// The cell that a word stands for.
pub open spec fn word_cell(w: u16) -> Char {
    Char { byte: (w % 0x100) as u8, color: ColorCode((w / 0x100) as u8) }
}

/// A blank in the colours `color`.
pub open spec fn blank(color: ColorCode) -> Char {
    Char { byte: 0x20, color }
}

/// A screen of blanks in the colours `color`.
pub open spec fn blank_screen(color: ColorCode) -> Seq<Char> {
    Seq::new(VGA_BUFFER_SIZE as nat, |i: int| blank(color))
}

/// The cells of the screen, row by row.
pub struct Buffer {
    buffer: Vec<volatile::Volatile<u16>>,
}

/// The screen after its rows have moved up by one and the last row has
/// been blanked in the colours `color`.
pub open spec fn scrolled(cells: Seq<Char>, color: ColorCode) -> Seq<Char> {
    Seq::new(
        VGA_BUFFER_SIZE as nat,
        |i: int|
            if i < VGA_BUFFER_SIZE - VGA_BUFFER_WIDTH {
                cells[i + VGA_BUFFER_WIDTH]
            } else {
                blank(color)
            },
    )
}

impl View for Buffer {
    type V = Seq<Char>;

    closed spec fn view(&self) -> Seq<Char> {
        Seq::new(self.buffer.len() as nat, |i: int| word_cell(held(self.buffer[i])))
    }
}

impl Buffer {
    /// The buffer has a cell for every place of the screen.
    pub closed spec fn wf(&self) -> bool {
        self.buffer.len() == VGA_BUFFER_SIZE
    }

    /// A screen of blanks in the colours `color`.
    pub fn new(color: ColorCode) -> (r: Buffer)
        ensures
            r.wf(),
            r@ == blank_screen(color),
    {
        let mut buffer: Vec<volatile::Volatile<u16>> = Vec::new();
        let word: u16 = 0x20 + color.0 as u16 * 0x100;
        let mut i: usize = 0;
        while i < VGA_BUFFER_SIZE
            invariant
                i <= VGA_BUFFER_SIZE,
                buffer.len() == i,
                word == cell_word(blank(color)),
                forall|k: int| 0 <= k < i ==> held(#[trigger] buffer[k]) == word,
            decreases VGA_BUFFER_SIZE - i,
        {
            buffer.push(cell_new(word));
            i += 1;
        }
        let r = Buffer { buffer };
        proof {
            assert(r@ =~= blank_screen(color));
        }
        r
    }

    /// The cell at `pos`.
    pub fn get(&self, pos: usize) -> (r: Char)
        requires
            self.wf(),
            pos < VGA_BUFFER_SIZE,
        ensures
            r == self@[pos as int],
    {
        let word = cell_read(&self.buffer[pos]);
        Char { byte: (word % 0x100) as u8, color: ColorCode((word / 0x100) as u8) }
    }

    /// Puts `cell` at `pos` and leaves every other cell as it was.
    pub fn set(&mut self, pos: usize, cell: Char)
        requires
            old(self).wf(),
            pos < VGA_BUFFER_SIZE,
        ensures
            final(self).wf(),
            final(self)@ == old(self)@.update(pos as int, cell),
    {
        let word: u16 = cell.byte as u16 + cell.color.0 as u16 * 0x100;
        cell_write(&mut self.buffer[pos], word);
        proof {
            assert(self@ =~= old(self)@.update(pos as int, cell));
        }
    }

    /// Moves every row up by one, blanks the last row in the colours
    /// `color`, and moves the cursor `ptr` up with its row.
    pub fn scroll_down(&mut self, ptr: &mut usize, color: ColorCode)
        requires
            old(self).wf(),
            *old(ptr) >= VGA_BUFFER_WIDTH,
        ensures
            final(self).wf(),
            final(self)@ == scrolled(old(self)@, color),
            *final(ptr) == *old(ptr) - VGA_BUFFER_WIDTH,
    {
        let mut i: usize = 0;
        while i < VGA_BUFFER_SIZE - VGA_BUFFER_WIDTH
            invariant
                i <= VGA_BUFFER_SIZE - VGA_BUFFER_WIDTH,
                self.wf(),
                forall|k: int| 0 <= k < i ==> self@[k] == old(self)@[k + VGA_BUFFER_WIDTH],
                forall|k: int| i <= k < VGA_BUFFER_SIZE ==> self@[k] == old(self)@[k],
            decreases VGA_BUFFER_SIZE - VGA_BUFFER_WIDTH - i,
        {
            let cell = self.get(i + VGA_BUFFER_WIDTH);
            self.set(i, cell);
            i += 1;
        }
        let mut col: usize = 0;
        while col < VGA_BUFFER_WIDTH
            invariant
                col <= VGA_BUFFER_WIDTH,
                self.wf(),
                forall|k: int|
                    0 <= k < VGA_BUFFER_SIZE - VGA_BUFFER_WIDTH ==> self@[k] == old(self)@[k
                        + VGA_BUFFER_WIDTH],
                forall|k: int|
                    VGA_BUFFER_SIZE - VGA_BUFFER_WIDTH <= k < VGA_BUFFER_SIZE - VGA_BUFFER_WIDTH + col
                        ==> self@[k] == blank(color),
            decreases VGA_BUFFER_WIDTH - col,
        {
            self.set(VGA_BUFFER_SIZE - VGA_BUFFER_WIDTH + col, Char { byte: 0x20, color });
            col += 1;
        }
        *ptr = *ptr - VGA_BUFFER_WIDTH;
        proof {
            assert(self@ =~= scrolled(old(self)@, color));
        }
    }
}

/// The screen and the cursor on it.
pub struct Screen {
    pub cells: Seq<Char>,
    pub ptr: int,
}

/// The screen after `byte` has been put at the cursor in the colours
/// `color`: a cursor behind the last cell scrolls the screen first, and
/// the cursor moves on by one.
pub open spec fn put(s: Screen, byte: u8, color: ColorCode) -> Screen {
    if s.ptr >= VGA_BUFFER_SIZE {
        Screen {
            cells: scrolled(s.cells, color).update(
                s.ptr - VGA_BUFFER_WIDTH,
                Char { byte, color },
            ),
            ptr: s.ptr - VGA_BUFFER_WIDTH + 1,
        }
    } else {
        Screen { cells: s.cells.update(s.ptr, Char { byte, color }), ptr: s.ptr + 1 }
    }
}

/// The screen after the bytes have been put one after the other.
pub open spec fn put_all(s: Screen, bytes: Seq<u8>, color: ColorCode) -> Screen
    decreases bytes.len(),
{
    if bytes.len() == 0 {
        s
    } else {
        put(put_all(s, bytes.drop_last(), color), bytes.last(), color)
    }
}

/// The screen with the cursor at the start of the next row. A cursor
/// behind the last cell scrolls the screen first.
pub open spec fn line_fed(s: Screen, color: ColorCode) -> Screen {
    if s.ptr >= VGA_BUFFER_SIZE {
        Screen {
            cells: scrolled(s.cells, color),
            ptr: VGA_BUFFER_WIDTH * ((s.ptr - VGA_BUFFER_WIDTH) / VGA_BUFFER_WIDTH as int + 1),
        }
    } else {
        Screen { cells: s.cells, ptr: VGA_BUFFER_WIDTH * (s.ptr / VGA_BUFFER_WIDTH as int + 1) }
    }
}

/// The screen after one byte of text has been written: a printable
/// character is put, a line feed moves the cursor to the next row, a tab
/// puts four blanks, and anything else puts a question mark.
pub open spec fn typed(s: Screen, byte: u8, color: ColorCode) -> Screen {
    if 0x20 <= byte <= 0x7E {
        put(s, byte, color)
    } else if byte == 0x0A {
        line_fed(s, color)
    } else if byte == 0x09 {
        put(put(put(put(s, 0x20, color), 0x20, color), 0x20, color), 0x20, color)
    } else {
        put(s, 0x3F, color)
    }
}

/// The screen after the bytes of a text have been written.
pub open spec fn typed_all(s: Screen, bytes: Seq<u8>, color: ColorCode) -> Screen
    decreases bytes.len(),
{
    if bytes.len() == 0 {
        s
    } else {
        typed(typed_all(s, bytes.drop_last(), color), bytes.last(), color)
    }
}

impl Buffer {
    /// Puts `byte` at the cursor `ptr` in the colours `color` and moves the
    /// cursor on by one. A cursor behind the last cell scrolls the screen
    /// first; it must not be further behind than one row.
    pub fn write(&mut self, ptr: &mut usize, byte: u8, color: ColorCode)
        requires
            old(self).wf(),
            *old(ptr) < VGA_BUFFER_SIZE + VGA_BUFFER_WIDTH,
        ensures
            final(self).wf(),
            (Screen { cells: final(self)@, ptr: *final(ptr) as int }) == put(
                Screen { cells: old(self)@, ptr: *old(ptr) as int },
                byte,
                color,
            ),
            *final(ptr) <= VGA_BUFFER_SIZE,
    {
        if *ptr >= VGA_BUFFER_SIZE {
            self.scroll_down(ptr, color);
        }
        self.set(*ptr, Char { byte, color });
        *ptr = *ptr + 1;
    }
}

/// The console: the screen, the cursor on it, the colours it writes in,
/// and the place at which the hardware cursor was last put.
pub struct Console {
    ptr: usize,
    buffer: Buffer,
    color: ColorCode,
    shown: usize,
}

/// Index port of the screen's controller.
pub const CURSOR_INDEX_PORT: u16 = 0x3D4;

/// Data port of the screen's controller.
pub const CURSOR_DATA_PORT: u16 = 0x3D5;

/// The writes that put the hardware cursor at `pos`: the high byte of the
/// position, then the low byte.
pub open spec fn cursor_sequence(pos: usize) -> Seq<PortWrite> {
    seq![
        PortWrite { port: CURSOR_INDEX_PORT, value: 0x0E },
        PortWrite { port: CURSOR_DATA_PORT, value: (pos / 0x100 % 0x100) as u8 },
        PortWrite { port: CURSOR_INDEX_PORT, value: 0x0F },
        PortWrite { port: CURSOR_DATA_PORT, value: (pos % 0x100) as u8 },
    ]
}

impl Console {
    /// The buffer has a cell for every place of the screen.
    pub closed spec fn intact(&self) -> bool {
        self.buffer.wf()
    }

    /// The buffer is whole and the cursor is on the screen or just behind
    /// its last cell.
    pub open spec fn wf(&self) -> bool {
        &&& self.intact()
        &&& self.screen().cells.len() == VGA_BUFFER_SIZE
        &&& 0 <= self.screen().ptr <= VGA_BUFFER_SIZE
    }

    /// The screen and the cursor.
    pub closed spec fn screen(&self) -> Screen {
        Screen { cells: self.buffer@, ptr: self.ptr as int }
    }

    /// The colours the console writes in.
    pub closed spec fn colors(&self) -> ColorCode {
        self.color
    }

    /// Where the hardware cursor was last put.
    pub closed spec fn shown(&self) -> usize {
        self.shown
    }

    /// A console over a blank screen, white on black, with the cursor at
    /// the first cell.
    pub fn new() -> (r: Console)
        ensures
            r.wf(),
            r.colors() == ColorCode(0x0F),
            r.screen() == (Screen { cells: blank_screen(ColorCode(0x0F)), ptr: 0 }),
            r.shown() == 0,
    {
        let color = ColorCode::new(Color::White, Color::Black);
        Console { ptr: 0, buffer: Buffer::new(color), color, shown: 0 }
    }

    /// Sets the colours the console writes in.
    pub fn set_color(&mut self, color: ColorCode)
        ensures
            final(self).colors() == color,
            final(self).screen() == old(self).screen(),
            final(self).shown() == old(self).shown(),
            final(self).wf() == old(self).wf(),
    {
        self.color = color;
    }

    /// The colours the console writes in.
    pub fn get_color(&self) -> (r: ColorCode)
        ensures
            r == self.colors(),
    {
        self.color
    }

    /// Puts the hardware cursor where the cursor is.
    pub fn update_cursor(&mut self)
        ensures
            final(self).shown() == old(self).screen().ptr,
            final(self).screen() == old(self).screen(),
            final(self).colors() == old(self).colors(),
            final(self).wf() == old(self).wf(),
    {
        self.shown = self.ptr;
    }

    /// The writes that put the hardware cursor where it was last put.
    pub fn cursor_commands(&self) -> (r: Vec<PortWrite>)
        ensures
            r@ == cursor_sequence(self.shown()),
    {
        let mut out: Vec<PortWrite> = Vec::new();
        out.push(PortWrite { port: CURSOR_INDEX_PORT, value: 0x0E });
        out.push(PortWrite { port: CURSOR_DATA_PORT, value: (self.shown / 0x100 % 0x100) as u8 });
        out.push(PortWrite { port: CURSOR_INDEX_PORT, value: 0x0F });
        out.push(PortWrite { port: CURSOR_DATA_PORT, value: (self.shown % 0x100) as u8 });
        proof {
            assert(out@ =~= cursor_sequence(self.shown()));
        }
        out
    }

    /// Moves the cursor to `value` and leaves the hardware cursor where it
    /// is.
    pub fn seek_raw(&mut self, value: usize)
        ensures
            final(self).screen() == (Screen { cells: old(self).screen().cells, ptr: value as int }),
            final(self).colors() == old(self).colors(),
            final(self).shown() == old(self).shown(),
            old(self).wf() && value <= VGA_BUFFER_SIZE ==> final(self).wf(),
    {
        self.ptr = value;
    }

    /// Moves the cursor to the start of the next row and leaves the
    /// hardware cursor where it is. A cursor behind the last cell scrolls
    /// the screen first.
    pub fn newline_raw(&mut self)
        requires
            old(self).wf(),
        ensures
            final(self).wf(),
            final(self).screen() == line_fed(old(self).screen(), old(self).colors()),
            final(self).colors() == old(self).colors(),
            final(self).shown() == old(self).shown(),
    {
        if self.ptr >= VGA_BUFFER_SIZE {
            self.buffer.scroll_down(&mut self.ptr, self.color);
        }
        self.ptr = VGA_BUFFER_WIDTH * (self.ptr / VGA_BUFFER_WIDTH + 1);
    }

    /// Moves the cursor to the start of the next row, and the hardware
    /// cursor with it.
    pub fn newline(&mut self)
        requires
            old(self).wf(),
        ensures
            final(self).wf(),
            final(self).screen() == line_fed(old(self).screen(), old(self).colors()),
            final(self).colors() == old(self).colors(),
            final(self).shown() == final(self).screen().ptr,
    {
        self.newline_raw();
        self.update_cursor();
    }

    /// The cell at `pos`.
    pub fn read_at(&self, pos: usize) -> (r: Char)
        requires
            self.wf(),
            pos < VGA_BUFFER_SIZE,
        ensures
            r == self.screen().cells[pos as int],
    {
        self.buffer.get(pos)
    }
}

/// Where the cursor comes to rest when it is moved back from `p` over
/// blanks in the colours `color`, no further than `floor`.
pub open spec fn back_over_blanks(cells: Seq<Char>, p: int, floor: int, color: ColorCode) -> int
    decreases p - floor,
{
    if p > floor && p >= 1 && cells[p - 1] == blank(color) {
        back_over_blanks(cells, p - 1, floor, color)
    } else {
        p
    }
}

/// The screen after the cell before the cursor has been erased. The cell
/// is blanked. A cursor at the start of a row goes back to the end of the
/// text in the row before; any other goes back by one. At the first cell
/// nothing happens.
pub open spec fn erased(s: Screen, color: ColorCode) -> Screen {
    if s.ptr == 0 {
        s
    } else {
        let cells = s.cells.update(s.ptr - 1, blank(color));
        if s.ptr % VGA_BUFFER_WIDTH as int == 0 {
            Screen {
                cells,
                ptr: back_over_blanks(cells, s.ptr, s.ptr - VGA_BUFFER_WIDTH, color),
            }
        } else {
            Screen { cells, ptr: s.ptr - 1 }
        }
    }
}

/// The cursor comes to rest between the floor and where it began.
pub proof fn lemma_back_over_blanks(cells: Seq<Char>, p: int, floor: int, color: ColorCode)
    requires
        floor <= p,
    ensures
        floor <= back_over_blanks(cells, p, floor, color) <= p,
        p > floor && p >= 1 && cells[p - 1] == blank(color) ==> back_over_blanks(
            cells,
            p,
            floor,
            color,
        ) < p,
    decreases p - floor,
{
    if p > floor && p >= 1 && cells[p - 1] == blank(color) {
        lemma_back_over_blanks(cells, p - 1, floor, color);
    }
}

impl Console {
    /// Whether the cell at `pos` is a blank in the console's colours.
    fn blank_at(&self, pos: usize) -> (r: bool)
        requires
            self.buffer.wf(),
            pos < VGA_BUFFER_SIZE,
        ensures
            r == (self.buffer@[pos as int] == blank(self.color)),
    {
        let cell = self.buffer.get(pos);
        cell.byte == 0x20 && cell.color.0 == self.color.0
    }

    /// Erases the cell before the cursor, as `erased` says, and moves the
    /// hardware cursor with the cursor.
    pub fn backspace(&mut self)
        requires
            old(self).wf(),
        ensures
            final(self).wf(),
            final(self).screen() == erased(old(self).screen(), old(self).colors()),
            final(self).colors() == old(self).colors(),
            old(self).screen().ptr > 0 ==> final(self).shown() == final(self).screen().ptr
                && final(self).screen().ptr < old(self).screen().ptr,
            old(self).screen().ptr == 0 ==> final(self).shown() == old(self).shown(),
    {
        if self.ptr == 0 {
            return ;
        }
        let mut new_pos = self.ptr - 1;
        self.buffer.write(&mut new_pos, 0x20, self.color);
        if new_pos % VGA_BUFFER_WIDTH == 0 {
            let ghost cells = self.buffer@;
            let floor = new_pos - VGA_BUFFER_WIDTH;
            while self.ptr > floor && self.blank_at(self.ptr - 1)
                invariant
                    self.buffer.wf(),
                    self.buffer@ == cells,
                    self.color == old(self).color,
                    floor + VGA_BUFFER_WIDTH == new_pos,
                    new_pos == old(self).ptr,
                    new_pos <= VGA_BUFFER_SIZE,
                    floor <= self.ptr <= new_pos,
                    self.shown == old(self).shown,
                    back_over_blanks(cells, self.ptr as int, floor as int, self.color)
                        == back_over_blanks(cells, new_pos as int, floor as int, self.color),
                decreases self.ptr,
            {
                self.ptr -= 1;
            }
            proof {
                lemma_back_over_blanks(cells, new_pos as int, floor as int, self.color);
            }
        } else {
            self.ptr -= 1;
        }
        self.update_cursor();
    }
}

impl Seek for Console {
    closed spec fn position(&self) -> usize {
        self.ptr
    }

    /// Moves the cursor to `pos`, and the hardware cursor with it.
    fn seek(&mut self, pos: usize)
        ensures
            final(self).screen() == (Screen { cells: old(self).screen().cells, ptr: pos as int }),
            final(self).colors() == old(self).colors(),
            final(self).shown() == pos,
            old(self).wf() && pos <= VGA_BUFFER_SIZE ==> final(self).wf(),
    {
        self.ptr = pos;
        self.update_cursor()
    }

    fn get_cursor_position(&self) -> (r: usize)
        ensures
            r == self.screen().ptr,
    {
        self.ptr
    }
}

impl Write for Console {
    open spec fn can_write(&self) -> bool {
        self.wf()
    }

    /// The bytes were put one after the other in the colours of `before`,
    /// and the hardware cursor stands where the cursor does.
    open spec fn wrote(&self, before: &Self, bytes: Seq<u8>) -> bool {
        &&& self.wf()
        &&& self.screen() == put_all(before.screen(), bytes, before.colors())
        &&& self.colors() == before.colors()
        &&& self.shown() == self.screen().ptr
    }

    /// Puts `byte` at the cursor and moves the hardware cursor with the
    /// cursor.
    fn write_byte(&mut self, byte: u8)
        ensures
            final(self).wf(),
            final(self).screen() == put(old(self).screen(), byte, old(self).colors()),
            final(self).colors() == old(self).colors(),
            final(self).shown() == final(self).screen().ptr,
    {
        self.buffer.write(&mut self.ptr, byte, self.color);
        self.update_cursor();
    }

    /// Puts the bytes one after the other and moves the hardware cursor
    /// with the cursor.
    fn write_bytes(&mut self, bytes: &[u8])
        ensures
            final(self).wf(),
            final(self).screen() == put_all(old(self).screen(), bytes@, old(self).colors()),
            final(self).colors() == old(self).colors(),
            final(self).shown() == final(self).screen().ptr,
    {
        let mut i: usize = 0;
        while i < bytes.len()
            invariant
                i <= bytes.len(),
                self.wf(),
                self.color == old(self).color,
                self.screen() == put_all(
                    old(self).screen(),
                    bytes@.subrange(0, i as int),
                    old(self).colors(),
                ),
            decreases bytes.len() - i,
        {
            proof {
                assert(bytes@.subrange(0, i as int + 1).drop_last() =~= bytes@.subrange(0, i as int));
            }
            self.buffer.write(&mut self.ptr, bytes[i], self.color);
            i += 1;
        }
        proof {
            assert(bytes@.subrange(0, bytes@.len() as int) =~= bytes@);
        }
        self.update_cursor();
    }

    /// Writes a text: printable characters are put, a line feed moves the
    /// cursor to the next row, a tab puts four blanks, and any other byte
    /// puts a question mark. The hardware cursor moves with the cursor.
    fn write_string(&mut self, str: &str)
        ensures
            final(self).wf(),
            final(self).screen() == typed_all(
                old(self).screen(),
                str.spec_bytes(),
                old(self).colors(),
            ),
            final(self).colors() == old(self).colors(),
            final(self).shown() == final(self).screen().ptr,
    {
        let bytes = str.as_bytes();
        let mut i: usize = 0;
        while i < bytes.len()
            invariant
                i <= bytes.len(),
                bytes@ == str.spec_bytes(),
                self.wf(),
                self.color == old(self).color,
                self.screen() == typed_all(
                    old(self).screen(),
                    bytes@.subrange(0, i as int),
                    old(self).colors(),
                ),
            decreases bytes.len() - i,
        {
            proof {
                assert(bytes@.subrange(0, i as int + 1).drop_last() =~= bytes@.subrange(0, i as int));
            }
            let byte = bytes[i];
            if 0x20 <= byte && byte <= 0x7E {
                self.buffer.write(&mut self.ptr, byte, self.color);
            } else if byte == 0x0A {
                self.newline_raw();
            } else if byte == 0x09 {
                self.buffer.write(&mut self.ptr, 0x20, self.color);
                self.buffer.write(&mut self.ptr, 0x20, self.color);
                self.buffer.write(&mut self.ptr, 0x20, self.color);
                self.buffer.write(&mut self.ptr, 0x20, self.color);
            } else {
                self.buffer.write(&mut self.ptr, 0x3F, self.color);
            }
            i += 1;
        }
        proof {
            assert(bytes@.subrange(0, bytes@.len() as int) =~= bytes@);
        }
        self.update_cursor();
    }
}

impl Clear for Console {
    /// Blanks the screen in the console's colours and puts the cursor at
    /// the first cell.
    fn clear(&mut self)
        ensures
            final(self).colors() == old(self).colors(),
            old(self).wf() ==> final(self).wf() && final(self).screen() == (Screen {
                cells: blank_screen(old(self).colors()),
                ptr: 0,
            }) && final(self).shown() == 0,
    {
        self.seek_raw(0);
        if self.buffer.buffer.len() == VGA_BUFFER_SIZE {
            let mut i: usize = 0;
            while i < VGA_BUFFER_SIZE
                invariant
                    i <= VGA_BUFFER_SIZE,
                    self.buffer.wf(),
                    self.color == old(self).color,
                    self.ptr == 0,
                    forall|k: int| 0 <= k < i ==> self.buffer@[k] == blank(self.color),
                decreases VGA_BUFFER_SIZE - i,
            {
                let mut copy = i;
                self.buffer.write(&mut copy, 0x20, self.color);
                i += 1;
            }
            proof {
                assert(self.buffer@ =~= blank_screen(old(self).colors()));
            }
        }
        self.seek(0);
    }
}

impl Read for Console {
    open spec fn can_read(&self) -> bool {
        self.wf() && self.screen().ptr < VGA_BUFFER_SIZE
    }

    /// The character in the cell at the cursor.
    open spec fn current_byte(&self) -> u8 {
        self.screen().cells[self.screen().ptr].byte
    }

    fn read_byte(&self) -> (r: u8) {
        self.buffer.get(self.ptr).byte
    }
}

/// Writes a text to the console with interrupts off, so that no interrupt
/// prints in between, and leaves interrupts as they were.
pub fn _print(console: &mut Console, state: &mut InterruptState, text: &str)
    requires
        old(console).wf(),
    ensures
        final(console).wf(),
        final(console).screen() == typed_all(
            old(console).screen(),
            text.spec_bytes(),
            old(console).colors(),
        ),
        final(console).colors() == old(console).colors(),
        final(console).shown() == final(console).screen().ptr,
        final(state).enabled == old(state).enabled,
{
    let ints_enabled = crate::interrupts::is_enabled(state);
    if ints_enabled {
        crate::interrupts::disable(state);
    }
    console.write_string(text);
    if ints_enabled {
        crate::interrupts::enable(state);
    }
}

impl Console {
    /// Writes one byte of text, as `typed` says, and moves the hardware
    /// cursor with the cursor.
    pub fn type_byte(&mut self, byte: u8)
        requires
            old(self).wf(),
        ensures
            final(self).wf(),
            final(self).screen() == typed(old(self).screen(), byte, old(self).colors()),
            final(self).colors() == old(self).colors(),
            final(self).shown() == final(self).screen().ptr,
    {
        if 0x20 <= byte && byte <= 0x7E {
            self.buffer.write(&mut self.ptr, byte, self.color);
        } else if byte == 0x0A {
            self.newline_raw();
        } else if byte == 0x09 {
            self.buffer.write(&mut self.ptr, 0x20, self.color);
            self.buffer.write(&mut self.ptr, 0x20, self.color);
            self.buffer.write(&mut self.ptr, 0x20, self.color);
            self.buffer.write(&mut self.ptr, 0x20, self.color);
        } else {
            self.buffer.write(&mut self.ptr, 0x3F, self.color);
        }
        self.update_cursor();
    }
}

} // verus!
