//! Paging: page entries, the frame bitmap, the boot-time bump arena, page
//! tables and directories with their recursive self-map.

use vstd::prelude::*;

verus! {

/// Bytes in a page and in a frame.
pub const PAGE_SIZE: usize = 0x1000;

/// Entries in a page table and in a page directory.
pub const TABLE_ENTRIES: usize = 1024;

/// Frames in the 32-bit physical address space.
pub const TOTAL_FRAMES: usize = 0x100000;

/// Words in the frame bitmap, one bit per frame.
pub const BITMAP_WORDS: usize = 32768;

/// Whether bit `bit` of `word` is set.
pub open spec fn bit_is_set(word: u32, bit: u32) -> bool {
    (word >> bit) & 1 == 1
}

/// `word` with bit `bit` set to `value` and every other bit kept.
pub open spec fn with_bit(word: u32, bit: u32, value: bool) -> u32 {
    if value {
        word | (1u32 << bit)
    } else {
        word & !(1u32 << bit)
    }
}

/// Reads one bit of a word through `bitfield::Bit::bit`, which for a `u32`
/// isolates the bit by shifting and compares it with zero. The bit index
/// must lie inside the word, or the shifts overflow.
#[verifier::external_body]
fn word_bit(word: u32, bit: u32) -> (r: bool)
    requires
        bit < 32,
    ensures
        r == bit_is_set(word, bit),
{
    bitfield::Bit::bit(&word, bit as usize)
}

/// Writes one bit of a word through `bitfield::BitMut::set_bit`, which for a
/// `u32` clears the bit under a one-bit mask and ors the new value in. The
/// bit index must lie inside the word, or the shifts overflow.
#[verifier::external_body]
fn word_set_bit(word: &mut u32, bit: u32, value: bool)
    requires
        bit < 32,
    ensures
        *final(word) == with_bit(*old(word), bit, value),
{
    bitfield::BitMut::set_bit(word, bit as usize, value)
}

/// What a page entry says, field by field.
pub struct PageView {
    pub present: bool,
    pub rw: bool,
    pub user: bool,
    pub accessed: bool,
    pub dirty: bool,
    /// Bits 5 to 11, which the hardware leaves to software.
    pub unused: u32,
    /// The number of the 4 KiB frame the entry names.
    pub frame: u32,
}

impl PageView {
    /// An entry names a frame exactly if it is present.
    pub open spec fn consistent(self) -> bool {
        (self.frame != 0) == self.present
    }
}

/// A page entry: flag bits in the low twelve bits, the frame number above.
#[derive(Clone, Copy, Debug, PartialEq, Eq, Structural)]
pub struct Page(pub u32);

impl View for Page {
    type V = PageView;

    open spec fn view(&self) -> PageView {
        PageView {
            present: bit_is_set(self.0, 0),
            rw: bit_is_set(self.0, 1),
            user: bit_is_set(self.0, 2),
            accessed: bit_is_set(self.0, 3),
            dirty: bit_is_set(self.0, 4),
            unused: (self.0 >> 5) & 0x7F,
            frame: self.0 >> 12,
        }
    }
}

/// Writing one of the five flag bits changes that flag and nothing else.
pub proof fn lemma_flag_write(w: u32, b: u32, v: bool)
    by (bit_vector)
    requires
        b < 5,
    ensures
        ({
            let n = if v { w | (1u32 << b) } else { w & !(1u32 << b) };
            &&& ((n >> b) & 1 == 1) == v
            &&& b != 0 ==> (n >> 0) & 1 == (w >> 0) & 1
            &&& b != 1 ==> (n >> 1) & 1 == (w >> 1) & 1
            &&& b != 2 ==> (n >> 2) & 1 == (w >> 2) & 1
            &&& b != 3 ==> (n >> 3) & 1 == (w >> 3) & 1
            &&& b != 4 ==> (n >> 4) & 1 == (w >> 4) & 1
            &&& (n >> 5) & 0x7F == (w >> 5) & 0x7F
            &&& n >> 12 == w >> 12
        }),
{
}

/// Writing the frame number keeps the low twelve bits and stores the low
/// twenty bits of the value above them.
pub proof fn lemma_frame_write(w: u32, value: u32)
    by (bit_vector)
    ensures
        ({
            let n = ((value & 0xFFFFF) << 12) | (w & 0xFFF);
            &&& n >> 12 == value & 0xFFFFF
            &&& (n >> 0) & 1 == (w >> 0) & 1
            &&& (n >> 1) & 1 == (w >> 1) & 1
            &&& (n >> 2) & 1 == (w >> 2) & 1
            &&& (n >> 3) & 1 == (w >> 3) & 1
            &&& (n >> 4) & 1 == (w >> 4) & 1
            &&& (n >> 5) & 0x7F == (w >> 5) & 0x7F
        }),
{
}

/// The zero entry has every field clear.
pub proof fn lemma_zero_page()
    ensures
        Page(0)@ == (PageView {
            present: false,
            rw: false,
            user: false,
            accessed: false,
            dirty: false,
            unused: 0,
            frame: 0,
        }),
{
    assert((0u32 >> 0u32) & 1 == 0 && (0u32 >> 1u32) & 1 == 0 && (0u32 >> 2u32) & 1 == 0 && (0u32
        >> 3u32) & 1 == 0 && (0u32 >> 4u32) & 1 == 0 && (0u32 >> 5u32) & 0x7F == 0 && (0u32
        >> 12u32) == 0) by (bit_vector);
}

impl Page {
    /// Whether the entry is present.
    pub fn present(&self) -> (r: bool)
        ensures
            r == self@.present,
    {
        word_bit(self.0, 0)
    }

    /// Whether the page may be written.
    pub fn rw(&self) -> (r: bool)
        ensures
            r == self@.rw,
    {
        word_bit(self.0, 1)
    }

    /// Whether ring 3 may reach the page.
    pub fn user(&self) -> (r: bool)
        ensures
            r == self@.user,
    {
        word_bit(self.0, 2)
    }

    /// Whether the page has been accessed.
    pub fn accessed(&self) -> (r: bool)
        ensures
            r == self@.accessed,
    {
        word_bit(self.0, 3)
    }

    /// Whether the page has been written.
    pub fn dirty(&self) -> (r: bool)
        ensures
            r == self@.dirty,
    {
        word_bit(self.0, 4)
    }

    /// Sets the present flag and keeps every other field.
    pub fn set_present(&mut self, value: bool)
        ensures
            final(self)@ == (PageView { present: value, ..old(self)@ }),
    {
        proof {
            lemma_flag_write(self.0, 0, value);
        }
        word_set_bit(&mut self.0, 0, value);
    }

    /// Sets the writable flag and keeps every other field.
    pub fn set_rw(&mut self, value: bool)
        ensures
            final(self)@ == (PageView { rw: value, ..old(self)@ }),
    {
        proof {
            lemma_flag_write(self.0, 1, value);
        }
        word_set_bit(&mut self.0, 1, value);
    }

    /// Sets the user flag and keeps every other field.
    pub fn set_user(&mut self, value: bool)
        ensures
            final(self)@ == (PageView { user: value, ..old(self)@ }),
    {
        proof {
            lemma_flag_write(self.0, 2, value);
        }
        word_set_bit(&mut self.0, 2, value);
    }

    /// Sets the accessed flag and keeps every other field.
    pub fn set_accessed(&mut self, value: bool)
        ensures
            final(self)@ == (PageView { accessed: value, ..old(self)@ }),
    {
        proof {
            lemma_flag_write(self.0, 3, value);
        }
        word_set_bit(&mut self.0, 3, value);
    }

    /// Sets the dirty flag and keeps every other field.
    pub fn set_dirty(&mut self, value: bool)
        ensures
            final(self)@ == (PageView { dirty: value, ..old(self)@ }),
    {
        proof {
            lemma_flag_write(self.0, 4, value);
        }
        word_set_bit(&mut self.0, 4, value);
    }

    /// The number of the frame the entry names.
    pub fn frame(&self) -> (r: u32)
        ensures
            r == self@.frame,
    {
        self.0 >> 12
    }

    /// Stores the low twenty bits of `value` as the frame number and keeps
    /// the flags.
    pub fn set_frame(&mut self, value: u32)
        ensures
            final(self)@ == (PageView { frame: value & 0xFFFFF, ..old(self)@ }),
    {
        proof {
            lemma_frame_write(self.0, value);
        }
        self.0 = ((value & 0xFFFFF) << 12) | (self.0 & 0xFFF);
    }
}

/// Flag bit: the entry is present.
pub const PRESENT: u32 = 1;

/// Flag bit: the page may be written.
pub const RW: u32 = 2;

/// Flag bit: ring 3 may reach the page.
pub const USER: u32 = 4;

/// Flag bit: write-through caching.
pub const PWT: u32 = 8;

/// Flag bit: caching disabled.
pub const PCD: u32 = 16;

/// Flag bit: accessed.
pub const ACCESSED: u32 = 32;

/// Flag bit: dirty.
pub const DIRTY: u32 = 64;

/// The flags a mapping is made with, as a set of bits.
#[derive(Clone, Copy, Debug, PartialEq, Eq, Structural)]
pub struct PageFlags {
    pub bits: u32,
}

impl PageFlags {
    /// Whether every flag of `other` is in `self`.
    pub open spec fn spec_contains(&self, other: PageFlags) -> bool {
        self.bits & other.bits == other.bits
    }

    /// Whether the writable flag is in the set.
    pub open spec fn writable(self) -> bool {
        self.bits & RW == RW
    }

    /// Whether the user flag is in the set.
    pub open spec fn user_visible(self) -> bool {
        self.bits & USER == USER
    }

    /// The bits of the set.
    pub fn bits(&self) -> (r: u32)
        ensures
            r == self.bits,
    {
        self.bits
    }

    /// A set from its bits, unknown bits kept.
    pub fn from_bits_retain(bits: u32) -> (r: PageFlags)
        ensures
            r.bits == bits,
    {
        PageFlags { bits }
    }

    /// The empty set.
    pub fn empty() -> (r: PageFlags)
        ensures
            r.bits == 0,
    {
        PageFlags { bits: 0 }
    }

    /// Whether every flag of `other` is in `self`.
    #[verifier::when_used_as_spec(spec_contains)]
    pub fn contains(&self, other: PageFlags) -> (r: bool)
        ensures
            r == self.spec_contains(other),
    {
        self.bits & other.bits == other.bits
    }

    /// The flags of either set.
    pub fn union(self, other: PageFlags) -> (r: PageFlags)
        ensures
            r.bits == self.bits | other.bits,
    {
        PageFlags { bits: self.bits | other.bits }
    }
}

/// The frame bitmap: one bit per 4 KiB frame of the 32-bit physical address
/// space, set while the frame is in use. The frames below `reserved` back
/// the boot arena and are never handed out.
pub struct FramesUsage {
    words: Vec<u32>,
    reserved: usize,
}

/// Bit `c` of a word is untouched by a write to another bit `b`, and bit `b`
/// reads back as written.
pub proof fn lemma_with_bit(w: u32, b: u32, v: bool, c: u32)
    by (bit_vector)
    requires
        b < 32,
        c < 32,
    ensures
        ({
            let n = if v { w | (1u32 << b) } else { w & !(1u32 << b) };
            &&& ((n >> b) & 1 == 1) == v
            &&& c != b ==> ((n >> c) & 1 == 1) == ((w >> c) & 1 == 1)
        }),
{
}

/// In a word of all ones every bit is set.
pub proof fn lemma_full_word(w: u32, c: u32)
    by (bit_vector)
    requires
        w == 0xFFFFFFFFu32,
        c < 32,
    ensures
        (w >> c) & 1 == 1,
{
}

/// Testing a bit under the mask `1 << c` agrees with shifting it down.
pub proof fn lemma_mask_test(w: u32, c: u32)
    by (bit_vector)
    requires
        c < 32,
    ensures
        (w & (1u32 << c) == 0) == !((w >> c) & 1 == 1),
{
}

/// In the zero word no bit is set.
pub proof fn lemma_zero_word(c: u32)
    by (bit_vector)
    requires
        c < 32,
    ensures
        (0u32 >> c) & 1 == 0,
{
}

impl FramesUsage {
    /// The bitmap has all its words and its reserved prefix lies inside it.
    pub closed spec fn wf(&self) -> bool {
        &&& self.words.len() == BITMAP_WORDS
        &&& self.reserved <= TOTAL_FRAMES
    }

    /// The number of leading frames that are never handed out.
    pub closed spec fn reserved(&self) -> int {
        self.reserved as int
    }

    /// Whether frame `frame` is marked used.
    pub closed spec fn is_used(&self, frame: int) -> bool {
        bit_is_set(self.words[frame / 32], (frame % 32) as u32)
    }

    /// Whether `frame` is the lowest frame at or above the reserved prefix
    /// that is not marked used.
    pub open spec fn is_first_free(&self, frame: int) -> bool {
        &&& self.reserved() <= frame < TOTAL_FRAMES
        &&& !self.is_used(frame)
        &&& forall|g: int| self.reserved() <= g < frame ==> self.is_used(g)
    }

    /// Whether some frame at or above the reserved prefix is not marked used.
    pub open spec fn has_free(&self) -> bool {
        exists|f: int| self.reserved() <= f < TOTAL_FRAMES && !self.is_used(f)
    }

    /// `self` differs from `before` in frame `frame` alone, which is marked
    /// as `value` says.
    pub open spec fn marks(&self, before: &FramesUsage, frame: int, value: bool) -> bool {
        &&& self.reserved() == before.reserved()
        &&& self.is_used(frame) == value
        &&& forall|g: int| 0 <= g < TOTAL_FRAMES && g != frame ==> self.is_used(g) == before.is_used(g)
    }

    /// A bitmap with no frame marked and `reserved` leading frames that are
    /// never handed out.
    pub fn new(reserved: usize) -> (r: FramesUsage)
        requires
            reserved <= TOTAL_FRAMES,
        ensures
            r.wf(),
            r.reserved() == reserved,
            forall|f: int| 0 <= f < TOTAL_FRAMES ==> !r.is_used(f),
    {
        let mut words: Vec<u32> = Vec::new();
        let mut i: usize = 0;
        while i < BITMAP_WORDS
            invariant
                i <= BITMAP_WORDS,
                words.len() == i,
                forall|k: int| 0 <= k < i ==> words[k] == 0,
            decreases BITMAP_WORDS - i,
        {
            words.push(0);
            i += 1;
        }
        let r = FramesUsage { words, reserved };
        assert forall|f: int| 0 <= f < TOTAL_FRAMES implies !r.is_used(f) by {
            lemma_zero_word((f % 32) as u32);
        }
        r
    }

    /// The word that holds a frame's bit, and the bit's place in it.
    pub fn get_idx_off(frame_idx: usize) -> (r: (usize, usize))
        ensures
            r.0 == frame_idx / 32,
            r.1 == frame_idx % 32,
    {
        (frame_idx / 32, frame_idx % 32)
    }

    /// Whether frame `frame_idx` is marked used.
    pub fn frame_used(&self, frame_idx: usize) -> (r: bool)
        requires
            self.wf(),
            frame_idx < TOTAL_FRAMES,
        ensures
            r == self.is_used(frame_idx as int),
    {
        let (idx, off) = Self::get_idx_off(frame_idx);
        let word = self.words[idx];
        let bit = off as u32;
        proof {
            lemma_mask_test(word, bit);
        }
        word & (1u32 << bit) != 0
    }

    /// Marks frame `frame_idx` as used or free and leaves every other frame
    /// as it was.
    pub fn set_frame_used(&mut self, frame_idx: usize, value: bool)
        requires
            old(self).wf(),
            frame_idx < TOTAL_FRAMES,
        ensures
            final(self).wf(),
            final(self).marks(old(self), frame_idx as int, value),
    {
        let (idx, off) = Self::get_idx_off(frame_idx);
        let word = self.words[idx];
        let bit = off as u32;
        let updated = if value {
            word | (1u32 << bit)
        } else {
            word & !(1u32 << bit)
        };
        self.words.set(idx, updated);
        proof {
            lemma_with_bit(word, bit, value, bit);
            assert forall|g: int| 0 <= g < TOTAL_FRAMES && g != frame_idx implies self.is_used(g)
                == old(self).is_used(g) by {
                if g / 32 == idx as int {
                    lemma_with_bit(word, bit, value, (g % 32) as u32);
                }
            }
        }
    }

    /// The lowest frame at or above the reserved prefix that is not marked
    /// used. There must be one.
    pub fn get_free_frame(&self) -> (r: usize)
        requires
            self.wf(),
            self.has_free(),
        ensures
            self.is_first_free(r as int),
    {
        let mut i: usize = self.reserved / 32;
        while i < BITMAP_WORDS
            invariant
                self.wf(),
                self.has_free(),
                self.reserved / 32 <= i <= BITMAP_WORDS,
                forall|g: int| self.reserved() <= g < i * 32 ==> self.is_used(g),
            decreases BITMAP_WORDS - i,
        {
            let frame = self.words[i];
            if frame == 0xFFFFFFFF {
                proof {
                    assert forall|g: int| self.reserved() <= g < (i + 1) * 32 implies self.is_used(
                        g,
                    ) by {
                        if g >= i * 32 {
                            lemma_full_word(frame, (g % 32) as u32);
                        }
                    }
                }
                i += 1;
                continue ;
            }
            let mut j: usize = 0;
            while j < 32
                invariant
                    self.wf(),
                    i < BITMAP_WORDS,
                    frame == self.words[i as int],
                    j <= 32,
                    forall|g: int| self.reserved() <= g < i * 32 + j ==> self.is_used(g),
                decreases 32 - j,
            {
                let idx = i * 32 + j;
                if idx >= self.reserved {
                    let bit = j as u32;
                    proof {
                        lemma_mask_test(frame, bit);
                    }
                    if frame & (1u32 << bit) == 0 {
                        return idx;
                    }
                }
                j += 1;
            }
            i += 1;
        }
        proof {
            let f = choose|f: int| self.reserved() <= f < TOTAL_FRAMES && !self.is_used(f);
            assert(self.is_used(f));
        }
        0
    }

    /// Whether some frame at or above the reserved prefix is free.
    pub fn any_free(&self) -> (r: bool)
        requires
            self.wf(),
        ensures
            r == self.has_free(),
    {
        let mut i: usize = self.reserved;
        while i < TOTAL_FRAMES
            invariant
                self.wf(),
                self.reserved <= i <= TOTAL_FRAMES,
                forall|g: int| self.reserved() <= g < i ==> self.is_used(g),
            decreases TOTAL_FRAMES - i,
        {
            if !self.frame_used(i) {
                return true;
            }
            i += 1;
        }
        false
    }

    /// Gives `page` the frame `frame`: marks the frame used, sets the page
    /// present and writes the frame number. The page must not name a frame
    /// yet.
    pub fn set_page_frame(&mut self, page: &mut Page, frame: usize)
        requires
            old(self).wf(),
            old(page)@.frame == 0,
            frame < TOTAL_FRAMES,
        ensures
            final(self).wf(),
            final(self).marks(old(self), frame as int, true),
            final(page)@ == (PageView { present: true, frame: frame as u32, ..old(page)@ }),
            frame != 0 ==> final(page)@.consistent(),
    {
        self.set_frame_used(frame, true);
        page.set_present(true);
        let number = frame as u32;
        proof {
            assert(number & 0xFFFFF == number) by (bit_vector)
                requires
                    number < 0x100000u32,
            ;
        }
        page.set_frame(number);
    }

    /// Takes the frame of `page` back: clears the frame's bit, zeroes the
    /// page's frame field and leaves the page not present. A page that names
    /// no frame is left as it is, and so is the bitmap.
    pub fn free_frame(&mut self, page: &mut Page)
        requires
            old(self).wf(),
        ensures
            final(self).wf(),
            old(page)@.frame == 0 ==> *final(page) == *old(page) && *final(self) == *old(self),
            old(page)@.frame != 0 ==> final(self).marks(old(self), old(page)@.frame as int, false)
                && final(page)@ == (PageView { present: false, frame: 0, ..old(page)@ }),
            old(page)@.frame != 0 ==> final(page)@.consistent(),
    {
        let number = page.frame();
        if number == 0 {
            return ;
        }
        proof {
            let word = page.0;
            assert(number < 0x100000u32) by (bit_vector)
                requires
                    number == word >> 12,
            ;
            assert(0u32 & 0xFFFFF == 0) by (bit_vector);
        }
        self.set_frame_used(number as usize, false);
        page.set_present(false);
        page.set_frame(0);
    }
}

/// Where the boot-time bump arena begins.
pub const ARENA_START: u32 = 0x100000;

/// `addr` rounded up to the next page boundary.
pub open spec fn page_align_up(addr: int) -> int {
    if addr % 4096 == 0 {
        addr
    } else {
        addr - addr % 4096 + 4096
    }
}

/// The boot-time bump arena: a pointer that only grows, used before the
/// heap exists. Nothing taken from it is ever given back.
pub struct BumpArena {
    placement_addr: u32,
    heap_end: u32,
}

impl BumpArena {
    /// The next address the arena would hand out.
    pub closed spec fn placement(&self) -> int {
        self.placement_addr as int
    }

    /// The first address past the arena.
    pub closed spec fn limit(&self) -> int {
        self.heap_end as int
    }

    /// Where an allocation would begin.
    pub open spec fn start_of(&self, align: bool) -> int {
        if align {
            page_align_up(self.placement())
        } else {
            self.placement()
        }
    }

    /// Whether `size` bytes still fit below the limit.
    pub open spec fn can_take(&self, size: int, align: bool) -> bool {
        self.start_of(align) + size <= self.limit()
    }

    /// An arena at `ARENA_START` whose limit has not been fixed yet.
    pub fn new() -> (r: BumpArena)
        ensures
            r.placement() == ARENA_START,
            r.limit() == u32::MAX,
    {
        BumpArena { placement_addr: ARENA_START, heap_end: u32::MAX }
    }

    /// The next address the arena would hand out.
    pub fn placement_addr(&self) -> (r: u32)
        ensures
            r == self.placement(),
    {
        self.placement_addr
    }

    /// The first address past the arena.
    pub fn heap_end(&self) -> (r: u32)
        ensures
            r == self.limit(),
    {
        self.heap_end
    }

    /// Whether `size` bytes still fit below the limit.
    pub fn fits(&self, size: u32, align: bool) -> (r: bool)
        ensures
            r == self.can_take(size as int, align),
    {
        let addr = self.placement_addr as u64;
        let start: u64 = if align && addr % 4096 != 0 {
            addr - addr % 4096 + 4096
        } else {
            addr
        };
        start + size as u64 <= self.heap_end as u64
    }

    /// Hands out `size` bytes, from the next page boundary if `align` is
    /// set, and moves the pointer past them. The bytes must fit.
    pub fn kmalloc(&mut self, size: u32, align: bool) -> (addr: u32)
        requires
            old(self).can_take(size as int, align),
        ensures
            addr == old(self).start_of(align),
            final(self).placement() == addr + size,
            final(self).limit() == old(self).limit(),
    {
        if align && self.placement_addr % 4096 != 0 {
            self.placement_addr = self.placement_addr - self.placement_addr % 4096 + 4096;
        }
        let curr = self.placement_addr;
        self.placement_addr = self.placement_addr + size;
        curr
    }

    /// Fixes the limit `extra` bytes past the pointer, or at the top of the
    /// address space if that is nearer.
    pub fn seal(&mut self, extra: u32)
        ensures
            final(self).placement() == old(self).placement(),
            final(self).limit() == if old(self).placement() + extra <= u32::MAX {
                old(self).placement() + extra
            } else {
                u32::MAX as int
            },
    {
        self.heap_end = if extra <= u32::MAX - self.placement_addr {
            self.placement_addr + extra
        } else {
            u32::MAX
        };
    }
}

/// The paging state that every address space shares: the frame bitmap, the
/// bump arena, whether the heap is live, and the translation hardware as the
/// kernel has set it.
pub struct Paging {
    pub frames: FramesUsage,
    pub arena: BumpArena,
    /// Set once the heap is live; page tables then come from the frame
    /// bitmap and no longer from the arena.
    pub heap_ready: bool,
    /// Physical base of the active directory, as written to the page-base
    /// register; zero before the first switch.
    pub current: u32,
    /// Whether translation has been switched on.
    pub enabled: bool,
    /// Page addresses whose cached translation has to be dropped, oldest
    /// first.
    pub invalidated: Vec<u32>,
}

impl Paging {
    pub open spec fn wf(&self) -> bool {
        self.frames.wf()
    }

    /// The paging state at boot: nothing marked, nothing switched on.
    pub fn new(frames: FramesUsage, arena: BumpArena) -> (r: Paging)
        ensures
            r.frames == frames,
            r.arena == arena,
            !r.heap_ready,
            r.current == 0,
            !r.enabled,
            r.invalidated@ == Seq::<u32>::empty(),
    {
        Paging { frames, arena, heap_ready: false, current: 0, enabled: false, invalidated: Vec::new() }
    }

    /// Physical base of the active directory; zero before the first switch.
    pub fn curr(&self) -> (r: u32)
        ensures
            r == self.current,
    {
        self.current
    }
}

/// A page table: 1024 page entries.
pub struct PageTable {
    pages: Vec<Page>,
}

impl PageTable {
    pub closed spec fn wf(&self) -> bool {
        self.pages.len() == TABLE_ENTRIES
    }

    /// Entry `i` of the table.
    pub closed spec fn entry(&self, i: int) -> Page {
        self.pages[i]
    }

    /// A table of zero entries.
    pub fn new() -> (r: PageTable)
        ensures
            r.wf(),
            forall|i: int| 0 <= i < TABLE_ENTRIES ==> r.entry(i) == Page(0),
    {
        let mut pages: Vec<Page> = Vec::new();
        let mut i: usize = 0;
        while i < TABLE_ENTRIES
            invariant
                i <= TABLE_ENTRIES,
                pages.len() == i,
                forall|k: int| 0 <= k < i ==> pages[k] == Page(0),
            decreases TABLE_ENTRIES - i,
        {
            pages.push(Page(0));
            i += 1;
        }
        PageTable { pages }
    }

    /// Entry `i` of the table.
    pub fn get(&self, i: usize) -> (r: Page)
        requires
            self.wf(),
            i < TABLE_ENTRIES,
        ensures
            r == self.entry(i as int),
    {
        self.pages[i]
    }

    /// Replaces entry `i` and keeps the others.
    pub fn set(&mut self, i: usize, page: Page)
        requires
            old(self).wf(),
            i < TABLE_ENTRIES,
        ensures
            final(self).wf(),
            final(self).entry(i as int) == page,
            forall|k: int| 0 <= k < TABLE_ENTRIES && k != i ==> final(self).entry(k) == old(self).entry(k),
    {
        self.pages[i] = page;
    }
}

/// Why a mapping was not made.
#[derive(Clone, Copy, Debug, PartialEq, Eq, Structural)]
pub enum PagingError {
    /// The page is already present.
    AlreadyMapped,
    /// The address lies in the recursive window or in the foreign window.
    ReservedWindow,
    /// A page table was needed and the bump arena is used up.
    OutOfArena,
    /// A page table was needed and no frame is free.
    OutOfFrames,
}

/// Directory slot that refers to the directory itself.
pub const RECURSIVE_SLOT: usize = 1023;

/// Directory slot kept for reaching a foreign directory.
pub const FOREIGN_SLOT: usize = 1022;

/// First page number of the two windows at the top of the address space.
pub const WINDOW_PAGE: usize = 0xFF800;

/// Virtual address at which the active directory sees itself.
pub const DIRECTORY_WINDOW: u32 = 0xFFFFF000;

/// Virtual address at which the active directory sees its first table.
pub const TABLE_WINDOW: u32 = 0xFFC00000;

/// Virtual address at which a foreign directory is seen during an edit.
pub const FOREIGN_DIRECTORY_WINDOW: u32 = 0xFFBFE000;

/// Virtual address at which a foreign directory's first table is seen.
pub const FOREIGN_TABLE_WINDOW: u32 = 0xFF800000;

/// The directory entry that links a table at `addr` with `flags`.
pub open spec fn table_link(addr: u32, flags: PageFlags) -> u32 {
    addr | (flags.bits & 0xFFF) | PRESENT
}

/// The entry a page gets when it is mapped to frame `frame` with `flags`.
pub open spec fn mapped_entry(frame: int, flags: PageFlags) -> PageView {
    PageView {
        present: true,
        rw: flags.writable(),
        user: flags.user_visible(),
        accessed: false,
        dirty: false,
        unused: 0,
        frame: frame as u32,
    }
}

/// A table link is a present entry that names the table's frame and keeps
/// the low twelve flag bits.
pub proof fn lemma_table_link(addr: u32, bits: u32)
    by (bit_vector)
    requires
        addr & 0xFFF == 0,
    ensures
        ((addr | (bits & 0xFFF) | 1u32) >> 0) & 1 == 1,
        (addr | (bits & 0xFFF) | 1u32) >> 12 == addr >> 12,
        (addr | (bits & 0xFFF) | 1u32) != 0,
{
}

/// Where the kernel image lies, as the linker placed it.
#[derive(Clone, Copy, Debug)]
pub struct KernelLayout {
    /// First address of the image.
    pub load_addr: u32,
    /// First address past the image.
    pub end_addr: u32,
}

/// A page directory with its page tables. Slot 1023 refers to the directory
/// itself and slot 1022 is kept for reaching a foreign directory, so tables
/// of its own live in slots 0 to 1021.
pub struct PageDirectory {
    page_tables: Vec<Option<PageTable>>,
    physical_tables: Vec<u32>,
    base: u32,
}

impl PageDirectory {
    pub closed spec fn wf(&self) -> bool {
        &&& self.page_tables.len() == TABLE_ENTRIES
        &&& self.physical_tables.len() == TABLE_ENTRIES
        &&& self.base & 0xFFF == 0
        &&& forall|i: int|
            0 <= i < TABLE_ENTRIES ==> ((#[trigger] self.page_tables[i]) is Some
                ==> self.page_tables[i]->0.wf())
        &&& self.page_tables[FOREIGN_SLOT as int] is None
        &&& self.page_tables[RECURSIVE_SLOT as int] is None
        &&& forall|i: int|
            0 <= i < FOREIGN_SLOT ==> ((#[trigger] self.page_tables[i]) is Some <==> bit_is_set(
                self.physical_tables[i],
                0,
            ))
        &&& forall|i: int|
            0 <= i < FOREIGN_SLOT ==> ((#[trigger] self.page_tables[i]) is None
                ==> self.physical_tables[i] == 0)
        &&& self.physical_tables[FOREIGN_SLOT as int] == 0
        &&& self.physical_tables[RECURSIVE_SLOT as int] == (self.base | RW | PRESENT)
    }

    /// Physical address of the directory.
    pub closed spec fn base(&self) -> u32 {
        self.base
    }

    /// Whether slot `i` holds a table of the directory's own.
    pub closed spec fn has_table(&self, i: int) -> bool {
        self.page_tables[i] is Some
    }

    /// The directory entry in slot `i`.
    pub closed spec fn entry(&self, i: int) -> u32 {
        self.physical_tables[i]
    }

    /// The descriptor of virtual page `vpn`, if the table that would hold it
    /// exists. Pages of the recursive window are described by the directory
    /// entries themselves; the foreign window is closed between edits.
    pub closed spec fn descriptor(&self, vpn: int) -> Option<Page> {
        if vpn / 1024 == RECURSIVE_SLOT {
            Some(Page(self.physical_tables[vpn % 1024]))
        } else {
            match self.page_tables[vpn / 1024] {
                Some(table) => Some(table.entry(vpn % 1024)),
                None => None,
            }
        }
    }

    /// Whether virtual page `vpn`, below the two windows, is present.
    pub open spec fn maps(&self, vpn: int) -> bool {
        &&& 0 <= vpn < WINDOW_PAGE
        &&& self.descriptor(vpn) is Some
        &&& self.descriptor(vpn)->0@.present
    }

    /// The address space below the two windows: each present virtual page
    /// with its entry.
    pub open spec fn view(&self) -> Map<int, PageView> {
        Map::new(|vpn: int| self.maps(vpn), |vpn: int| self.descriptor(vpn)->0@)
    }

    /// Every directory slot of `self` is as in `before`.
    pub open spec fn same_links(&self, before: &PageDirectory) -> bool {
        forall|i: int|
            0 <= i < TABLE_ENTRIES ==> self.entry(i) == before.entry(i) && self.has_table(i)
                == before.has_table(i)
    }

    /// Every directory slot of `self` but `slot` is as in `before`.
    pub open spec fn same_links_except(&self, before: &PageDirectory, slot: int) -> bool {
        forall|i: int|
            0 <= i < TABLE_ENTRIES && i != slot ==> self.entry(i) == before.entry(i)
                && self.has_table(i) == before.has_table(i)
    }

    /// What `make_page` answers for virtual page `vpn` in this state.
    pub open spec fn make_page_result(&self, paging: &Paging, vpn: int) -> Result<(), PagingError> {
        if vpn >= WINDOW_PAGE {
            Err(PagingError::ReservedWindow)
        } else if self@.contains_key(vpn) {
            Err(PagingError::AlreadyMapped)
        } else if self.has_table(vpn / 1024) {
            Ok(())
        } else if paging.heap_ready {
            if paging.frames.has_free() {
                Ok(())
            } else {
                Err(PagingError::OutOfFrames)
            }
        } else {
            if paging.arena.can_take(4096, true) {
                Ok(())
            } else {
                Err(PagingError::OutOfArena)
            }
        }
    }

    /// `self` is what a successful `make_page` of virtual page `vpn` to
    /// frame `frame` makes of `before`, with `paging` the shared state after
    /// it and `paging_before` the one before.
    pub open spec fn page_made(
        &self,
        before: &PageDirectory,
        paging: &Paging,
        paging_before: &Paging,
        vpn: int,
        frame: int,
        flags: PageFlags,
    ) -> bool {
        &&& self@ == before@.insert(vpn, mapped_entry(frame, flags))
        &&& self.same_links_except(before, vpn / 1024)
        &&& self.has_table(vpn / 1024)
        &&& forall|w: int|
            0 <= w < WINDOW_PAGE && w != vpn ==> #[trigger] self.descriptor(w) == if w / 1024 == vpn
                / 1024 && !before.has_table(vpn / 1024) {
                Some(Page(0))
            } else {
                before.descriptor(w)
            }
        &&& paging.frames.is_used(frame)
        &&& forall|g: int|
            0 <= g < TOTAL_FRAMES && paging_before.frames.is_used(g) ==> paging.frames.is_used(g)
        &&& if before.has_table(vpn / 1024) {
            &&& self.entry(vpn / 1024) == before.entry(vpn / 1024)
            &&& paging.frames.marks(&paging_before.frames, frame, true)
            &&& paging.arena == paging_before.arena
        } else if paging_before.heap_ready {
            &&& paging.arena == paging_before.arena
            &&& exists|t: int, mid: FramesUsage|
                {
                    &&& paging_before.frames.is_first_free(t)
                    &&& mid.marks(&paging_before.frames, t, true)
                    &&& paging.frames.marks(&mid, frame, true)
                    &&& self.entry(vpn / 1024) == table_link((t * 4096) as u32, flags)
                }
        } else {
            &&& paging.frames.marks(&paging_before.frames, frame, true)
            &&& self.entry(vpn / 1024) == table_link(
                paging_before.arena.start_of(true) as u32,
                flags,
            )
            &&& paging.arena.placement() == paging_before.arena.start_of(true) + 4096
        }
    }

    /// What every paging operation keeps of the shared state.
    pub open spec fn shared_kept(paging: &Paging, paging_before: &Paging) -> bool {
        &&& paging.heap_ready == paging_before.heap_ready
        &&& paging.current == paging_before.current
        &&& paging.enabled == paging_before.enabled
        &&& paging.frames.reserved() == paging_before.frames.reserved()
        &&& paging.arena.limit() == paging_before.arena.limit()
    }

    /// An empty directory at physical address `base`, with only the
    /// recursive slot filled.
    pub fn empty(base: u32) -> (r: PageDirectory)
        requires
            base & 0xFFF == 0,
        ensures
            r.wf(),
            r.base() == base,
            r@ == Map::<int, PageView>::empty(),
            forall|i: int| 0 <= i < TABLE_ENTRIES ==> !r.has_table(i),
            forall|i: int| 0 <= i < RECURSIVE_SLOT ==> r.entry(i) == 0,
            r.entry(RECURSIVE_SLOT as int) == (base | RW | PRESENT),
    {
        let mut page_tables: Vec<Option<PageTable>> = Vec::new();
        let mut physical_tables: Vec<u32> = Vec::new();
        let mut i: usize = 0;
        while i < TABLE_ENTRIES
            invariant
                i <= TABLE_ENTRIES,
                page_tables.len() == i,
                physical_tables.len() == i,
                forall|k: int| 0 <= k < i ==> page_tables[k] is None,
                forall|k: int| 0 <= k < i ==> physical_tables[k] == 0,
            decreases TABLE_ENTRIES - i,
        {
            page_tables.push(None);
            physical_tables.push(0);
            i += 1;
        }
        physical_tables[RECURSIVE_SLOT] = base | RW | PRESENT;
        let r = PageDirectory { page_tables, physical_tables, base };
        proof {
            assert(!bit_is_set(0u32, 0)) by (bit_vector);
            assert(r@ =~= Map::<int, PageView>::empty());
        }
        r
    }

    /// Physical address of the directory.
    pub fn physical_base(&self) -> (r: u32)
        ensures
            r == self.base(),
    {
        self.base
    }

    /// The descriptor of the page that holds `virt`, or `None` where no
    /// table describes it.
    pub fn get_page(&self, virt: u32) -> (r: Option<Page>)
        requires
            self.wf(),
        ensures
            r == self.descriptor((virt / 4096) as int),
    {
        let index = (virt / 4096) as usize;
        let table_idx = index / 1024;
        if table_idx == RECURSIVE_SLOT {
            return Some(Page(self.physical_tables[index % 1024]));
        }
        match &self.page_tables[table_idx] {
            Some(table) => Some(table.get(index % 1024)),
            None => None,
        }
    }

    /// The work of `make_page`, with the address to invalidate given by the
    /// caller: the page's own in the active directory, a window address when
    /// the directory is edited from outside.
    fn install(
        &mut self,
        paging: &mut Paging,
        virt: u32,
        phys: u32,
        flags: PageFlags,
        flush: u32,
    ) -> (r: Result<(), PagingError>)
        requires
            old(self).wf(),
            old(paging).wf(),
        ensures
            final(self).wf(),
            final(paging).wf(),
            final(self).base() == old(self).base(),
            Self::shared_kept(final(paging), old(paging)),
            r == old(self).make_page_result(old(paging), (virt / 4096) as int),
            r is Err ==> *final(self) == *old(self) && *final(paging) == *old(paging),
            r is Ok ==> final(self).page_made(
                old(self),
                final(paging),
                old(paging),
                (virt / 4096) as int,
                (phys / 4096) as int,
                flags,
            ),
            r is Ok ==> final(paging).invalidated@ == old(paging).invalidated@.push(flush),
            page_step(
                old(self).space(old(paging)),
                old(paging).supply(),
                (virt / 4096) as int,
                (phys / 4096) as int,
            ) == answered(r, final(self).space(final(paging))),
    {
        let index = (virt / 4096) as usize;
        let table_idx = index / 1024;
        let slot = index % 1024;
        proof {
            self.lemma_step_agrees(paging, (virt / 4096) as int, (phys / 4096) as int);
        }
        if table_idx >= FOREIGN_SLOT {
            return Err(PagingError::ReservedWindow);
        }
        let missing = match &self.page_tables[table_idx] {
            Some(table) => {
                if table.get(slot).present() {
                    return Err(PagingError::AlreadyMapped);
                }
                false
            },
            None => true,
        };
        let ghost mut taken: int = 0;
        let ghost mut mid_frames = paging.frames;
        if missing {
            let addr: u32;
            if paging.heap_ready {
                if !paging.frames.any_free() {
                    return Err(PagingError::OutOfFrames);
                }
                let frame = paging.frames.get_free_frame();
                paging.frames.set_frame_used(frame, true);
                addr = (frame * 4096) as u32;
                proof {
                    taken = frame as int;
                    mid_frames = paging.frames;
                    let f = frame as u32;
                    assert((f * 4096) as u32 & 0xFFF == 0) by (bit_vector)
                        requires
                            f < 0x100000u32,
                    ;
                }
            } else {
                if !paging.arena.fits(4096, true) {
                    return Err(PagingError::OutOfArena);
                }
                addr = paging.arena.kmalloc(4096, true);
                proof {
                    assert(addr % 4096 == 0);
                    assert(addr & 0xFFF == 0) by (bit_vector)
                        requires
                            addr % 4096 == 0,
                    ;
                }
            }
            let link = addr | (flags.bits() & 0xFFF) | PRESENT;
            proof {
                lemma_table_link(addr, flags.bits);
            }
            self.page_tables[table_idx] = Some(PageTable::new());
            self.physical_tables[table_idx] = link;
        }
        let mut page = Page(0);
        proof {
            lemma_zero_page();
        }
        page.set_present(true);
        page.set_rw(flags.contains(PageFlags::from_bits_retain(RW)));
        page.set_user(flags.contains(PageFlags::from_bits_retain(USER)));
        let number = phys >> 12;
        proof {
            assert(number & 0xFFFFF == number && number == phys / 4096 && number < 0x100000)
                by (bit_vector)
                requires
                    number == phys >> 12,
            ;
        }
        page.set_frame(number);
        paging.frames.set_frame_used(number as usize, true);
        match &mut self.page_tables[table_idx] {
            Some(table) => {
                table.set(slot, page);
            },
            None => {},
        }
        paging.invalidated.push(flush);
        proof {
            assert(page@ == mapped_entry(number as int, flags));
            assert(self.descriptor(index as int) == Some(page));
            assert forall|vpn: int| vpn != index implies self.maps(vpn) == old(self).maps(vpn) && (
            self.maps(vpn) ==> self.descriptor(vpn) == old(self).descriptor(vpn)) by {
                if 0 <= vpn < WINDOW_PAGE && vpn / 1024 == table_idx {
                    assert(vpn % 1024 != slot);
                }
            }
            assert(self@ =~= old(self)@.insert(index as int, mapped_entry(number as int, flags)));
            assert forall|w: int| 0 <= w < WINDOW_PAGE && w != index implies #[trigger] self.descriptor(
                w,
            ) == if w / 1024 == index / 1024 && !old(self).has_table(index as int / 1024) {
                Some(Page(0))
            } else {
                old(self).descriptor(w)
            } by {
                if w / 1024 == table_idx {
                    assert(w % 1024 != slot);
                }
            }
            let before_space = old(self).space(old(paging));
            let after_space = self.space(paging);
            assert(after_space.pages =~= before_space.pages.insert(index as int));
            if missing {
                assert(after_space.tables =~= before_space.tables.insert(table_idx as int));
                if old(paging).heap_ready {
                    old(paging).frames.lemma_lowest_free(taken);
                    mid_frames.lemma_marks(&old(paging).frames, taken, true);
                    paging.frames.lemma_marks(&mid_frames, number as int, true);
                } else {
                    paging.frames.lemma_marks(&old(paging).frames, number as int, true);
                }
            } else {
                assert(after_space.tables =~= before_space.tables);
                paging.frames.lemma_marks(&old(paging).frames, number as int, true);
            }
            if missing && old(paging).heap_ready {
                assert(old(paging).frames.is_first_free(taken) && mid_frames.marks(
                    &old(paging).frames,
                    taken,
                    true,
                ) && paging.frames.marks(&mid_frames, number as int, true) && self.entry(
                    table_idx as int,
                ) == table_link((taken * 4096) as u32, flags));
            }
        }
        Ok(())
    }

    /// Maps the page that holds `virt` to the frame that holds `phys`.
    ///
    /// An address in one of the two windows is refused, and so is a page that
    /// is already present. Where the page's table is missing, a zeroed table
    /// is linked in with `flags`, its frame taken from the frame bitmap once
    /// the heap is live and from the bump arena before; if neither can give
    /// one, that is the error. On every error nothing changes. On success the
    /// page is present with the writable and user flags of `flags`, its
    /// frame is marked used, and the page's address joins the list of
    /// translations to drop.
    pub fn make_page(&mut self, paging: &mut Paging, virt: u32, phys: u32, flags: PageFlags) -> (r:
        Result<(), PagingError>)
        requires
            old(self).wf(),
            old(paging).wf(),
        ensures
            final(self).wf(),
            final(paging).wf(),
            final(self).base() == old(self).base(),
            Self::shared_kept(final(paging), old(paging)),
            r == old(self).make_page_result(old(paging), (virt / 4096) as int),
            r is Err ==> *final(self) == *old(self) && *final(paging) == *old(paging),
            r is Ok ==> final(self).page_made(
                old(self),
                final(paging),
                old(paging),
                (virt / 4096) as int,
                (phys / 4096) as int,
                flags,
            ),
            r is Ok ==> final(paging).invalidated@ == old(paging).invalidated@.push(
                (virt / 4096 * 4096) as u32,
            ),
            page_step(
                old(self).space(old(paging)),
                old(paging).supply(),
                (virt / 4096) as int,
                (phys / 4096) as int,
            ) == answered(r, final(self).space(final(paging))),
    {
        self.install(paging, virt, phys, flags, virt / 4096 * 4096)
    }
}

/// How many pages `map_addresses` walks for the bytes from `from` up to
/// `to`: one for every 4 KiB begun.
pub open spec fn pages_between(from: u32, to: u32) -> int {
    if to > from {
        (to - from + 4095) / 4096
    } else {
        0
    }
}

/// How many page tables the `count` pages from `first_vpn` on fall into.
pub open spec fn tables_spanned(first_vpn: int, count: int) -> int {
    if count <= 0 {
        0
    } else {
        (first_vpn + count - 1) / 1024 - first_vpn / 1024 + 1
    }
}

/// The addresses to invalidate for `count` pages from `first_vpn` on.
pub open spec fn flushes(first_vpn: int, count: int) -> Seq<u32> {
    Seq::new(count as nat, |k: int| ((first_vpn + k) * 4096) as u32)
}

impl PageDirectory {
    /// What `run_mapped` says of virtual page `vpn`.
    pub open spec fn run_page(
        &self,
        before: &PageDirectory,
        first_vpn: int,
        first_frame: int,
        count: int,
        flags: PageFlags,
        vpn: int,
    ) -> bool {
        if first_vpn <= vpn < first_vpn + count {
            &&& !before@.contains_key(vpn)
            &&& self@.contains_key(vpn)
            &&& self@[vpn] == mapped_entry(first_frame + (vpn - first_vpn), flags)
        } else {
            &&& self@.contains_key(vpn) == before@.contains_key(vpn)
            &&& self@.contains_key(vpn) ==> self@[vpn] == before@[vpn]
        }
    }

    /// `self` is `before` with the `count` pages from `first_vpn` on mapped
    /// to the frames from `first_frame` on, none of which was present
    /// before; every other page is as it was.
    pub open spec fn run_mapped(
        &self,
        before: &PageDirectory,
        first_vpn: int,
        first_frame: int,
        count: int,
        flags: PageFlags,
    ) -> bool {
        forall|vpn: int| #[trigger]
            self.run_page(before, first_vpn, first_frame, count, flags, vpn)
    }

    /// What `map_addresses` leaves after it has mapped the first `done`
    /// pages of its run.
    pub open spec fn run_state(
        &self,
        before: &PageDirectory,
        paging: &Paging,
        paging_before: &Paging,
        first_vpn: int,
        first_frame: int,
        done: int,
        flags: PageFlags,
    ) -> bool {
        &&& self.run_mapped(before, first_vpn, first_frame, done, flags)
        &&& paging.invalidated@ == paging_before.invalidated@ + flushes(first_vpn, done)
        &&& forall|i: int| 0 <= i < TABLE_ENTRIES && before.has_table(i) ==> self.has_table(i)
        &&& forall|g: int|
            0 <= g < TOTAL_FRAMES && paging_before.frames.is_used(g) ==> paging.frames.is_used(g)
        &&& forall|g: int| first_frame <= g < first_frame + done ==> paging.frames.is_used(g)
        &&& paging_before.arena.placement() <= paging.arena.placement()
        &&& paging.arena.placement() <= page_align_up(paging_before.arena.placement()) + 4096
            * tables_spanned(first_vpn, done)
        &&& paging_before.heap_ready ==> paging.arena == paging_before.arena
        &&& forall|i: int|
            0 <= i < TABLE_ENTRIES && #[trigger] self.has_table(i) && !before.has_table(i) ==> done
                > 0 && first_vpn / 1024 <= i <= (first_vpn + done - 1) / 1024
        &&& forall|i: int|
            0 <= i < TABLE_ENTRIES && (before.has_table(i) || !self.has_table(i))
                ==> #[trigger] self.entry(i) == before.entry(i)
        &&& run_step(
            before.space(paging_before),
            paging_before.supply(),
            first_vpn,
            first_frame,
            done,
        ) == Ok::<Space, PagingError>(self.space(paging))
    }

    /// What `map_addresses` leaves when `make_page` refused a page of its
    /// run with `r`: the pages before that one are mapped, and `r` is what
    /// `make_page` answers for that page in the state left.
    pub open spec fn run_stopped(
        &self,
        before: &PageDirectory,
        paging: &Paging,
        paging_before: &Paging,
        first_vpn: int,
        first_frame: int,
        count: int,
        flags: PageFlags,
        r: Result<(), PagingError>,
    ) -> bool {
        exists|k: int|
            {
                &&& 0 <= k < count
                &&& #[trigger] self.run_state(
                    before,
                    paging,
                    paging_before,
                    first_vpn,
                    first_frame,
                    k,
                    flags,
                )
                &&& self.make_page_result(paging, first_vpn + k) == r
                &&& k == 0 ==> *self == *before && *paging == *paging_before
            }
    }

    /// Whether one of the `count` pages from `first_vpn` on is present.
    pub open spec fn any_mapped(&self, first_vpn: int, count: int) -> bool {
        exists|vpn: int| first_vpn <= vpn < first_vpn + count && self@.contains_key(vpn)
    }

    /// Maps the bytes from `from` up to `to` at `virt_addr`, page by page in
    /// rising order, each as `make_page` does, and stops at the first page
    /// that `make_page` refuses. The pages before that one stay mapped.
    pub fn map_addresses(
        &mut self,
        paging: &mut Paging,
        from: u32,
        to: u32,
        virt_addr: u32,
        flags: PageFlags,
    ) -> (r: Result<(), PagingError>)
        requires
            old(self).wf(),
            old(paging).wf(),
        ensures
            final(self).wf(),
            final(paging).wf(),
            final(self).base() == old(self).base(),
            Self::shared_kept(final(paging), old(paging)),
            r is Ok ==> final(self).run_state(
                old(self),
                final(paging),
                old(paging),
                (virt_addr / 4096) as int,
                (from / 4096) as int,
                pages_between(from, to),
                flags,
            ),
            r is Err ==> final(self).run_stopped(
                old(self),
                final(paging),
                old(paging),
                (virt_addr / 4096) as int,
                (from / 4096) as int,
                pages_between(from, to),
                flags,
                r,
            ),
            r is Err ==> pages_between(from, to) > 0,
            r == Err::<(), PagingError>(PagingError::ReservedWindow) ==> virt_addr / 4096
                + pages_between(from, to) > WINDOW_PAGE,
            r == Err::<(), PagingError>(PagingError::AlreadyMapped) ==> old(self).any_mapped(
                (virt_addr / 4096) as int,
                pages_between(from, to),
            ),
            r == Err::<(), PagingError>(PagingError::OutOfFrames) ==> old(paging).heap_ready,
            r == Err::<(), PagingError>(PagingError::OutOfArena) ==> !old(paging).heap_ready
                && page_align_up(old(paging).arena.placement()) + 4096 * tables_spanned(
                (virt_addr / 4096) as int,
                pages_between(from, to),
            ) > old(paging).arena.limit(),
            run_step(
                old(self).space(old(paging)),
                old(paging).supply(),
                (virt_addr / 4096) as int,
                (from / 4096) as int,
                pages_between(from, to),
            ) == answered(r, final(self).space(final(paging))),
    {
        let count: u64 = if to > from {
            (to as u64 - from as u64 + 4095) / 4096
        } else {
            0
        };
        let ghost first_vpn = (virt_addr / 4096) as int;
        let ghost first_frame = (from / 4096) as int;
        let ghost top = page_align_up(old(paging).arena.placement());
        let mut k: u64 = 0;
        proof {
            assert(paging.invalidated@ =~= old(paging).invalidated@ + flushes(first_vpn, 0));
        }
        while k < count
            invariant
                k <= count,
                count == pages_between(from, to),
                count <= 0x100000,
                first_vpn == virt_addr / 4096,
                first_frame == from / 4096,
                first_frame + count <= 0x100000,
                top == page_align_up(old(paging).arena.placement()),
                self.wf(),
                paging.wf(),
                self.base() == old(self).base(),
                Self::shared_kept(paging, old(paging)),
                self.run_state(old(self), paging, old(paging), first_vpn, first_frame, k as int, flags),
                k > 0 ==> self.has_table((first_vpn + k - 1) / 1024),
                k == 0 ==> *self == *old(self) && *paging == *old(paging),
            decreases count - k,
        {
            let virt: u64 = virt_addr as u64 + k * 4096;
            let phys: u64 = from as u64 + k * 4096;
            let ghost start = old(self).space(old(paging));
            let ghost supply = old(paging).supply();
            if virt > u32::MAX as u64 {
                proof {
                    assert(run_step(start, supply, first_vpn, first_frame, k as int + 1) == Err::<
                        Space,
                        PagingError,
                    >(PagingError::ReservedWindow));
                    lemma_run_refused(
                        start,
                        supply,
                        first_vpn,
                        first_frame,
                        k as int + 1,
                        count as int,
                    );
                }
                return Err(PagingError::ReservedWindow);
            }
            let ghost prev = *self;
            let ghost prev_paging = *paging;
            let r = self.make_page(paging, virt as u32, phys as u32, flags);
            match r {
                Err(e) => {
                    proof {
                        assert(virt as u32 / 4096 == first_vpn + k);
                        assert(phys as u32 / 4096 == first_frame + k);
                        assert(paging.supply() == supply);
                        assert(run_step(start, supply, first_vpn, first_frame, k as int + 1)
                            == Err::<Space, PagingError>(e));
                        lemma_run_refused(
                            start,
                            supply,
                            first_vpn,
                            first_frame,
                            k as int + 1,
                            count as int,
                        );
                        if e == PagingError::AlreadyMapped {
                            let vpn = first_vpn + k;
                            assert(self.run_page(
                                old(self),
                                first_vpn,
                                first_frame,
                                k as int,
                                flags,
                                vpn,
                            ));
                            assert(old(self)@.contains_key(vpn));
                        }
                        if e == PagingError::OutOfArena {
                            assert(!self.has_table((first_vpn + k) / 1024));
                            assert(tables_spanned(first_vpn, k as int + 1) == tables_spanned(
                                first_vpn,
                                k as int,
                            ) + 1);
                            assert(tables_spanned(first_vpn, k as int + 1) <= tables_spanned(
                                first_vpn,
                                count as int,
                            ));
                            assert(4096 * tables_spanned(first_vpn, k as int + 1) <= 4096
                                * tables_spanned(first_vpn, count as int)) by (nonlinear_arith)
                                requires
                                    tables_spanned(first_vpn, k as int + 1) <= tables_spanned(
                                        first_vpn,
                                        count as int,
                                    ),
                            ;
                        }
                    }
                    return Err(e);
                },
                Ok(()) => {},
            }
            proof {
                let vpn = first_vpn + k;
                assert(virt as u32 / 4096 == vpn);
                assert(phys as u32 / 4096 == first_frame + k);
                assert(self@ == prev@.insert(vpn, mapped_entry(first_frame + k, flags)));
                assert(flushes(first_vpn, k as int).push((vpn * 4096) as u32) =~= flushes(
                    first_vpn,
                    k as int + 1,
                ));
                assert(paging.invalidated@ =~= old(paging).invalidated@ + flushes(
                    first_vpn,
                    k as int + 1,
                ));
                assert forall|v: int| #[trigger]
                    self.run_page(old(self), first_vpn, first_frame, k as int + 1, flags, v) by {
                    assert(prev.run_page(old(self), first_vpn, first_frame, k as int, flags, v));
                    if v == vpn {
                        assert(!prev@.contains_key(vpn));
                    }
                }
                assert(self.run_mapped(old(self), first_vpn, first_frame, k as int + 1, flags));
                assert(prev_paging.supply() == supply);
                assert(run_step(start, supply, first_vpn, first_frame, k as int + 1) == Ok::<
                    Space,
                    PagingError,
                >(self.space(paging)));
                if prev.has_table(vpn / 1024) {
                    assert(tables_spanned(first_vpn, k as int) <= tables_spanned(
                        first_vpn,
                        k as int + 1,
                    ));
                } else {
                    assert(tables_spanned(first_vpn, k as int + 1) == tables_spanned(
                        first_vpn,
                        k as int,
                    ) + 1);
                }
            }
            k += 1;
        }
        Ok(())
    }

    /// Maps the bytes from `start` up to `end` onto themselves, as
    /// `map_addresses` does.
    pub fn identity_map(&mut self, paging: &mut Paging, start: u32, end: u32, flags: PageFlags) -> (r:
        Result<(), PagingError>)
        requires
            old(self).wf(),
            old(paging).wf(),
        ensures
            final(self).wf(),
            final(paging).wf(),
            final(self).base() == old(self).base(),
            Self::shared_kept(final(paging), old(paging)),
            r is Ok ==> final(self).run_state(
                old(self),
                final(paging),
                old(paging),
                (start / 4096) as int,
                (start / 4096) as int,
                pages_between(start, end),
                flags,
            ),
            r is Err ==> final(self).run_stopped(
                old(self),
                final(paging),
                old(paging),
                (start / 4096) as int,
                (start / 4096) as int,
                pages_between(start, end),
                flags,
                r,
            ),
            r is Err ==> pages_between(start, end) > 0,
            r == Err::<(), PagingError>(PagingError::ReservedWindow) ==> start / 4096
                + pages_between(start, end) > WINDOW_PAGE,
            r == Err::<(), PagingError>(PagingError::AlreadyMapped) ==> old(self).any_mapped(
                (start / 4096) as int,
                pages_between(start, end),
            ),
            r == Err::<(), PagingError>(PagingError::OutOfFrames) ==> old(paging).heap_ready,
            r == Err::<(), PagingError>(PagingError::OutOfArena) ==> !old(paging).heap_ready
                && page_align_up(old(paging).arena.placement()) + 4096 * tables_spanned(
                (start / 4096) as int,
                pages_between(start, end),
            ) > old(paging).arena.limit(),
            run_step(
                old(self).space(old(paging)),
                old(paging).supply(),
                (start / 4096) as int,
                (start / 4096) as int,
                pages_between(start, end),
            ) == answered(r, final(self).space(final(paging))),
    {
        self.map_addresses(paging, start, end, start, flags)
    }
}

/// Bytes the kernel's directory takes in the bump arena: two arrays of 1024
/// words and one more word.
pub const DIRECTORY_BYTES: u32 = 8196;

/// Bytes the frame bitmap takes in the bump arena.
pub const BITMAP_BYTES: u32 = 131072;

/// Bytes kept in the bump arena for page tables: 1024 tables of 4 KiB.
pub const TABLE_POOL_BYTES: u32 = 0x400000;

/// The flags of the kernel's own mappings: writable, not for ring 3.
pub open spec fn kernel_flags() -> PageFlags {
    PageFlags { bits: RW }
}

impl KernelLayout {
    /// Number of the page in which the image begins.
    pub open spec fn first_page(&self) -> int {
        (self.load_addr / 4096) as int
    }

    /// Pages the image takes, counted from the start of its first page.
    pub open spec fn page_count(&self) -> int {
        pages_between((self.load_addr / 4096 * 4096) as u32, self.end_addr)
    }
}

/// Pages of low memory and of the bump arena that the kernel maps onto
/// themselves: all from page 1 up to the arena's limit.
pub open spec fn low_page_count(arena_limit: int) -> int {
    pages_between(0x1000, arena_limit as u32)
}

impl PageDirectory {
    /// Whether `vpn` is a page of low memory or of the bump arena, page 0
    /// left out, or a page of the kernel image.
    pub open spec fn is_kernel_page(layout: KernelLayout, arena_limit: int, vpn: int) -> bool {
        ||| 1 <= vpn < 1 + low_page_count(arena_limit)
        ||| layout.first_page() <= vpn < layout.first_page() + layout.page_count()
    }

    /// Every kernel page is mapped onto the frame of its own number,
    /// writable and not for ring 3.
    pub open spec fn kernel_mapped(&self, layout: KernelLayout, arena_limit: int) -> bool {
        forall|vpn: int| #[trigger]
            Self::is_kernel_page(layout, arena_limit, vpn) ==> self@.contains_key(vpn) && self@[vpn]
                == mapped_entry(vpn, kernel_flags())
    }

    /// `self` is what `map_kernel` makes of `before` when both of its runs
    /// succeed, by way of the state `mid` between them.
    pub open spec fn kernel_runs(
        &self,
        before: &PageDirectory,
        mid: &PageDirectory,
        paging: &Paging,
        paging_mid: &Paging,
        paging_before: &Paging,
        layout: KernelLayout,
    ) -> bool {
        &&& mid.run_state(
            before,
            paging_mid,
            paging_before,
            1,
            1,
            low_page_count(paging_before.arena.limit()),
            kernel_flags(),
        )
        &&& self.run_state(
            mid,
            paging,
            paging_mid,
            layout.first_page(),
            layout.first_page(),
            layout.page_count(),
            kernel_flags(),
        )
    }

    /// `self` is what `map_kernel` leaves of `before` when it stops with the
    /// error `r`: in its first run, or in its second by way of the state
    /// `mid` between them.
    pub open spec fn kernel_stopped(
        &self,
        before: &PageDirectory,
        mid: &PageDirectory,
        paging: &Paging,
        paging_mid: &Paging,
        paging_before: &Paging,
        layout: KernelLayout,
        r: Result<(), PagingError>,
    ) -> bool {
        ||| self.run_stopped(
            before,
            paging,
            paging_before,
            1,
            1,
            low_page_count(paging_before.arena.limit()),
            kernel_flags(),
            r,
        )
        ||| {
            &&& mid.run_state(
                before,
                paging_mid,
                paging_before,
                1,
                1,
                low_page_count(paging_before.arena.limit()),
                kernel_flags(),
            )
            &&& self.run_stopped(
                mid,
                paging,
                paging_mid,
                layout.first_page(),
                layout.first_page(),
                layout.page_count(),
                kernel_flags(),
                r,
            )
        }
    }

    /// Whether a kernel page of `layout` lies in low memory or in the arena.
    pub open spec fn image_overlaps_low(layout: KernelLayout, arena_limit: int) -> bool {
        &&& layout.page_count() > 0
        &&& layout.first_page() < 1 + low_page_count(arena_limit)
        &&& 1 < layout.first_page() + layout.page_count()
    }

    /// Maps the kernel's own addresses onto themselves, writable and not for
    /// ring 3: first low memory and the bump arena, from page 1 up to the
    /// arena's limit, then the kernel image from the start of its first
    /// page. Stops at the first page that `make_page` refuses.
    pub fn map_kernel(&mut self, paging: &mut Paging, layout: &KernelLayout) -> (r: Result<
        (),
        PagingError,
    >)
        requires
            old(self).wf(),
            old(paging).wf(),
        ensures
            final(self).wf(),
            final(paging).wf(),
            final(self).base() == old(self).base(),
            Self::shared_kept(final(paging), old(paging)),
            r is Ok ==> final(self).kernel_mapped(*layout, old(paging).arena.limit()),
            r is Ok ==> exists|mid: PageDirectory, paging_mid: Paging| #[trigger]
                final(self).kernel_runs(
                    old(self),
                    &mid,
                    final(paging),
                    &paging_mid,
                    old(paging),
                    *layout,
                ),
            r is Err ==> exists|mid: PageDirectory, paging_mid: Paging| #[trigger]
                final(self).kernel_stopped(
                    old(self),
                    &mid,
                    final(paging),
                    &paging_mid,
                    old(paging),
                    *layout,
                    r,
                ),
            r == Err::<(), PagingError>(PagingError::ReservedWindow) ==> 1 + low_page_count(
                old(paging).arena.limit(),
            ) > WINDOW_PAGE || (layout.page_count() > 0 && layout.first_page() + layout.page_count()
                > WINDOW_PAGE),
            r == Err::<(), PagingError>(PagingError::AlreadyMapped) ==> {
                ||| old(self).any_mapped(1, low_page_count(old(paging).arena.limit()))
                ||| old(self).any_mapped(layout.first_page(), layout.page_count())
                ||| Self::image_overlaps_low(*layout, old(paging).arena.limit())
            },
            r == Err::<(), PagingError>(PagingError::OutOfFrames) ==> old(paging).heap_ready,
            r == Err::<(), PagingError>(PagingError::OutOfArena) ==> !old(paging).heap_ready
                && page_align_up(old(paging).arena.placement()) + 4096 * (tables_spanned(
                1,
                low_page_count(old(paging).arena.limit()),
            ) + tables_spanned(layout.first_page(), layout.page_count())) > old(paging).arena.limit(),
            kernel_result(old(self).space(old(paging)), old(paging).supply(), *layout) == answered(
                r,
                final(self).space(final(paging)),
            ),
    {
        let flags = PageFlags::from_bits_retain(RW);
        let limit = paging.arena.heap_end();
        let ghost low = low_page_count(limit as int);
        let first = self.map_addresses(paging, 0x1000, limit, 0x1000, flags);
        let ghost mid = *self;
        let ghost paging_mid = *paging;
        match first {
            Err(e) => {
                proof {
                    assert(self.kernel_stopped(
                        old(self),
                        &mid,
                        paging,
                        &paging_mid,
                        old(paging),
                        *layout,
                        first,
                    ));
                    if e == PagingError::OutOfArena {
                        assert(4096 * tables_spanned(1, low) <= 4096 * (tables_spanned(1, low)
                            + tables_spanned(layout.first_page(), layout.page_count())))
                            by (nonlinear_arith)
                            requires
                                tables_spanned(layout.first_page(), layout.page_count()) >= 0,
                        ;
                    }
                }
                return Err(e);
            },
            Ok(()) => {},
        }
        let start = layout.load_addr / 4096 * 4096;
        let second = self.map_addresses(paging, start, layout.end_addr, start, flags);
        proof {
            let kfirst = layout.first_page();
            let kcount = layout.page_count();
            assert(start / 4096 == kfirst);
            match second {
                Err(e) => {
                    assert(self.kernel_stopped(
                        old(self),
                        &mid,
                        paging,
                        &paging_mid,
                        old(paging),
                        *layout,
                        second,
                    ));
                    if e == PagingError::AlreadyMapped {
                        let vpn = choose|vpn: int|
                            kfirst <= vpn < kfirst + kcount && mid@.contains_key(vpn);
                        assert(mid.run_page(old(self), 1, 1, low, flags, vpn));
                    }
                    if e == PagingError::OutOfArena {
                        let a = page_align_up(old(paging).arena.placement());
                        let b = page_align_up(paging_mid.arena.placement());
                        assert(b <= a + 4096 * tables_spanned(1, low));
                        assert(a + 4096 * (tables_spanned(1, low) + tables_spanned(kfirst, kcount))
                            == a + 4096 * tables_spanned(1, low) + 4096 * tables_spanned(
                            kfirst,
                            kcount,
                        )) by (nonlinear_arith);
                    }
                },
                Ok(()) => {
                    assert(self.kernel_runs(
                        old(self),
                        &mid,
                        paging,
                        &paging_mid,
                        old(paging),
                        *layout,
                    ));
                    assert forall|vpn: int| #[trigger]
                        Self::is_kernel_page(*layout, limit as int, vpn) implies self@.contains_key(
                        vpn,
                    ) && self@[vpn] == mapped_entry(vpn, kernel_flags()) by {
                        assert(mid.run_page(old(self), 1, 1, low, flags, vpn));
                        assert(self.run_page(&mid, kfirst, kfirst, kcount, flags, vpn));
                    }
                },
            }
        }
        second
    }

    /// Whether a page of low memory, of the bump arena or of the kernel
    /// image lies in the slot `i`.
    pub open spec fn slot_of_kernel(layout: KernelLayout, arena_limit: int, i: int) -> bool {
        exists|vpn: int| #[trigger] Self::is_kernel_page(layout, arena_limit, vpn) && vpn / 1024 == i
    }

    /// The space of a directory with nothing mapped in it.
    pub open spec fn fresh_space(paging: &Paging) -> Space {
        Space {
            pages: Set::empty(),
            tables: Set::empty(),
            used: paging.frames.used_set(),
            placement: paging.arena.placement(),
        }
    }

    /// What every well-formed directory has in its slots: slot 1023 refers
    /// to the directory itself, slot 1022 is empty, neither holds a table
    /// of the directory's own, and each of the other slots is zero or a
    /// present link to a table.
    pub proof fn lemma_slots(&self)
        requires
            self.wf(),
        ensures
            self.entry(RECURSIVE_SLOT as int) == (self.base() | RW | PRESENT),
            self.entry(FOREIGN_SLOT as int) == 0,
            !self.has_table(FOREIGN_SLOT as int),
            !self.has_table(RECURSIVE_SLOT as int),
            forall|i: int|
                0 <= i < FOREIGN_SLOT ==> (#[trigger] self.has_table(i) <==> bit_is_set(
                    self.entry(i),
                    0,
                )),
            forall|i: int| 0 <= i < FOREIGN_SLOT && !self.has_table(i) ==> #[trigger] self.entry(i) == 0,
    {
    }

    /// A new directory at physical address `base` with the kernel mapped, or
    /// the error that stopped `map_kernel`.
    pub fn new(base: u32, paging: &mut Paging, layout: &KernelLayout) -> (r: Result<
        PageDirectory,
        PagingError,
    >)
        requires
            base % 4096 == 0,
            old(paging).wf(),
        ensures
            final(paging).wf(),
            Self::shared_kept(final(paging), old(paging)),
            r matches Ok(dir) ==> {
                &&& dir.wf()
                &&& dir.base() == base
                &&& dir.kernel_mapped(*layout, old(paging).arena.limit())
                &&& forall|vpn: int|
                    dir@.contains_key(vpn) ==> Self::is_kernel_page(
                        *layout,
                        old(paging).arena.limit(),
                        vpn,
                    )
                &&& dir.entry(RECURSIVE_SLOT as int) == (base | RW | PRESENT)
                &&& dir.entry(FOREIGN_SLOT as int) == 0
                &&& !dir.has_table(FOREIGN_SLOT as int)
                &&& !dir.has_table(RECURSIVE_SLOT as int)
                &&& forall|i: int|
                    0 <= i < FOREIGN_SLOT && #[trigger] dir.has_table(i) ==> Self::slot_of_kernel(
                        *layout,
                        old(paging).arena.limit(),
                        i,
                    )
                &&& forall|i: int|
                    0 <= i < FOREIGN_SLOT && !dir.has_table(i) ==> #[trigger] dir.entry(i) == 0
            },
            kernel_result(Self::fresh_space(old(paging)), old(paging).supply(), *layout) == match r {
                Ok(dir) => Ok::<Space, PagingError>(dir.space(final(paging))),
                Err(e) => Err::<Space, PagingError>(e),
            },
            r matches Err(e) ==> exists|
                fresh: PageDirectory,
                mid: PageDirectory,
                paging_mid: Paging,
                stopped: PageDirectory,
            |
                fresh@ == Map::<int, PageView>::empty() && fresh.base() == base
                    && #[trigger] stopped.kernel_stopped(
                    &fresh,
                    &mid,
                    final(paging),
                    &paging_mid,
                    old(paging),
                    *layout,
                    Err::<(), PagingError>(e),
                ),
            r == Err::<PageDirectory, PagingError>(PagingError::ReservedWindow) ==> 1
                + low_page_count(old(paging).arena.limit()) > WINDOW_PAGE || (layout.page_count()
                > 0 && layout.first_page() + layout.page_count() > WINDOW_PAGE),
            r == Err::<PageDirectory, PagingError>(PagingError::AlreadyMapped)
                ==> Self::image_overlaps_low(*layout, old(paging).arena.limit()),
            r == Err::<PageDirectory, PagingError>(PagingError::OutOfFrames) ==> old(paging).heap_ready,
            r == Err::<PageDirectory, PagingError>(PagingError::OutOfArena) ==> !old(paging).heap_ready && page_align_up(old(paging).arena.placement()) + 4096 * (tables_spanned(
                1,
                low_page_count(old(paging).arena.limit()),
            ) + tables_spanned(layout.first_page(), layout.page_count())) > old(paging).arena.limit(),
    {
        proof {
            assert(base & 0xFFF == 0) by (bit_vector)
                requires
                    base % 4096 == 0,
            ;
        }
        let mut dir = PageDirectory::empty(base);
        let ghost fresh = dir;
        proof {
            assert(fresh.space(old(paging)).pages =~= Set::<int>::empty());
            assert(fresh.space(old(paging)).tables =~= Set::<int>::empty());
        }
        match dir.map_kernel(paging, layout) {
            Ok(()) => {
                proof {
                    let limit = old(paging).arena.limit();
                    let (mid, paging_mid) = choose|mid: PageDirectory, paging_mid: Paging| #[trigger]
                        dir.kernel_runs(&fresh, &mid, paging, &paging_mid, old(paging), *layout);
                    let low = low_page_count(limit);
                    let kfirst = layout.first_page();
                    let kcount = layout.page_count();
                    assert forall|i: int| 0 <= i < FOREIGN_SLOT && #[trigger] dir.has_table(
                        i,
                    ) implies Self::slot_of_kernel(*layout, limit, i) by {
                        if mid.has_table(i) {
                            let vpn = if i * 1024 >= 1 {
                                i * 1024
                            } else {
                                1
                            };
                            assert(Self::is_kernel_page(*layout, limit, vpn) && vpn / 1024 == i);
                        } else {
                            let vpn = if i * 1024 >= kfirst {
                                i * 1024
                            } else {
                                kfirst
                            };
                            assert(Self::is_kernel_page(*layout, limit, vpn) && vpn / 1024 == i);
                        }
                    }
                    assert forall|vpn: int| dir@.contains_key(vpn) implies Self::is_kernel_page(
                        *layout,
                        limit,
                        vpn,
                    ) by {
                        assert(mid.run_page(
                            &fresh,
                            1,
                            1,
                            low_page_count(limit),
                            kernel_flags(),
                            vpn,
                        ));
                        assert(dir.run_page(
                            &mid,
                            layout.first_page(),
                            layout.first_page(),
                            layout.page_count(),
                            kernel_flags(),
                            vpn,
                        ));
                    }
                }
                Ok(dir)
            },
            Err(e) => {
                proof {
                    let (mid, paging_mid) = choose|mid: PageDirectory, paging_mid: Paging| #[trigger]
                        dir.kernel_stopped(
                            &fresh,
                            &mid,
                            paging,
                            &paging_mid,
                            old(paging),
                            *layout,
                            Err::<(), PagingError>(e),
                        );
                    assert(fresh@ == Map::<int, PageView>::empty() && fresh.base() == base
                        && dir.kernel_stopped(
                        &fresh,
                        &mid,
                        paging,
                        &paging_mid,
                        old(paging),
                        *layout,
                        Err::<(), PagingError>(e),
                    ));
                }
                Err(e)
            },
        }
    }

    /// Makes `self` the active directory: its physical base goes to the
    /// page-base register, and translation is on from then.
    pub fn switch_to(&self, paging: &mut Paging)
        ensures
            final(paging).current == self.base(),
            final(paging).enabled,
            final(paging).frames == old(paging).frames,
            final(paging).arena == old(paging).arena,
            final(paging).heap_ready == old(paging).heap_ready,
            final(paging).invalidated == old(paging).invalidated,
    {
        paging.current = self.base;
        paging.enabled = true;
    }

    /// The address of the first 4 MiB region below the two windows that has
    /// no page table yet, or `None` if every such region has one.
    pub fn get_free_page(&self) -> (r: Option<u32>)
        requires
            self.wf(),
        ensures
            match r {
                Some(addr) => {
                    &&& addr % 0x400000 == 0
                    &&& addr / 0x400000 < FOREIGN_SLOT
                    &&& !self.has_table((addr / 0x400000) as int)
                    &&& forall|i: int| 0 <= i < addr / 0x400000 ==> self.has_table(i)
                },
                None => forall|i: int| 0 <= i < FOREIGN_SLOT ==> self.has_table(i),
            },
    {
        let mut i: usize = 0;
        while i < FOREIGN_SLOT
            invariant
                self.wf(),
                i <= FOREIGN_SLOT,
                forall|k: int| 0 <= k < i ==> self.has_table(k),
            decreases FOREIGN_SLOT - i,
        {
            if self.page_tables[i].is_none() {
                return Some((i * 0x400000) as u32);
            }
            i += 1;
        }
        None
    }
}

/// The limit of the bump arena once `init` has fixed it: the directory and
/// the bitmap from `ARENA_START` on, then, from the next page boundary, the
/// pool for page tables.
pub const ARENA_LIMIT: u32 = 0x523000;

/// Where the heap begins: the first page boundary past the bump arena.
pub const HEAP_BASE: u32 = 0x523000;

impl KernelLayout {
    /// Whether the image can be mapped beside low memory and the bump
    /// arena: it is empty, or its pages share none with them and end below
    /// the two windows.
    pub open spec fn fits(&self) -> bool {
        self.page_count() > 0 ==> {
            &&& self.first_page() + self.page_count() <= WINDOW_PAGE
            &&& (self.first_page() + self.page_count() <= 1 || self.first_page() >= HEAP_BASE
                / 4096)
        }
    }
}

/// Why `init` fails when it does: low memory and the arena are mapped
/// without a hitch in a fresh directory, so it is a page of the image that
/// is refused; that page lies in low memory or the arena, or in the
/// windows, and the arena has room for every table below the windows.
pub proof fn lemma_init_error(
    kernel_dir: &PageDirectory,
    fresh: &PageDirectory,
    mid: &PageDirectory,
    paging: &Paging,
    paging_mid: &Paging,
    paging_fresh: &Paging,
    layout: KernelLayout,
    mapped: Result<(), PagingError>,
)
    requires
        fresh@ == Map::<int, PageView>::empty(),
        paging_fresh.arena.placement() == 0x122004,
        paging_fresh.arena.limit() == ARENA_LIMIT,
        !paging_fresh.heap_ready,
        PageDirectory::shared_kept(paging, paging_fresh),
        mapped is Err,
        kernel_dir.kernel_stopped(fresh, mid, paging, paging_mid, paging_fresh, layout, mapped),
    ensures
        !layout.fits(),
        mapped == Err::<(), PagingError>(
            if PageDirectory::image_overlaps_low(layout, ARENA_LIMIT as int) {
                PagingError::AlreadyMapped
            } else {
                PagingError::ReservedWindow
            },
        ),
{
    let kfirst = layout.first_page();
    let kcount = layout.page_count();
    let low = low_page_count(ARENA_LIMIT as int);
    let top = page_align_up(paging_fresh.arena.placement());
    assert(low == 0x522);
    assert(top == 0x123000);
    if kernel_dir.run_stopped(fresh, paging, paging_fresh, 1, 1, low, kernel_flags(), mapped) {
        let k = choose|k: int|
            0 <= k < low && #[trigger] kernel_dir.run_state(
                fresh,
                paging,
                paging_fresh,
                1,
                1,
                k,
                kernel_flags(),
            ) && kernel_dir.make_page_result(paging, 1 + k) == mapped;
        assert(kernel_dir.run_page(fresh, 1, 1, k, kernel_flags(), 1 + k));
        assert(tables_spanned(1, k) <= 2);
        assert(false);
    } else {
        let k = choose|k: int|
            0 <= k < kcount && #[trigger] kernel_dir.run_state(
                mid,
                paging,
                paging_mid,
                kfirst,
                kfirst,
                k,
                kernel_flags(),
            ) && kernel_dir.make_page_result(paging, kfirst + k) == mapped;
        let vpn = kfirst + k;
        assert(kernel_dir.run_page(mid, kfirst, kfirst, k, kernel_flags(), vpn));
        assert(mid.run_page(fresh, 1, 1, low, kernel_flags(), vpn));
        assert(tables_spanned(1, low) == 2);
        assert(page_align_up(paging_mid.arena.placement()) <= top + 4096 * 2);
        // Every page of the image before this one was mapped, so none of
        // them lies in low memory or the arena.
        if kfirst < 1 + low && k > 0 {
            let shared = if kfirst >= 1 {
                kfirst
            } else {
                1
            };
            if shared < kfirst + k {
                assert(kernel_dir.run_page(mid, kfirst, kfirst, k, kernel_flags(), shared));
                assert(mid.run_page(fresh, 1, 1, low, kernel_flags(), shared));
                assert(false);
            }
        }
        if vpn < WINDOW_PAGE {
            if kfirst < 1 + low {
                assert(tables_spanned(kfirst, k) <= 1);
            } else {
                assert(tables_spanned(kfirst, k) <= 1021);
            }
            assert(paging.arena.placement() <= top + 4096 * 2 + 4096 * 1021);
            assert(paging.arena.can_take(4096, true));
        }
    }
}

/// Where the frames of page tables come from while the kernel boots: the
/// bump arena, up to its limit.
pub open spec fn boot_supply() -> Supply {
    Supply { heap_ready: false, reserved: (HEAP_BASE / 4096) as int, limit: ARENA_LIMIT as int }
}

/// The space of the kernel's directory after `init`, or why `init` fails:
/// the kernel mapped in an empty space with frame 0 marked and the arena
/// behind the directory and the bitmap.
pub open spec fn boot_space(layout: KernelLayout) -> Result<Space, PagingError> {
    kernel_result(
        Space {
            pages: Set::empty(),
            tables: Set::empty(),
            used: Set::<int>::empty().insert(0),
            placement: 0x122004,
        },
        boot_supply(),
        layout,
    )
}

/// What `init` hands back: the shared paging state, the kernel's directory,
/// and the address at which the heap is to begin.
pub struct Booted {
    pub paging: Paging,
    pub kernel_dir: PageDirectory,
    pub heap_start: u32,
}

/// Sets paging up and switches it on.
///
/// The kernel's directory and the frame bitmap are taken from a fresh bump
/// arena, whose limit is then fixed behind a pool for 1024 page tables. The
/// frames below that limit are reserved, the kernel is mapped as
/// `map_kernel` does, and the directory is made active. The heap begins at
/// the limit, which is a page boundary. An image that does not fit beside
/// low memory and the arena is the one cause of an error: one that shares
/// a page with them is refused as mapped already, and any other as
/// reaching into the windows.
pub fn init(layout: &KernelLayout) -> (r: Result<Booted, PagingError>)
    ensures
        r is Ok <==> layout.fits(),
        r matches Ok(b) ==> {
            &&& b.paging.wf()
            &&& b.kernel_dir.wf()
            &&& b.kernel_dir.base() == ARENA_START
            &&& b.paging.current == ARENA_START
            &&& b.paging.enabled
            &&& !b.paging.heap_ready
            &&& b.paging.arena.limit() == ARENA_LIMIT
            &&& b.heap_start == page_align_up(b.paging.arena.limit())
            &&& b.heap_start == HEAP_BASE
            &&& b.paging.frames.reserved() == HEAP_BASE / 4096
            &&& b.kernel_dir.kernel_mapped(*layout, ARENA_LIMIT as int)
            &&& forall|vpn: int|
                b.kernel_dir@.contains_key(vpn) ==> PageDirectory::is_kernel_page(
                    *layout,
                    ARENA_LIMIT as int,
                    vpn,
                )
            &&& forall|g: int| 0 <= g < HEAP_BASE / 4096 ==> b.paging.frames.is_used(g)
            &&& forall|g: int|
                layout.first_page() <= g < layout.first_page() + layout.page_count()
                    ==> b.paging.frames.is_used(g)
        },
        boot_space(*layout) == match r {
            Ok(b) => Ok::<Space, PagingError>(b.kernel_dir.space(&b.paging)),
            Err(e) => Err::<Space, PagingError>(e),
        },
        r matches Err(e) ==> e == if PageDirectory::image_overlaps_low(
            *layout,
            ARENA_LIMIT as int,
        ) {
            PagingError::AlreadyMapped
        } else {
            PagingError::ReservedWindow
        },
{
    let mut arena = BumpArena::new();
    let dir_addr = arena.kmalloc(DIRECTORY_BYTES, true);
    let _bitmap_addr = arena.kmalloc(BITMAP_BYTES, false);
    let used = arena.placement_addr();
    let gap = if used % 4096 == 0 {
        0
    } else {
        4096 - used % 4096
    };
    arena.seal(gap + TABLE_POOL_BYTES);
    let limit = arena.heap_end();
    let heap_start = if limit % 4096 == 0 {
        limit
    } else {
        limit - limit % 4096 + 4096
    };
    let mut frames = FramesUsage::new((heap_start / 4096) as usize);
    frames.set_frame_used(0, true);
    let mut paging = Paging::new(frames, arena);
    proof {
        assert(dir_addr & 0xFFF == 0) by (bit_vector)
            requires
                dir_addr == 0x100000u32,
        ;
    }
    let mut kernel_dir = PageDirectory::empty(dir_addr);
    let ghost fresh = kernel_dir;
    let ghost paging_fresh = paging;
    proof {
        assert(fresh.space(&paging_fresh).pages =~= Set::<int>::empty());
        assert(fresh.space(&paging_fresh).tables =~= Set::<int>::empty());
        assert(fresh.space(&paging_fresh).used =~= Set::<int>::empty().insert(0));
        assert(paging_fresh.supply() == boot_supply());
    }
    let mapped = kernel_dir.map_kernel(&mut paging, layout);
    proof {
        let kfirst = layout.first_page();
        let kcount = layout.page_count();
        let low = low_page_count(ARENA_LIMIT as int);
        assert(low == 0x522);
        assert(!fresh.any_mapped(1, low));
        assert(!fresh.any_mapped(kfirst, kcount));
        match mapped {
            Ok(()) => {
                let (mid, paging_mid) = choose|mid: PageDirectory, paging_mid: Paging| #[trigger]
                    kernel_dir.kernel_runs(
                        &fresh,
                        &mid,
                        &paging,
                        &paging_mid,
                        &paging_fresh,
                        *layout,
                    );
                assert forall|vpn: int| kernel_dir@.contains_key(vpn) implies #[trigger]
                    PageDirectory::is_kernel_page(*layout, ARENA_LIMIT as int, vpn) by {
                    assert(mid.run_page(&fresh, 1, 1, low, kernel_flags(), vpn));
                    assert(kernel_dir.run_page(&mid, kfirst, kfirst, kcount, kernel_flags(), vpn));
                }
                if kcount > 0 {
                    let last = kfirst + kcount - 1;
                    assert(kernel_dir.run_page(&mid, kfirst, kfirst, kcount, kernel_flags(), last));
                    assert(kernel_dir.maps(last));
                    if kfirst < 1 + low && 1 < kfirst + kcount {
                        let both = if kfirst >= 1 {
                            kfirst
                        } else {
                            1
                        };
                        assert(mid.run_page(&fresh, 1, 1, low, kernel_flags(), both));
                        assert(kernel_dir.run_page(
                            &mid,
                            kfirst,
                            kfirst,
                            kcount,
                            kernel_flags(),
                            both,
                        ));
                    }
                }
                assert(layout.fits());
            },
            Err(e) => {
                let (mid, paging_mid) = choose|mid: PageDirectory, paging_mid: Paging| #[trigger]
                    kernel_dir.kernel_stopped(
                        &fresh,
                        &mid,
                        &paging,
                        &paging_mid,
                        &paging_fresh,
                        *layout,
                        mapped,
                    );
                lemma_init_error(
                    &kernel_dir,
                    &fresh,
                    &mid,
                    &paging,
                    &paging_mid,
                    &paging_fresh,
                    *layout,
                    mapped,
                );
            },
        }
    }
    match mapped {
        Ok(()) => {
            kernel_dir.switch_to(&mut paging);
            Ok(Booted { paging, kernel_dir, heap_start })
        },
        Err(e) => Err(e),
    }
}

impl PageDirectory {
    /// The frame that the table in slot `i` lives in.
    pub open spec fn table_frame(&self, i: int) -> int {
        (self.entry(i) >> 12) as int
    }

    /// Whether one of the tables in the slots below `upto` lives in frame
    /// `frame` and at or above the address `watermark`.
    pub open spec fn table_above(&self, watermark: int, frame: int, upto: int) -> bool {
        exists|i: int|
            0 <= i < upto && #[trigger] self.has_table(i) && self.table_frame(i) == frame && frame
                * 4096 >= watermark
    }

    /// Gives the directory up: the frame of each of its own page tables
    /// that lies at or above the bump arena's limit is marked free. The
    /// frames behind its pages are not touched.
    pub fn teardown(self, paging: &mut Paging)
        requires
            self.wf(),
            old(paging).wf(),
        ensures
            final(paging).wf(),
            Self::shared_kept(final(paging), old(paging)),
            final(paging).arena == old(paging).arena,
            final(paging).invalidated == old(paging).invalidated,
            forall|g: int|
                0 <= g < TOTAL_FRAMES ==> final(paging).frames.is_used(g) == (old(paging).frames.is_used(g) && !self.table_above(
                    old(paging).arena.limit(),
                    g,
                    FOREIGN_SLOT as int,
                )),
    {
        let watermark = paging.arena.heap_end();
        let mut i: usize = 0;
        while i < FOREIGN_SLOT
            invariant
                self.wf(),
                paging.wf(),
                i <= FOREIGN_SLOT,
                watermark == old(paging).arena.limit(),
                Self::shared_kept(paging, old(paging)),
                paging.arena == old(paging).arena,
                paging.invalidated == old(paging).invalidated,
                forall|g: int|
                    0 <= g < TOTAL_FRAMES ==> paging.frames.is_used(g) == (old(paging).frames.is_used(g) && !self.table_above(watermark as int, g, i as int)),
            decreases FOREIGN_SLOT - i,
        {
            let ghost before = paging.frames;
            if self.page_tables[i].is_some() {
                let word = self.physical_tables[i];
                let frame = word >> 12;
                proof {
                    assert(frame < 0x100000u32) by (bit_vector)
                        requires
                            frame == word >> 12,
                    ;
                }
                if frame as u64 * 4096 >= watermark as u64 {
                    paging.frames.set_frame_used(frame as usize, false);
                }
            }
            proof {
                assert forall|g: int| 0 <= g < TOTAL_FRAMES implies paging.frames.is_used(g) == (old(paging).frames.is_used(g) && !self.table_above(watermark as int, g, i as int + 1)) by {
                    if self.table_above(watermark as int, g, i as int + 1) {
                        let w = choose|w: int|
                            0 <= w < i + 1 && #[trigger] self.has_table(w) && self.table_frame(w)
                                == g && g * 4096 >= watermark;
                        if w < i {
                            assert(self.table_above(watermark as int, g, i as int));
                        }
                    }
                    if self.table_above(watermark as int, g, i as int) {
                        assert(self.table_above(watermark as int, g, i as int + 1));
                    }
                    if self.has_table(i as int) && self.table_frame(i as int) == g && g * 4096
                        >= watermark {
                        assert(self.table_above(watermark as int, g, i as int + 1));
                    }
                }
            }
            i += 1;
        }
    }

    /// Maps a page in the directory `foreign` while `self` is the active
    /// one. Slot 1022 of `self` is pointed at `foreign` for the time of the
    /// edit and cleared again; the page is made as `make_page` makes it. The
    /// translations to drop are the foreign directory's window before and
    /// after the edit and, where the page was made, the window onto the
    /// table that holds it.
    pub fn make_foreign_page(
        &mut self,
        foreign: &mut PageDirectory,
        paging: &mut Paging,
        virt: u32,
        phys: u32,
        flags: PageFlags,
    ) -> (r: Result<(), PagingError>)
        requires
            old(self).wf(),
            old(foreign).wf(),
            old(paging).wf(),
        ensures
            final(self).wf(),
            final(foreign).wf(),
            final(paging).wf(),
            final(self).base() == old(self).base(),
            final(self)@ == old(self)@,
            final(self).same_links(old(self)),
            final(foreign).base() == old(foreign).base(),
            Self::shared_kept(final(paging), old(paging)),
            r == old(foreign).make_page_result(old(paging), (virt / 4096) as int),
            page_step(
                old(foreign).space(old(paging)),
                old(paging).supply(),
                (virt / 4096) as int,
                (phys / 4096) as int,
            ) == answered(r, final(foreign).space(final(paging))),
            r is Err ==> {
                &&& *final(foreign) == *old(foreign)
                &&& final(paging).frames == old(paging).frames
                &&& final(paging).arena == old(paging).arena
                &&& final(paging).invalidated@ == old(paging).invalidated@.push(
                    FOREIGN_DIRECTORY_WINDOW,
                ).push(FOREIGN_DIRECTORY_WINDOW)
            },
            r is Ok ==> {
                &&& final(foreign).page_made(
                    old(foreign),
                    final(paging),
                    old(paging),
                    (virt / 4096) as int,
                    (phys / 4096) as int,
                    flags,
                )
                &&& final(paging).invalidated@ == old(paging).invalidated@.push(
                    FOREIGN_DIRECTORY_WINDOW,
                ).push((FOREIGN_TABLE_WINDOW + virt / 4096 / 1024 * 4096) as u32).push(
                    FOREIGN_DIRECTORY_WINDOW,
                )
            },
    {
        let link = foreign.base | RW | PRESENT;
        self.physical_tables[FOREIGN_SLOT] = link;
        paging.invalidated.push(FOREIGN_DIRECTORY_WINDOW);
        let ghost opened = *paging;
        let table_idx = virt / 4096 / 1024;
        let window: u32 = if table_idx < 1022 {
            FOREIGN_TABLE_WINDOW + table_idx * 4096
        } else {
            FOREIGN_DIRECTORY_WINDOW
        };
        let r = foreign.install(paging, virt, phys, flags, window);
        self.physical_tables[FOREIGN_SLOT] = 0;
        paging.invalidated.push(FOREIGN_DIRECTORY_WINDOW);
        proof {
            assert(self@ =~= old(self)@);
            assert(foreign.make_page_result(&opened, (virt / 4096) as int) == foreign.make_page_result(
                old(paging),
                (virt / 4096) as int,
            ));
        }
        r
    }
}

/// Clearing the low twelve bits of an address gives the start of its page.
pub proof fn lemma_page_start(v: u32)
    by (bit_vector)
    ensures
        (v / 4096) * 4096 == v & !0xFFFu32,
{
}

/// Paging identity: in a directory with the kernel mapped, every address
/// `v` of the kernel image lies in a present page, and the frame of that
/// page times the page size is `v` with its low twelve bits cleared.
pub proof fn lemma_kernel_identity(
    dir: PageDirectory,
    layout: KernelLayout,
    arena_limit: int,
    v: u32,
)
    requires
        dir.kernel_mapped(layout, arena_limit),
        layout.load_addr <= v < layout.end_addr,
    ensures
        dir.descriptor((v / 4096) as int) is Some,
        dir.descriptor((v / 4096) as int)->0@.present,
        dir.descriptor((v / 4096) as int)->0@.frame * 4096 == v & !0xFFFu32,
{
    let vpn = (v / 4096) as int;
    assert(PageDirectory::is_kernel_page(layout, arena_limit, vpn));
    assert(dir@.contains_key(vpn));
    lemma_page_start(v);
}

/// Mapping uniqueness: once `make_page` has mapped a virtual page, it
/// answers every later request for that page with `AlreadyMapped`, whatever
/// the shared state is by then, and the entry it made is still there. (On
/// that answer `make_page` changes nothing.)
pub proof fn lemma_mapping_unique(
    before: PageDirectory,
    after: PageDirectory,
    paging_before: Paging,
    paging_after: Paging,
    paging_later: Paging,
    vpn: int,
    frame: int,
    flags: PageFlags,
)
    requires
        before.make_page_result(&paging_before, vpn) is Ok,
        after.page_made(&before, &paging_after, &paging_before, vpn, frame, flags),
    ensures
        after.make_page_result(&paging_later, vpn) == Err::<(), PagingError>(
            PagingError::AlreadyMapped,
        ),
        after@[vpn] == mapped_entry(frame, flags),
{
    assert(after@.contains_key(vpn));
}

/// A frame that was handed out and marked used is not handed out next: the
/// next free frame lies above it.
pub proof fn lemma_next_free_is_higher(before: FramesUsage, after: FramesUsage, f: int, g: int)
    requires
        before.is_first_free(f),
        after.marks(&before, f, true),
        after.is_first_free(g),
    ensures
        f < g,
{
    if g < f {
        assert(before.is_used(g));
    }
}

/// Distinct frames: when each of a run of requests for a free frame is
/// followed by marking the frame it returned, the frames returned rise
/// strictly, so no two are the same. `states[k]` is the bitmap before
/// request `k` and `picks[k]` what that request returned.
pub proof fn lemma_free_frames_distinct(states: Seq<FramesUsage>, picks: Seq<int>, i: int, j: int)
    requires
        states.len() == picks.len() + 1,
        forall|k: int|
            0 <= k < picks.len() ==> (#[trigger] states[k]).is_first_free(picks[k]) && states[k
                + 1].marks(&states[k], picks[k], true),
        0 <= i < j < picks.len(),
    ensures
        picks[i] < picks[j],
    decreases j - i,
{
    assert(states[j - 1].is_first_free(picks[j - 1]));
    assert(states[j].is_first_free(picks[j]));
    lemma_next_free_is_higher(states[j - 1], states[j], picks[j - 1], picks[j]);
    if i < j - 1 {
        lemma_free_frames_distinct(states, picks, i, j - 1);
    }
}

/// Freeing a frame that was just handed out and asking again gives the
/// same frame.
pub proof fn lemma_freed_frame_is_first_again(
    before: FramesUsage,
    marked: FramesUsage,
    freed: FramesUsage,
    f: int,
    g: int,
)
    requires
        before.is_first_free(f),
        marked.marks(&before, f, true),
        freed.marks(&marked, f, false),
        freed.is_first_free(g),
    ensures
        g == f,
{
    if g < f {
        assert(marked.is_used(g));
        assert(before.is_used(g));
    }
    if f < g {
        assert(freed.is_used(f));
    }
}

impl PageDirectory {
    /// What the loader keeps of the shared state while it moves from one
    /// address space to another.
    pub open spec fn shared_kept_but_current(paging: &Paging, paging_before: &Paging) -> bool {
        &&& paging.heap_ready == paging_before.heap_ready
        &&& paging.frames.reserved() == paging_before.frames.reserved()
        &&& paging.arena.limit() == paging_before.arena.limit()
    }
}

impl PageDirectory {
    /// Physical base of the active directory; zero before the first
    /// switch.
    pub fn curr(paging: &Paging) -> (r: u32)
        ensures
            r == paging.current,
    {
        paging.current
    }
}

/// What decides whether pages can be mapped in an address space: the
/// pages that are present, the slots that hold a table, the frames that
/// are marked used, and the bump arena's pointer.
pub struct Space {
    pub pages: Set<int>,
    pub tables: Set<int>,
    pub used: Set<int>,
    pub placement: int,
}

/// Where the frames of new page tables come from, and how far the supply
/// goes.
pub struct Supply {
    pub heap_ready: bool,
    pub reserved: int,
    pub limit: int,
}

/// Whether `f` is the lowest frame at or above `reserved` that is not in
/// `used`.
pub open spec fn is_lowest_free(used: Set<int>, reserved: int, f: int) -> bool {
    &&& reserved <= f < TOTAL_FRAMES
    &&& !used.contains(f)
    &&& forall|g: int| reserved <= g < f ==> used.contains(g)
}

/// Whether some frame at or above `reserved` is not in `used`.
pub open spec fn any_frame_free(used: Set<int>, reserved: int) -> bool {
    exists|f: int| reserved <= f < TOTAL_FRAMES && !used.contains(f)
}

/// The lowest frame at or above `reserved` that is not in `used`.
pub open spec fn lowest_free(used: Set<int>, reserved: int) -> int {
    choose|f: int| is_lowest_free(used, reserved, f)
}

/// What mapping virtual page `vpn` to frame `frame` makes of a space, or
/// why the page is refused. A page in the windows is refused, and so is
/// one that is present. Where the page's slot holds no table, a frame is
/// taken for one: the lowest free frame once the heap is live, the next
/// page of the bump arena before.
pub open spec fn page_step(s: Space, supply: Supply, vpn: int, frame: int) -> Result<
    Space,
    PagingError,
> {
    if vpn >= WINDOW_PAGE {
        Err(PagingError::ReservedWindow)
    } else if s.pages.contains(vpn) {
        Err(PagingError::AlreadyMapped)
    } else if s.tables.contains(vpn / 1024) {
        Ok(Space { pages: s.pages.insert(vpn), used: s.used.insert(frame), ..s })
    } else if supply.heap_ready {
        if any_frame_free(s.used, supply.reserved) {
            Ok(
                Space {
                    pages: s.pages.insert(vpn),
                    tables: s.tables.insert(vpn / 1024),
                    used: s.used.insert(lowest_free(s.used, supply.reserved)).insert(frame),
                    placement: s.placement,
                },
            )
        } else {
            Err(PagingError::OutOfFrames)
        }
    } else {
        if page_align_up(s.placement) + 4096 <= supply.limit {
            Ok(
                Space {
                    pages: s.pages.insert(vpn),
                    tables: s.tables.insert(vpn / 1024),
                    used: s.used.insert(frame),
                    placement: page_align_up(s.placement) + 4096,
                },
            )
        } else {
            Err(PagingError::OutOfArena)
        }
    }
}

/// What mapping the `count` pages from `first_vpn` on to the frames from
/// `first_frame` on, in rising order, makes of a space, or why the first
/// page that is refused is refused.
pub open spec fn run_step(s: Space, supply: Supply, first_vpn: int, first_frame: int, count: int) -> Result<
    Space,
    PagingError,
>
    decreases count,
{
    if count <= 0 {
        Ok(s)
    } else {
        match run_step(s, supply, first_vpn, first_frame, count - 1) {
            Err(e) => Err(e),
            Ok(before) => page_step(
                before,
                supply,
                first_vpn + count - 1,
                first_frame + count - 1,
            ),
        }
    }
}

/// A run that is refused at one of its pages is refused with the same
/// reason however many pages it has behind that one.
pub proof fn lemma_run_refused(
    s: Space,
    supply: Supply,
    first_vpn: int,
    first_frame: int,
    n: int,
    m: int,
)
    requires
        run_step(s, supply, first_vpn, first_frame, n) is Err,
        n <= m,
    ensures
        run_step(s, supply, first_vpn, first_frame, m) == run_step(
            s,
            supply,
            first_vpn,
            first_frame,
            n,
        ),
    decreases m - n,
{
    if n < m {
        lemma_run_refused(s, supply, first_vpn, first_frame, n, m - 1);
    }
}

/// What mapping the kernel makes of a space: low memory and the bump
/// arena from page 1 on, then the kernel image.
pub open spec fn kernel_result(s: Space, supply: Supply, layout: KernelLayout) -> Result<
    Space,
    PagingError,
> {
    match run_step(s, supply, 1, 1, low_page_count(supply.limit)) {
        Err(e) => Err(e),
        Ok(low) => run_step(
            low,
            supply,
            layout.first_page(),
            layout.first_page(),
            layout.page_count(),
        ),
    }
}

/// The answer for the caller: the space on success, the reason otherwise.
pub open spec fn answered(r: Result<(), PagingError>, space: Space) -> Result<Space, PagingError> {
    match r {
        Ok(()) => Ok(space),
        Err(e) => Err(e),
    }
}

impl FramesUsage {
    /// The frames that are marked used.
    pub open spec fn used_set(&self) -> Set<int> {
        Set::new(|g: int| 0 <= g < TOTAL_FRAMES && self.is_used(g))
    }
}

impl Paging {
    /// Where the frames of new page tables come from.
    pub open spec fn supply(&self) -> Supply {
        Supply {
            heap_ready: self.heap_ready,
            reserved: self.frames.reserved(),
            limit: self.arena.limit(),
        }
    }
}

impl PageDirectory {
    /// The slots that hold a table of the directory's own.
    pub open spec fn table_set(&self) -> Set<int> {
        Set::new(|i: int| 0 <= i < TABLE_ENTRIES && self.has_table(i))
    }

    /// What decides whether pages can be mapped in this directory.
    pub open spec fn space(&self, paging: &Paging) -> Space {
        Space {
            pages: self@.dom(),
            tables: self.table_set(),
            used: paging.frames.used_set(),
            placement: paging.arena.placement(),
        }
    }

    /// `page_step` on the space of a directory answers as
    /// `make_page_result` does.
    pub proof fn lemma_step_agrees(&self, paging: &Paging, vpn: int, frame: int)
        requires
            0 <= vpn,
        ensures
            match page_step(self.space(paging), paging.supply(), vpn, frame) {
                Ok(_) => self.make_page_result(paging, vpn) is Ok,
                Err(e) => self.make_page_result(paging, vpn) == Err::<(), PagingError>(e),
            },
    {
        let used = paging.frames.used_set();
        let reserved = paging.frames.reserved();
        if paging.frames.has_free() {
            let f = choose|f: int| reserved <= f < TOTAL_FRAMES && !paging.frames.is_used(f);
            paging.frames.lemma_reserved();
            assert(!used.contains(f));
        }
        if any_frame_free(used, reserved) {
            let f = choose|f: int| reserved <= f < TOTAL_FRAMES && !used.contains(f);
            paging.frames.lemma_reserved();
            assert(!paging.frames.is_used(f));
        }
    }
}

impl FramesUsage {
    /// The reserved prefix is a number of frames.
    pub proof fn lemma_reserved(&self)
        ensures
            0 <= self.reserved(),
    {
    }

    /// The lowest free frame of the bitmap is the lowest frame that is
    /// not in its set of used frames.
    pub proof fn lemma_lowest_free(&self, t: int)
        requires
            self.is_first_free(t),
        ensures
            is_lowest_free(self.used_set(), self.reserved(), t),
            lowest_free(self.used_set(), self.reserved()) == t,
            any_frame_free(self.used_set(), self.reserved()),
    {
        self.lemma_reserved();
        let used = self.used_set();
        assert forall|g: int| self.reserved() <= g < t implies used.contains(g) by {
            assert(self.is_used(g));
        }
        assert(is_lowest_free(used, self.reserved(), t));
        let f = lowest_free(used, self.reserved());
        assert(is_lowest_free(used, self.reserved(), f));
        if f < t {
            assert(used.contains(f));
        }
        if t < f {
            assert(used.contains(t));
        }
    }

    /// Marking a frame adds it to the set of used frames, or takes it out.
    pub proof fn lemma_marks(&self, before: &FramesUsage, frame: int, value: bool)
        requires
            self.marks(before, frame, value),
            0 <= frame < TOTAL_FRAMES,
        ensures
            self.used_set() == if value {
                before.used_set().insert(frame)
            } else {
                before.used_set().remove(frame)
            },
    {
        if value {
            assert(self.used_set() =~= before.used_set().insert(frame));
        } else {
            assert(self.used_set() =~= before.used_set().remove(frame));
        }
    }
}

} // verus!
