//! The program loader: reads a 32-bit little-endian ELF image, maps its
//! load segments and a stack into a new address space, and admits the
//! program to the scheduler.

use vstd::prelude::*;
use crate::paging::{
    KernelLayout,
    PageDirectory,
    PageFlags,
    PageView,
    Paging,
    PagingError,
    RW,
    Space,
    Supply,
    kernel_result,
    run_step,
    USER,
    mapped_entry,
    pages_between,
};
use crate::fs::{File, FileMetadata, Header};
use crate::heap::Heap;
use crate::interrupts::InterruptState;
use crate::process::{Context, ProcessTable};

verus! {

/// Bytes in the header of an image.
pub const HEADER_BYTES: usize = 52;

/// Bytes in an entry of the program header table.
pub const PROGRAM_HEADER_BYTES: usize = 32;

/// The type of a program header entry that is to be loaded.
pub const PT_LOAD: u32 = 1;

/// Bytes in the stack of a program.
pub const STACK_SIZE: u32 = 16384;

/// The word the stack of a program is filled with.
pub const STACK_FILL: u32 = 0xDEADBEEF;

/// Where the memory handed to programs begins: above the kernel heap.
pub const MEM_START: u32 = 0x4400000;

/// The two bytes at `off`, low byte first.
pub open spec fn le_u16(bytes: Seq<u8>, off: int) -> u16 {
    (bytes[off] + bytes[off + 1] * 0x100) as u16
}

/// The four bytes at `off`, low byte first.
pub open spec fn le_u32(bytes: Seq<u8>, off: int) -> u32 {
    (bytes[off] + bytes[off + 1] * 0x100 + bytes[off + 2] * 0x10000 + bytes[off + 3] * 0x1000000) as u32
}

/// Reads two bytes, low byte first.
pub fn read_u16(bytes: &[u8], off: usize) -> (r: u16)
    requires
        off + 2 <= bytes@.len(),
    ensures
        r == le_u16(bytes@, off as int),
{
    bytes[off] as u16 + bytes[off + 1] as u16 * 0x100
}

/// Reads four bytes, low byte first.
pub fn read_u32(bytes: &[u8], off: usize) -> (r: u32)
    requires
        off + 4 <= bytes@.len(),
    ensures
        r == le_u32(bytes@, off as int),
{
    bytes[off] as u32 + bytes[off + 1] as u32 * 0x100 + bytes[off + 2] as u32 * 0x10000 + bytes[off
        + 3] as u32 * 0x1000000
}

/// The fields of an image's header that the loader reads.
#[derive(Clone, Copy, Debug, PartialEq, Eq, Structural)]
pub struct ElfHeader {
    /// Where execution begins.
    pub entry: u32,
    /// Where the program header table begins in the image.
    pub prog_offset: u32,
    /// Bytes from one entry of that table to the next.
    pub prog_entry_size: u16,
    /// Entries in that table.
    pub prog_header_len: u16,
}

/// The fields of a program header entry that the loader reads.
#[derive(Clone, Copy, Debug, PartialEq, Eq, Structural)]
pub struct ElfProgramHeader {
    pub prog_type: u32,
    /// Where the segment's bytes begin in the image.
    pub offset: u32,
    /// Where the segment is to stand in the program's address space.
    pub virt_addr: u32,
    /// Bytes of the segment that the image holds.
    pub file_size: u32,
    /// Bytes of the segment in memory.
    pub mem_size: u32,
}

/// Why an image was not loaded.
#[derive(Clone, Copy, Debug, PartialEq, Eq, Structural)]
pub enum ElfError {
    /// The image is shorter than a header.
    TooShort,
    /// The image does not begin with the four magic bytes.
    BadMagic,
    /// The entries of the program header table are shorter than the fields
    /// read from them, or the table does not lie inside the image.
    BadProgramTable,
    /// The bytes of a load segment do not lie inside the image, or the
    /// image holds more of them than the segment has in memory.
    BadSegment,
    /// The memory handed to programs is used up.
    OutOfMemory,
    /// A page could not be mapped.
    Mapping(PagingError),
}

/// Whether the image begins with 0x7F, 'E', 'L', 'F'.
pub open spec fn has_magic(bytes: Seq<u8>) -> bool {
    &&& bytes.len() >= 4
    &&& bytes[0] == 0x7F
    &&& bytes[1] == 0x45
    &&& bytes[2] == 0x4C
    &&& bytes[3] == 0x46
}

/// The header fields of an image of at least `HEADER_BYTES` bytes.
pub open spec fn header_of(bytes: Seq<u8>) -> ElfHeader {
    ElfHeader {
        entry: le_u32(bytes, 24),
        prog_offset: le_u32(bytes, 28),
        prog_entry_size: le_u16(bytes, 42),
        prog_header_len: le_u16(bytes, 44),
    }
}

/// Whether the program header table that `header` names lies inside an
/// image of `len` bytes, with entries long enough to be read.
pub open spec fn table_ok(header: ElfHeader, len: int) -> bool {
    header.prog_header_len > 0 ==> {
        &&& header.prog_entry_size >= PROGRAM_HEADER_BYTES
        &&& header.prog_offset + header.prog_header_len * header.prog_entry_size <= len
    }
}

/// What `parse_header` answers for an image.
pub open spec fn parse_result(bytes: Seq<u8>) -> Result<ElfHeader, ElfError> {
    if bytes.len() < HEADER_BYTES {
        Err(ElfError::TooShort)
    } else if !has_magic(bytes) {
        Err(ElfError::BadMagic)
    } else if !table_ok(header_of(bytes), bytes.len() as int) {
        Err(ElfError::BadProgramTable)
    } else {
        Ok(header_of(bytes))
    }
}

/// Reads the header of an image: checks its length and the magic bytes,
/// reads the entry point and where the program header table lies, and
/// checks that the table lies inside the image.
pub fn parse_header(program: &[u8]) -> (r: Result<ElfHeader, ElfError>)
    ensures
        r == parse_result(program@),
{
    if program.len() < HEADER_BYTES {
        return Err(ElfError::TooShort);
    }
    if program[0] != 0x7F || program[1] != 0x45 || program[2] != 0x4C || program[3] != 0x46 {
        return Err(ElfError::BadMagic);
    }
    let header = ElfHeader {
        entry: read_u32(program, 24),
        prog_offset: read_u32(program, 28),
        prog_entry_size: read_u16(program, 42),
        prog_header_len: read_u16(program, 44),
    };
    if header.prog_header_len > 0 {
        if (header.prog_entry_size as usize) < PROGRAM_HEADER_BYTES {
            return Err(ElfError::BadProgramTable);
        }
        proof {
            lemma_product_bound(header.prog_header_len as int, header.prog_entry_size as int);
        }
        let table_bytes = header.prog_header_len as u64 * header.prog_entry_size as u64;
        if header.prog_offset as u64 + table_bytes > program.len() as u64 {
            return Err(ElfError::BadProgramTable);
        }
    }
    Ok(header)
}

/// The product of two 16-bit numbers fits in 32 bits.
pub proof fn lemma_product_bound(a: int, b: int)
    requires
        0 <= a <= 0xFFFF,
        0 <= b <= 0xFFFF,
    ensures
        0 <= a * b <= 0xFFFE0001,
{
    assert(0 <= a * b <= 0xFFFF * 0xFFFF) by (nonlinear_arith)
        requires
            0 <= a <= 0xFFFF,
            0 <= b <= 0xFFFF,
    ;
}

/// An entry of a table ends where the table ends, or before.
pub proof fn lemma_entry_inside(index: int, count: int, stride: int)
    requires
        0 <= index < count,
        0 <= stride,
    ensures
        index * stride + stride <= count * stride,
{
    assert(index * stride + stride <= count * stride) by (nonlinear_arith)
        requires
            0 <= index < count,
            0 <= stride,
    ;
}

/// Entry `index` of the program header table that `header` names.
pub open spec fn program_header_of(bytes: Seq<u8>, header: ElfHeader, index: int) -> ElfProgramHeader {
    let at = header.prog_offset + index * header.prog_entry_size;
    ElfProgramHeader {
        prog_type: le_u32(bytes, at),
        offset: le_u32(bytes, at + 4),
        virt_addr: le_u32(bytes, at + 8),
        file_size: le_u32(bytes, at + 16),
        mem_size: le_u32(bytes, at + 20),
    }
}

/// Reads entry `index` of the program header table.
pub fn program_header(program: &[u8], header: &ElfHeader, index: u16) -> (r: ElfProgramHeader)
    requires
        table_ok(*header, program@.len() as int),
        index < header.prog_header_len,
    ensures
        r == program_header_of(program@, *header, index as int),
{
    proof {
        lemma_product_bound(index as int, header.prog_entry_size as int);
        lemma_product_bound(header.prog_header_len as int, header.prog_entry_size as int);
        lemma_entry_inside(
            index as int,
            header.prog_header_len as int,
            header.prog_entry_size as int,
        );
    }
    let stride = header.prog_entry_size as usize;
    let skip = index as usize * stride;
    let len = program.len();
    assert(header.prog_offset + skip + stride <= len);
    let at = header.prog_offset as usize + skip;
    ElfProgramHeader {
        prog_type: read_u32(program, at),
        offset: read_u32(program, at + 4),
        virt_addr: read_u32(program, at + 8),
        file_size: read_u32(program, at + 16),
        mem_size: read_u32(program, at + 20),
    }
}

/// The flags of a program's pages: writable, and open to ring 3.
pub open spec fn user_flags() -> PageFlags {
    PageFlags { bits: RW | USER }
}

/// Bytes of memory that a segment of `mem_size` bytes is given: whole
/// pages.
pub open spec fn segment_span(mem_size: u32) -> int {
    pages_between(0, mem_size) * 4096
}

/// A load segment with the memory it was given.
#[derive(Clone, Copy, Debug, PartialEq, Eq, Structural)]
pub struct SegmentCopy {
    /// Where the segment stands in the program's address space.
    pub virt_addr: u32,
    /// The memory it was given.
    pub phys_addr: u32,
    /// Where its bytes begin in the image.
    pub offset: u32,
    /// Bytes to copy from the image to `virt_addr`.
    pub file_size: u32,
    /// Bytes of the segment in memory; those behind the copied ones are
    /// to be zero.
    pub mem_size: u32,
}

/// Whether the bytes of a load segment lie inside an image of `len` bytes
/// and are no more than the segment has in memory.
pub open spec fn segment_ok(entry: ElfProgramHeader, len: int) -> bool {
    entry.file_size <= entry.mem_size && entry.offset + entry.file_size <= len
}

/// The load segments among the first `n` entries of the program header
/// table, each with the memory it is given from `watermark` on, and the
/// watermark behind them; or the first reason why one cannot be placed.
pub open spec fn plan_upto(bytes: Seq<u8>, header: ElfHeader, watermark: int, n: int) -> Result<
    (Seq<SegmentCopy>, int),
    ElfError,
>
    decreases n,
{
    if n <= 0 {
        Ok((Seq::empty(), watermark))
    } else {
        match plan_upto(bytes, header, watermark, n - 1) {
            Err(e) => Err(e),
            Ok((copies, mark)) => {
                let entry = program_header_of(bytes, header, n - 1);
                if entry.prog_type != PT_LOAD {
                    Ok((copies, mark))
                } else if !segment_ok(entry, bytes.len() as int) {
                    Err(ElfError::BadSegment)
                } else if mark + segment_span(entry.mem_size) > u32::MAX {
                    Err(ElfError::OutOfMemory)
                } else {
                    Ok(
                        (
                            copies.push(
                                SegmentCopy {
                                    virt_addr: entry.virt_addr,
                                    phys_addr: mark as u32,
                                    offset: entry.offset,
                                    file_size: entry.file_size,
                                    mem_size: entry.mem_size,
                                },
                            ),
                            mark + segment_span(entry.mem_size),
                        ),
                    )
                }
            },
        }
    }
}

/// Virtual page `vpn` is mapped to the frame as far from `first_frame` as
/// the page is from `first_vpn`.
pub open spec fn page_follows(
    dir: &PageDirectory,
    first_vpn: int,
    first_frame: int,
    flags: PageFlags,
    vpn: int,
) -> bool {
    dir@.contains_key(vpn) && dir@[vpn] == mapped_entry(first_frame + (vpn - first_vpn), flags)
}

/// Every one of the `count` pages from `first_vpn` on is mapped to the
/// frame as far from `first_frame` as the page is from `first_vpn`.
pub open spec fn range_is_mapped(
    dir: &PageDirectory,
    first_vpn: int,
    first_frame: int,
    count: int,
    flags: PageFlags,
) -> bool {
    forall|vpn: int|
        first_vpn <= vpn < first_vpn + count ==> #[trigger] page_follows(
            dir,
            first_vpn,
            first_frame,
            flags,
            vpn,
        )
}

/// The pages of a placed segment are mapped to the memory it was given.
pub open spec fn segment_mapped(dir: &PageDirectory, copy: SegmentCopy) -> bool {
    range_is_mapped(
        dir,
        (copy.virt_addr / 4096) as int,
        (copy.phys_addr / 4096) as int,
        pages_between(0, copy.mem_size),
        user_flags(),
    )
}

/// A run of pages that has been mapped gives the range it covers.
pub proof fn lemma_run_gives_range(
    after: &PageDirectory,
    before: &PageDirectory,
    first_vpn: int,
    first_frame: int,
    count: int,
    flags: PageFlags,
)
    requires
        after.run_mapped(before, first_vpn, first_frame, count, flags),
    ensures
        range_is_mapped(after, first_vpn, first_frame, count, flags),
{
    assert forall|vpn: int| first_vpn <= vpn < first_vpn + count implies #[trigger] page_follows(
        after,
        first_vpn,
        first_frame,
        flags,
        vpn,
    ) by {
        assert(after.run_page(before, first_vpn, first_frame, count, flags, vpn));
    }
}

/// A range that is mapped stays mapped when another run of pages is
/// mapped.
pub proof fn lemma_range_kept(
    after: &PageDirectory,
    before: &PageDirectory,
    run_vpn: int,
    run_frame: int,
    run_count: int,
    run_flags: PageFlags,
    first_vpn: int,
    first_frame: int,
    count: int,
    flags: PageFlags,
)
    requires
        after.run_mapped(before, run_vpn, run_frame, run_count, run_flags),
        range_is_mapped(before, first_vpn, first_frame, count, flags),
    ensures
        range_is_mapped(after, first_vpn, first_frame, count, flags),
{
    assert forall|vpn: int| first_vpn <= vpn < first_vpn + count implies #[trigger] page_follows(
        after,
        first_vpn,
        first_frame,
        flags,
        vpn,
    ) by {
        assert(page_follows(before, first_vpn, first_frame, flags, vpn));
        assert(after.run_page(before, run_vpn, run_frame, run_count, run_flags, vpn));
    }
}

/// The loader's own state: the watermark of the memory handed to
/// programs.
pub struct Loader {
    mem_start: u32,
}

impl Loader {
    /// Where the next program's memory begins.
    pub closed spec fn watermark(&self) -> int {
        self.mem_start as int
    }

    /// The watermark lies on a page boundary.
    pub open spec fn wf(&self) -> bool {
        self.watermark() % 4096 == 0
    }

    /// A loader that has handed out nothing.
    pub fn new() -> (r: Loader)
        ensures
            r.wf(),
            r.watermark() == MEM_START,
    {
        Loader { mem_start: MEM_START }
    }

    /// Where the next program's memory begins.
    pub fn mem_start(&self) -> (r: u32)
        ensures
            r == self.watermark(),
    {
        self.mem_start
    }
}

/// Places one load segment: gives it whole pages from the watermark on and
/// maps them at the segment's address, writable and open to ring 3. The
/// bytes to copy and the bytes to zero are for the caller to write once
/// the directory is active.
pub fn load_segment(
    dir: &mut PageDirectory,
    paging: &mut Paging,
    loader: &mut Loader,
    entry: &ElfProgramHeader,
    image_len: usize,
) -> (r: Result<SegmentCopy, ElfError>)
    requires
        old(dir).wf(),
        old(paging).wf(),
        old(loader).wf(),
    ensures
        final(dir).wf(),
        final(paging).wf(),
        final(loader).wf(),
        final(dir).base() == old(dir).base(),
        PageDirectory::shared_kept(final(paging), old(paging)),
        r == Err::<SegmentCopy, ElfError>(ElfError::BadSegment) <==> !segment_ok(
            *entry,
            image_len as int,
        ),
        r == Err::<SegmentCopy, ElfError>(ElfError::OutOfMemory) <==> segment_ok(
            *entry,
            image_len as int,
        ) && old(loader).watermark() + segment_span(entry.mem_size) > u32::MAX,
        r == Err::<SegmentCopy, ElfError>(ElfError::BadSegment) || r == Err::<
            SegmentCopy,
            ElfError,
        >(ElfError::OutOfMemory) ==> *final(dir) == *old(dir) && *final(paging) == *old(paging)
            && *final(loader) == *old(loader),
        r matches Err(ElfError::Mapping(e)) ==> {
            &&& *final(loader) == *old(loader)
            &&& final(dir).run_stopped(
                old(dir),
                final(paging),
                old(paging),
                (entry.virt_addr / 4096) as int,
                old(loader).watermark() / 4096,
                pages_between(0, entry.mem_size),
                user_flags(),
                Err(e),
            )
        },
        r matches Ok(copy) ==> {
            &&& copy == (SegmentCopy {
                virt_addr: entry.virt_addr,
                phys_addr: old(loader).watermark() as u32,
                offset: entry.offset,
                file_size: entry.file_size,
                mem_size: entry.mem_size,
            })
            &&& final(loader).watermark() == old(loader).watermark() + segment_span(
                entry.mem_size,
            )
            &&& final(dir).run_state(
                old(dir),
                final(paging),
                old(paging),
                (entry.virt_addr / 4096) as int,
                old(loader).watermark() / 4096,
                pages_between(0, entry.mem_size),
                user_flags(),
            )
        },
        r matches Err(ElfError::Mapping(e)) ==> run_step(
            old(dir).space(old(paging)),
            old(paging).supply(),
            (entry.virt_addr / 4096) as int,
            old(loader).watermark() / 4096,
            pages_between(0, entry.mem_size),
        ) == Err::<Space, PagingError>(e),
        r is Ok ==> run_step(
            old(dir).space(old(paging)),
            old(paging).supply(),
            (entry.virt_addr / 4096) as int,
            old(loader).watermark() / 4096,
            pages_between(0, entry.mem_size),
        ) == Ok::<Space, PagingError>(final(dir).space(final(paging))),
        !(r matches Err(ElfError::TooShort)),
        !(r matches Err(ElfError::BadMagic)),
        !(r matches Err(ElfError::BadProgramTable)),
{
    if entry.file_size > entry.mem_size || entry.offset as u64 + entry.file_size as u64
        > image_len as u64 {
        return Err(ElfError::BadSegment);
    }
    let span: u64 = (entry.mem_size as u64 + 4095) / 4096 * 4096;
    if loader.mem_start as u64 + span > u32::MAX as u64 {
        return Err(ElfError::OutOfMemory);
    }
    let from = loader.mem_start;
    let flags = PageFlags::from_bits_retain(RW | USER);
    proof {
        assert(flags == user_flags());
        assert(pages_between(from, (from + entry.mem_size) as u32) == pages_between(
            0,
            entry.mem_size,
        ));
    }
    match dir.map_addresses(paging, from, from + entry.mem_size, entry.virt_addr, flags) {
        Err(e) => {
            return Err(ElfError::Mapping(e));
        },
        Ok(()) => {},
    }
    loader.mem_start = from + span as u32;
    Ok(
        SegmentCopy {
            virt_addr: entry.virt_addr,
            phys_addr: from,
            offset: entry.offset,
            file_size: entry.file_size,
            mem_size: entry.mem_size,
        },
    )
}

/// The stack of a program, and the words that are put on it before the
/// program is entered.
#[derive(Clone, Copy, Debug, PartialEq, Eq, Structural)]
pub struct StackPlan {
    /// The lowest address of the stack.
    pub base: u32,
    /// The first address past the stack.
    pub top: u32,
    /// Where the kernel's stack pointer is kept for the way back.
    pub saved_esp_slot: u32,
    /// Where the entry point is put for the trampoline to take.
    pub entry_slot: u32,
    /// The stack pointer with which the program is admitted.
    pub esp: u32,
}

/// The stack that begins at `base`: the words above the stack pointer are
/// below the highest sixteen-byte boundary under the top.
pub open spec fn stack_at(base: u32) -> StackPlan {
    StackPlan {
        base,
        top: (base + STACK_SIZE) as u32,
        saved_esp_slot: (base + STACK_SIZE - 16 - 4) as u32,
        entry_slot: (base + STACK_SIZE - 16 - 8) as u32,
        esp: (base + STACK_SIZE - 16 - 12) as u32,
    }
}

/// Gives the program its stack: `STACK_SIZE` bytes from the watermark on,
/// mapped onto themselves, writable and open to ring 3. The caller fills
/// them with `STACK_FILL` once the directory is active.
pub fn make_stack(dir: &mut PageDirectory, paging: &mut Paging, loader: &mut Loader) -> (r: Result<
    StackPlan,
    ElfError,
>)
    requires
        old(dir).wf(),
        old(paging).wf(),
        old(loader).wf(),
    ensures
        final(dir).wf(),
        final(paging).wf(),
        final(loader).wf(),
        final(dir).base() == old(dir).base(),
        PageDirectory::shared_kept(final(paging), old(paging)),
        r == Err::<StackPlan, ElfError>(ElfError::OutOfMemory) <==> old(loader).watermark()
            + STACK_SIZE > u32::MAX,
        r == Err::<StackPlan, ElfError>(ElfError::OutOfMemory) ==> *final(dir) == *old(dir)
            && *final(paging) == *old(paging) && *final(loader) == *old(loader),
        r matches Err(ElfError::Mapping(e)) ==> {
            &&& *final(loader) == *old(loader)
            &&& final(dir).run_stopped(
                old(dir),
                final(paging),
                old(paging),
                old(loader).watermark() / 4096,
                old(loader).watermark() / 4096,
                4,
                user_flags(),
                Err(e),
            )
        },
        r matches Ok(plan) ==> {
            &&& plan == stack_at(old(loader).watermark() as u32)
            &&& final(loader).watermark() == old(loader).watermark() + STACK_SIZE
            &&& final(dir).run_state(
                old(dir),
                final(paging),
                old(paging),
                old(loader).watermark() / 4096,
                old(loader).watermark() / 4096,
                4,
                user_flags(),
            )
        },
        r is Err ==> r == Err::<StackPlan, ElfError>(ElfError::OutOfMemory) || r matches Err(
            ElfError::Mapping(_),
        ),
        r matches Err(ElfError::Mapping(e)) ==> run_step(
            old(dir).space(old(paging)),
            old(paging).supply(),
            old(loader).watermark() / 4096,
            old(loader).watermark() / 4096,
            4,
        ) == Err::<Space, PagingError>(e),
        r is Ok ==> run_step(
            old(dir).space(old(paging)),
            old(paging).supply(),
            old(loader).watermark() / 4096,
            old(loader).watermark() / 4096,
            4,
        ) == Ok::<Space, PagingError>(final(dir).space(final(paging))),
{
    let base = loader.mem_start;
    if base > u32::MAX - STACK_SIZE {
        return Err(ElfError::OutOfMemory);
    }
    let flags = PageFlags::from_bits_retain(RW | USER);
    proof {
        assert(flags == user_flags());
    }
    match dir.map_addresses(paging, base, base + STACK_SIZE, base, flags) {
        Err(e) => {
            return Err(ElfError::Mapping(e));
        },
        Ok(()) => {},
    }
    loader.mem_start = base + STACK_SIZE;
    let top = base + STACK_SIZE;
    let aligned = (top - 4) - (top - 4) % 16;
    Ok(
        StackPlan {
            base,
            top,
            saved_esp_slot: aligned - 4,
            entry_slot: aligned - 8,
            esp: aligned - 12,
        },
    )
}

/// One word to be written to memory.
#[derive(Clone, Copy, Debug, PartialEq, Eq, Structural)]
pub struct WordWrite {
    pub addr: u32,
    pub value: u32,
}

/// What is left to do when a program has been admitted: the two words to
/// put on its stack, and the context to enter at once if the program is
/// the first.
pub struct Entered {
    /// The kernel's stack pointer, for the way back.
    pub saved_esp: WordWrite,
    /// The entry point, for the trampoline.
    pub entry: WordWrite,
    /// The context to enter at once, for the first program.
    pub dispatch: Option<Context>,
}

/// Admits a loaded program. The kernel's stack pointer `kernel_esp` goes
/// on the program's stack just under `new_esp`, and the entry point under
/// that; the directory `prev_dir` is made the active one again; and the
/// program is registered with the stack pointer under both words, to
/// resume at `trampoline` in the address space `new_dir`.
pub fn enter_loaded_program(
    entry_point: u32,
    new_esp: u32,
    new_dir: u32,
    prev_dir: u32,
    kernel_esp: u32,
    trampoline: u32,
    paging: &mut Paging,
    table: &mut ProcessTable,
) -> (r: Entered)
    requires
        new_esp >= 12,
        old(table).wf(),
    ensures
        r.saved_esp == (WordWrite { addr: (new_esp - 4) as u32, value: kernel_esp }),
        r.entry == (WordWrite { addr: (new_esp - 8) as u32, value: entry_point }),
        final(table).wf(),
        final(table).loaded(),
        final(table)@ == old(table)@.push(
            Context { esp: (new_esp - 12) as u32, eip: trampoline, dir: new_dir },
        ),
        final(paging).frames == old(paging).frames,
        final(paging).arena == old(paging).arena,
        final(paging).heap_ready == old(paging).heap_ready,
        final(paging).invalidated == old(paging).invalidated,
        old(table)@.len() == 0 ==> {
            &&& r.dispatch == Some(
                Context { esp: (new_esp - 12) as u32, eip: trampoline, dir: new_dir },
            )
            &&& final(paging).current == new_dir
            &&& final(paging).enabled
            &&& final(table).cursor() == 0
        },
        old(table)@.len() > 0 ==> {
            &&& r.dispatch is None
            &&& final(paging).current == prev_dir
            &&& final(paging).enabled == old(paging).enabled
            &&& final(table).cursor() == crate::process::spec_next_index(
                old(table).cursor(),
                (old(table)@.len() + 1) as int,
            )
        },
{
    let saved_esp = WordWrite { addr: new_esp - 4, value: kernel_esp };
    let entry = WordWrite { addr: new_esp - 8, value: entry_point };
    paging.current = prev_dir;
    let dispatch = crate::process::register(table, new_esp - 12, trampoline, new_dir, paging);
    Entered { saved_esp, entry, dispatch }
}

/// The first address past the memory that the kernel heap may take.
pub const HEAP_LIMIT: u32 = 0x3300000;

/// A program that has been loaded and admitted.
pub struct Loaded {
    /// The address space of the program.
    pub dir: PageDirectory,
    /// The load segments, in the order of the program header table, each
    /// with the memory it was given.
    pub copies: Vec<SegmentCopy>,
    /// The stack.
    pub stack: StackPlan,
    /// The words to put on the stack, and the context to enter at once if
    /// the program is the first.
    pub entered: Entered,
}

/// The kernel's pages stay mapped when another run of pages is mapped.
pub proof fn lemma_kernel_kept(
    after: &PageDirectory,
    before: &PageDirectory,
    run_vpn: int,
    run_frame: int,
    run_count: int,
    run_flags: PageFlags,
    layout: KernelLayout,
    arena_limit: int,
)
    requires
        after.run_mapped(before, run_vpn, run_frame, run_count, run_flags),
        before.kernel_mapped(layout, arena_limit),
    ensures
        after.kernel_mapped(layout, arena_limit),
{
    assert forall|vpn: int| #[trigger]
        PageDirectory::is_kernel_page(layout, arena_limit, vpn) implies after@.contains_key(vpn)
        && after@[vpn] == mapped_entry(vpn, crate::paging::kernel_flags()) by {
        assert(before@.contains_key(vpn));
        assert(after.run_page(before, run_vpn, run_frame, run_count, run_flags, vpn));
    }
}

/// Pages of the kernel heap that a program's address space shares: from
/// the first page behind the bump arena up to `HEAP_LIMIT`.
pub open spec fn heap_window_pages(arena_limit: int) -> int {
    pages_between(heap_window_start(arena_limit) as u32, HEAP_LIMIT)
}

/// Where the kernel heap begins: at the first page boundary at or behind
/// the bump arena's limit.
pub open spec fn heap_window_start(arena_limit: int) -> int {
    crate::paging::page_align_up(arena_limit)
}

/// What `run_program` leaves when it has loaded the image `bytes`: the
/// segments as planned, each mapped in the program's address space beside
/// the kernel, the heap and the stack; the watermark behind the stack; and
/// the program registered.
pub open spec fn program_loaded(
    loaded: &Loaded,
    bytes: Seq<u8>,
    layout: KernelLayout,
    dir_base: u32,
    trampoline: u32,
    kernel_esp: u32,
    loader: &Loader,
    loader_before: &Loader,
    paging: &Paging,
    paging_before: &Paging,
    table: &ProcessTable,
    table_before: &ProcessTable,
) -> bool {
    let header = header_of(bytes);
    let limit = paging_before.arena.limit();
    &&& plan_upto(
        bytes,
        header,
        loader_before.watermark(),
        header.prog_header_len as int,
    ) matches Ok((copies, mark))
    &&& loaded.copies@ == copies
    &&& loaded.stack == stack_at(mark as u32)
    &&& loader.watermark() == mark + STACK_SIZE
    &&& loaded.dir.wf()
    &&& loaded.dir.base() == dir_base
    &&& loaded.dir.kernel_mapped(layout, limit)
    &&& range_is_mapped(
        &loaded.dir,
        heap_window_start(limit) / 4096,
        heap_window_start(limit) / 4096,
        heap_window_pages(limit),
        user_flags(),
    )
    &&& forall|k: int| 0 <= k < copies.len() ==> segment_mapped(&loaded.dir, #[trigger] copies[k])
    &&& forall|k: int|
        0 <= k < copies.len() ==> copy_ok(#[trigger] copies[k], bytes.len() as int) && copies[k].phys_addr
            % 4096 == 0
    &&& range_is_mapped(&loaded.dir, mark / 4096, mark / 4096, 4, user_flags())
    &&& forall|vpn: int| #[trigger]
        loaded.dir@.contains_key(vpn) ==> shared_or_placed(copies, layout, limit, vpn) || mark
            / 4096 <= vpn < mark / 4096 + 4
    &&& loaded.entered.saved_esp == (WordWrite {
        addr: loaded.stack.saved_esp_slot,
        value: kernel_esp,
    })
    &&& loaded.entered.entry == (WordWrite { addr: loaded.stack.entry_slot, value: header.entry })
    &&& table@ == table_before@.push(
        Context { esp: loaded.stack.esp, eip: trampoline, dir: dir_base },
    )
    &&& table.loaded()
    &&& if table_before@.len() == 0 {
        &&& loaded.entered.dispatch == Some(
            Context { esp: loaded.stack.esp, eip: trampoline, dir: dir_base },
        )
        &&& paging.current == dir_base
    } else {
        &&& loaded.entered.dispatch is None
        &&& paging.current == paging_before.current
    }
}

/// Whether `vpn` is a page of the placed segment `copy`.
pub open spec fn in_copy(copy: SegmentCopy, vpn: int) -> bool {
    copy.virt_addr / 4096 <= vpn < copy.virt_addr / 4096 + pages_between(0, copy.mem_size)
}

/// Whether `vpn` is a page of one of the placed segments.
pub open spec fn in_some_copy(copies: Seq<SegmentCopy>, vpn: int) -> bool {
    exists|k: int| 0 <= k < copies.len() && in_copy(#[trigger] copies[k], vpn)
}

/// Whether `vpn` is a page of the kernel heap as a program sees it.
pub open spec fn in_heap_window(arena_limit: int, vpn: int) -> bool {
    heap_window_start(arena_limit) / 4096 <= vpn < heap_window_start(arena_limit) / 4096
        + heap_window_pages(arena_limit)
}

/// Whether `vpn` is a page that a program shares with the kernel or a
/// page of one of its placed segments.
pub open spec fn shared_or_placed(
    copies: Seq<SegmentCopy>,
    layout: KernelLayout,
    arena_limit: int,
    vpn: int,
) -> bool {
    ||| PageDirectory::is_kernel_page(layout, arena_limit, vpn)
    ||| in_heap_window(arena_limit, vpn)
    ||| in_some_copy(copies, vpn)
}

/// What mapping the kernel and the pages of the kernel heap makes of a
/// space.
pub open spec fn window_result(s: Space, supply: Supply, layout: KernelLayout) -> Result<
    Space,
    PagingError,
> {
    match kernel_result(s, supply, layout) {
        Err(e) => Err(e),
        Ok(with_kernel) => run_step(
            with_kernel,
            supply,
            heap_window_start(supply.limit) / 4096,
            heap_window_start(supply.limit) / 4096,
            heap_window_pages(supply.limit),
        ),
    }
}

/// What placing the load segments among the first `n` entries of the
/// program header table makes of a space and of the watermark, or why the
/// first entry that cannot be placed cannot: its bytes lie outside the
/// image, the memory for programs is used up, or one of its pages is
/// refused.
pub open spec fn segments_result(
    bytes: Seq<u8>,
    header: ElfHeader,
    s: Space,
    supply: Supply,
    watermark: int,
    n: int,
) -> Result<(Space, int), ElfError>
    decreases n,
{
    if n <= 0 {
        Ok((s, watermark))
    } else {
        match segments_result(bytes, header, s, supply, watermark, n - 1) {
            Err(e) => Err(e),
            Ok((before, mark)) => {
                let entry = program_header_of(bytes, header, n - 1);
                if entry.prog_type != PT_LOAD {
                    Ok((before, mark))
                } else if !segment_ok(entry, bytes.len() as int) {
                    Err(ElfError::BadSegment)
                } else if mark + segment_span(entry.mem_size) > u32::MAX {
                    Err(ElfError::OutOfMemory)
                } else {
                    match run_step(
                        before,
                        supply,
                        (entry.virt_addr / 4096) as int,
                        mark / 4096,
                        pages_between(0, entry.mem_size),
                    ) {
                        Err(e) => Err(ElfError::Mapping(e)),
                        Ok(after) => Ok((after, mark + segment_span(entry.mem_size))),
                    }
                }
            },
        }
    }
}

/// Once an entry cannot be placed, the answer stays the same however many
/// more entries are looked at.
pub proof fn lemma_segments_fail(
    bytes: Seq<u8>,
    header: ElfHeader,
    s: Space,
    supply: Supply,
    watermark: int,
    n: int,
    m: int,
)
    requires
        segments_result(bytes, header, s, supply, watermark, n) is Err,
        n <= m,
    ensures
        segments_result(bytes, header, s, supply, watermark, m) == segments_result(
            bytes,
            header,
            s,
            supply,
            watermark,
            n,
        ),
    decreases m - n,
{
    if n < m {
        lemma_segments_fail(bytes, header, s, supply, watermark, n, m - 1);
    }
}

/// What loading an image makes of an empty space `s` and of the
/// watermark, or why the image is not loaded. The image is read; the
/// kernel and the pages of the kernel heap are mapped; the load segments
/// are placed in the order of the program header table; the stack follows.
/// The first step that fails gives the reason.
pub open spec fn load_result(
    bytes: Seq<u8>,
    watermark: int,
    s: Space,
    supply: Supply,
    layout: KernelLayout,
) -> Result<(Space, int), ElfError> {
    match parse_result(bytes) {
        Err(e) => Err(e),
        Ok(header) => if supply.limit > u32::MAX - 4095 {
            Err(ElfError::OutOfMemory)
        } else {
            match window_result(s, supply, layout) {
                Err(e) => Err(ElfError::Mapping(e)),
                Ok(shared) => match segments_result(
                    bytes,
                    header,
                    shared,
                    supply,
                    watermark,
                    header.prog_header_len as int,
                ) {
                    Err(e) => Err(e),
                    Ok((placed, mark)) => if mark + STACK_SIZE > u32::MAX {
                        Err(ElfError::OutOfMemory)
                    } else {
                        match run_step(placed, supply, mark / 4096, mark / 4096, 4) {
                            Err(e) => Err(ElfError::Mapping(e)),
                            Ok(whole) => Ok((whole, mark + STACK_SIZE)),
                        }
                    },
                },
            }
        },
    }
}

/// What holds while `run_program` places the entries of the program
/// header table, once the first `done` of them have been looked at: the
/// plan so far has succeeded and `copies` is what it placed, the watermark
/// is where the plan left it, and the kernel, the heap and every placed
/// segment are mapped in the program's address space.
pub open spec fn placing(
    dir: &PageDirectory,
    paging: &Paging,
    loader: &Loader,
    copies: Seq<SegmentCopy>,
    bytes: Seq<u8>,
    layout: KernelLayout,
    dir_base: u32,
    loader_before: &Loader,
    paging_before: &Paging,
    done: int,
) -> bool {
    let header = header_of(bytes);
    let limit = paging_before.arena.limit();
    &&& table_ok(header, bytes.len() as int)
    &&& dir.wf()
    &&& paging.wf()
    &&& loader.wf()
    &&& dir.base() == dir_base
    &&& PageDirectory::shared_kept_but_current(paging, paging_before)
    &&& dir.kernel_mapped(layout, limit)
    &&& range_is_mapped(
        dir,
        heap_window_start(limit) / 4096,
        heap_window_start(limit) / 4096,
        heap_window_pages(limit),
        user_flags(),
    )
    &&& plan_upto(bytes, header, loader_before.watermark(), done) == Ok::<
        (Seq<SegmentCopy>, int),
        ElfError,
    >((copies, loader.watermark()))
    &&& forall|k: int| 0 <= k < copies.len() ==> segment_mapped(dir, #[trigger] copies[k])
    &&& forall|vpn: int| #[trigger]
        dir@.contains_key(vpn) ==> shared_or_placed(copies, layout, limit, vpn)
    &&& window_result(
        PageDirectory::fresh_space(paging_before),
        paging_before.supply(),
        layout,
    ) matches Ok(shared)
    &&& segments_result(
        bytes,
        header,
        shared,
        paging_before.supply(),
        loader_before.watermark(),
        done,
    ) == Ok::<(Space, int), ElfError>((dir.space(paging), loader.watermark()))
}

/// Looks at entry `index` of the program header table and, if it is to be
/// loaded, places it as `load_segment` does and notes it in `copies`.
fn place_entry(
    program: &[u8],
    header: &ElfHeader,
    index: u16,
    dir: &mut PageDirectory,
    paging: &mut Paging,
    loader: &mut Loader,
    copies: &mut Vec<SegmentCopy>,
    Ghost(layout): Ghost<KernelLayout>,
    Ghost(loader_before): Ghost<Loader>,
    Ghost(paging_before): Ghost<Paging>,
) -> (r: Result<(), ElfError>)
    requires
        *header == header_of(program@),
        index < header.prog_header_len,
        placing(
            old(dir),
            old(paging),
            old(loader),
            old(copies)@,
            program@,
            layout,
            old(dir).base(),
            &loader_before,
            &paging_before,
            index as int,
        ),
    ensures
        final(paging).wf(),
        final(loader).wf(),
        PageDirectory::shared_kept_but_current(final(paging), &paging_before),
        r is Ok ==> placing(
            final(dir),
            final(paging),
            final(loader),
            final(copies)@,
            program@,
            layout,
            old(dir).base(),
            &loader_before,
            &paging_before,
            index as int + 1,
        ),
        r matches Err(e) ==> e == ElfError::BadSegment || e == ElfError::OutOfMemory || e matches ElfError::Mapping(_),
        r matches Err(e) ==> window_result(
            PageDirectory::fresh_space(&paging_before),
            paging_before.supply(),
            layout,
        ) matches Ok(shared) && segments_result(
            program@,
            *header,
            shared,
            paging_before.supply(),
            loader_before.watermark(),
            index as int + 1,
        ) == Err::<(Space, int), ElfError>(e),
        r matches Err(ElfError::BadSegment) ==> plan_upto(
            program@,
            *header,
            loader_before.watermark(),
            index as int + 1,
        ) == Err::<(Seq<SegmentCopy>, int), ElfError>(ElfError::BadSegment),
        r matches Err(ElfError::OutOfMemory) ==> plan_upto(
            program@,
            *header,
            loader_before.watermark(),
            index as int + 1,
        ) == Err::<(Seq<SegmentCopy>, int), ElfError>(ElfError::OutOfMemory),
{
    let entry = program_header(program, header, index);
    if entry.prog_type != PT_LOAD {
        return Ok(());
    }
    let ghost before = *dir;
    let ghost mark = loader.watermark();
    let ghost limit = paging_before.arena.limit();
    let ghost window_vpn = heap_window_start(limit as int) / 4096;
    match load_segment(dir, paging, loader, &entry, program.len()) {
        Err(e) => Err(e),
        Ok(copy) => {
            proof {
                let first_vpn = (entry.virt_addr / 4096) as int;
                let count = pages_between(0, entry.mem_size);
                lemma_kernel_kept(
                    dir,
                    &before,
                    first_vpn,
                    mark / 4096,
                    count,
                    user_flags(),
                    layout,
                    limit,
                );
                lemma_range_kept(
                    dir,
                    &before,
                    first_vpn,
                    mark / 4096,
                    count,
                    user_flags(),
                    window_vpn,
                    window_vpn,
                    heap_window_pages(limit),
                    user_flags(),
                );
                assert forall|k: int| 0 <= k < copies.len() implies segment_mapped(
                    dir,
                    #[trigger] copies@[k],
                ) by {
                    lemma_range_kept(
                        dir,
                        &before,
                        first_vpn,
                        mark / 4096,
                        count,
                        user_flags(),
                        (copies@[k].virt_addr / 4096) as int,
                        (copies@[k].phys_addr / 4096) as int,
                        pages_between(0, copies@[k].mem_size),
                        user_flags(),
                    );
                }
                lemma_run_gives_range(dir, &before, first_vpn, mark / 4096, count, user_flags());
                assert(segment_mapped(dir, copy));
                assert forall|vpn: int| #[trigger] dir@.contains_key(vpn) implies shared_or_placed(
                    copies@,
                    layout,
                    limit,
                    vpn,
                ) || in_copy(copy, vpn) by {
                    assert(dir.run_page(&before, first_vpn, mark / 4096, count, user_flags(), vpn));
                    if !in_copy(copy, vpn) {
                        assert(before@.contains_key(vpn));
                    }
                }
            }
            let ghost noted = copies@;
            copies.push(copy);
            proof {
                assert forall|vpn: int| #[trigger] dir@.contains_key(vpn) implies shared_or_placed(
                    copies@,
                    layout,
                    limit,
                    vpn,
                ) by {
                    if in_copy(copy, vpn) {
                        assert(in_copy(copies@[copies@.len() - 1], vpn));
                    } else if in_some_copy(noted, vpn) {
                        let k = choose|k: int| 0 <= k < noted.len() && in_copy(#[trigger] noted[k], vpn);
                        assert(in_copy(copies@[k], vpn));
                    }
                }
            }
            proof {
                assert forall|k: int| 0 <= k < copies.len() implies segment_mapped(
                    dir,
                    #[trigger] copies@[k],
                ) by {
                    if k < copies.len() - 1 {
                        assert(copies@[k] == old(copies)@[k]);
                    }
                }
            }
            Ok(())
        },
    }
}

/// Loads the image `program` and admits it to the scheduler.
///
/// A new directory at `dir_base` gets the kernel's mappings and the pages
/// of the kernel heap, and is made the active one. Each entry of the
/// program header table that is to be loaded is placed as `load_segment`
/// places it, in the order of the table; the stack follows. The directory
/// that was active is made active again, and the program is registered as
/// `enter_loaded_program` does, to resume at `trampoline`.
///
/// An image that `parse_header` refuses changes nothing. A later error
/// leaves the process table as it was.
pub fn run_program(
    program: &[u8],
    loader: &mut Loader,
    paging: &mut Paging,
    table: &mut ProcessTable,
    layout: &KernelLayout,
    dir_base: u32,
    trampoline: u32,
    kernel_esp: u32,
) -> (r: Result<Loaded, ElfError>)
    requires
        dir_base % 4096 == 0,
        old(loader).wf(),
        old(paging).wf(),
        old(table).wf(),
    ensures
        final(loader).wf(),
        final(paging).wf(),
        final(table).wf(),
        PageDirectory::shared_kept_but_current(final(paging), old(paging)),
        parse_result(program@) matches Err(e) ==> r matches Err(f) && f == e && *final(loader)
            == *old(loader) && *final(paging) == *old(paging),
        r is Err ==> *final(table) == *old(table),
        r matches Err(ElfError::BadSegment) ==> parse_result(program@) is Ok && plan_upto(
            program@,
            header_of(program@),
            old(loader).watermark(),
            header_of(program@).prog_header_len as int,
        ) == Err::<(Seq<SegmentCopy>, int), ElfError>(ElfError::BadSegment),
        r matches Err(ElfError::OutOfMemory) ==> parse_result(program@) is Ok && (old(paging).arena.limit() > u32::MAX - 4095 || match plan_upto(
            program@,
            header_of(program@),
            old(loader).watermark(),
            header_of(program@).prog_header_len as int,
        ) {
            Ok((copies, mark)) => mark + STACK_SIZE > u32::MAX,
            Err(e) => e == ElfError::OutOfMemory,
        }),
        load_result(
            program@,
            old(loader).watermark(),
            PageDirectory::fresh_space(old(paging)),
            old(paging).supply(),
            *layout,
        ) == match r {
            Ok(loaded) => Ok::<(Space, int), ElfError>(
                (loaded.dir.space(final(paging)), final(loader).watermark()),
            ),
            Err(e) => Err::<(Space, int), ElfError>(e),
        },
        r matches Ok(loaded) ==> parse_result(program@) is Ok && program_loaded(
            &loaded,
            program@,
            *layout,
            dir_base,
            trampoline,
            kernel_esp,
            final(loader),
            old(loader),
            final(paging),
            old(paging),
            final(table),
            old(table),
        ),
{
    let header = match parse_header(program) {
        Ok(header) => header,
        Err(e) => {
            return Err(e);
        },
    };
    let prev_dir = paging.curr();
    let limit = paging.arena.heap_end();
    if limit > u32::MAX - 4095 {
        return Err(ElfError::OutOfMemory);
    }
    let heap_from = if limit % 4096 == 0 {
        limit
    } else {
        limit - limit % 4096 + 4096
    };
    let mut dir = match PageDirectory::new(dir_base, paging, layout) {
        Ok(dir) => dir,
        Err(e) => {
            return Err(ElfError::Mapping(e));
        },
    };
    let flags = PageFlags::from_bits_retain(RW | USER);
    let ghost with_kernel = dir;
    match dir.identity_map(paging, heap_from, HEAP_LIMIT, flags) {
        Err(e) => {
            return Err(ElfError::Mapping(e));
        },
        Ok(()) => {},
    }
    let ghost window_vpn = heap_window_start(limit as int) / 4096;
    proof {
        assert(flags == user_flags());
        lemma_run_gives_range(
            &dir,
            &with_kernel,
            window_vpn,
            window_vpn,
            heap_window_pages(limit as int),
            user_flags(),
        );
        lemma_kernel_kept(
            &dir,
            &with_kernel,
            window_vpn,
            window_vpn,
            heap_window_pages(limit as int),
            user_flags(),
            *layout,
            limit as int,
        );
        assert forall|vpn: int| #[trigger] dir@.contains_key(vpn) implies shared_or_placed(
            Seq::<SegmentCopy>::empty(),
            *layout,
            limit as int,
            vpn,
        ) by {
            assert(dir.run_page(
                &with_kernel,
                window_vpn,
                window_vpn,
                heap_window_pages(limit as int),
                user_flags(),
                vpn,
            ));
            if !in_heap_window(limit as int, vpn) {
                assert(with_kernel@.contains_key(vpn));
            }
        }
    }
    dir.switch_to(paging);
    let mut copies: Vec<SegmentCopy> = Vec::new();
    let mut i: u16 = 0;
    while i < header.prog_header_len
        invariant
            i <= header.prog_header_len,
            header == header_of(program@),
            limit == old(paging).arena.limit(),
            dir.base() == dir_base,
            placing(
                &dir,
                paging,
                loader,
                copies@,
                program@,
                *layout,
                dir_base,
                old(loader),
                old(paging),
                i as int,
            ),
            *table == *old(table),
            old(table).wf(),
            parse_result(program@) is Ok,
        decreases header.prog_header_len - i,
    {
        match place_entry(
            program,
            &header,
            i,
            &mut dir,
            paging,
            loader,
            &mut copies,
            Ghost(*layout),
            Ghost(*old(loader)),
            Ghost(*old(paging)),
        ) {
            Err(e) => {
                proof {
                    let shared = window_result(
                        PageDirectory::fresh_space(old(paging)),
                        old(paging).supply(),
                        *layout,
                    )->Ok_0;
                    lemma_segments_fail(
                        program@,
                        header,
                        shared,
                        old(paging).supply(),
                        old(loader).watermark(),
                        i as int + 1,
                        header.prog_header_len as int,
                    );
                    if e == ElfError::BadSegment || e == ElfError::OutOfMemory {
                        lemma_plan_fails(
                            program@,
                            header,
                            old(loader).watermark(),
                            i as int + 1,
                            header.prog_header_len as int,
                        );
                    }
                }
                return Err(e);
            },
            Ok(()) => {},
        }
        i += 1;
    }
    let ghost before_stack = dir;
    let ghost mark = loader.watermark();
    let stack = match make_stack(&mut dir, paging, loader) {
        Ok(stack) => stack,
        Err(e) => {
            return Err(e);
        },
    };
    proof {
        lemma_kernel_kept(
            &dir,
            &before_stack,
            mark / 4096,
            mark / 4096,
            4,
            user_flags(),
            *layout,
            limit as int,
        );
        lemma_range_kept(
            &dir,
            &before_stack,
            mark / 4096,
            mark / 4096,
            4,
            user_flags(),
            window_vpn,
            window_vpn,
            heap_window_pages(limit as int),
            user_flags(),
        );
        assert forall|k: int| 0 <= k < copies.len() implies segment_mapped(
            &dir,
            #[trigger] copies@[k],
        ) by {
            lemma_range_kept(
                &dir,
                &before_stack,
                mark / 4096,
                mark / 4096,
                4,
                user_flags(),
                (copies@[k].virt_addr / 4096) as int,
                (copies@[k].phys_addr / 4096) as int,
                pages_between(0, copies@[k].mem_size),
                user_flags(),
            );
        }
        lemma_run_gives_range(&dir, &before_stack, mark / 4096, mark / 4096, 4, user_flags());
        assert forall|vpn: int| #[trigger] dir@.contains_key(vpn) implies shared_or_placed(
            copies@,
            *layout,
            limit as int,
            vpn,
        ) || mark / 4096 <= vpn < mark / 4096 + 4 by {
            assert(dir.run_page(&before_stack, mark / 4096, mark / 4096, 4, user_flags(), vpn));
            if !(mark / 4096 <= vpn < mark / 4096 + 4) {
                assert(before_stack@.contains_key(vpn));
            }
        }
    }
    proof {
        lemma_plan_copies_ok(
            program@,
            header,
            old(loader).watermark(),
            header.prog_header_len as int,
        );
    }
    let entered = enter_loaded_program(
        header.entry,
        stack.esp + 12,
        dir_base,
        prev_dir,
        kernel_esp,
        trampoline,
        paging,
        table,
    );
    Ok(Loaded { dir, copies, stack, entered })
}

/// Once the plan has met an entry that cannot be placed, it fails with the
/// same reason however many more entries are looked at.
pub proof fn lemma_plan_fails(bytes: Seq<u8>, header: ElfHeader, watermark: int, n: int, m: int)
    requires
        plan_upto(bytes, header, watermark, n) is Err,
        n <= m,
    ensures
        plan_upto(bytes, header, watermark, m) == plan_upto(bytes, header, watermark, n),
    decreases m - n,
{
    if n < m {
        lemma_plan_fails(bytes, header, watermark, n, m - 1);
    }
}

/// The alignment of the buffer that holds an image: a page.
pub const IMAGE_ALIGN: usize = 4096;

/// Bytes that the file of entry `md` takes on disk.
pub open spec fn file_bytes(md: FileMetadata) -> int {
    md.size * 512
}

/// Runs the program in a file.
///
/// A buffer of as many bytes as the file's sectors hold is taken from the
/// heap, at a page boundary. `image` is what the caller has read of the
/// file. The file is closed, the image is loaded and admitted as
/// `run_program` does, and the buffer is given back to the heap. If the
/// heap has no room for the buffer, nothing else is done and the file
/// stays open. The handle must not have been closed.
pub fn execute_file(
    file: &mut File,
    header: &mut Header,
    heap: &mut Heap,
    state: &mut InterruptState,
    image: &[u8],
    loader: &mut Loader,
    paging: &mut Paging,
    table: &mut ProcessTable,
    layout: &KernelLayout,
    dir_base: u32,
    trampoline: u32,
    kernel_esp: u32,
) -> (r: Result<Loaded, ElfError>)
    requires
        old(file).is_open(),
        old(header).wf(),
        old(heap).wf(),
        dir_base % 4096 == 0,
        old(loader).wf(),
        old(paging).wf(),
        old(table).wf(),
    ensures
        final(header).wf(),
        final(heap).wf(),
        final(loader).wf(),
        final(paging).wf(),
        final(table).wf(),
        final(heap).base() == old(heap).base(),
        final(heap).capacity() == old(heap).capacity(),
        file_bytes(old(header).entries()[old(file).index()]) > 0 ==> final(state).enabled,
        file_bytes(old(header).entries()[old(file).index()]) == 0 ==> final(state).enabled == old(state).enabled,
        PageDirectory::shared_kept_but_current(final(paging), old(paging)),
        file_bytes(old(header).entries()[old(file).index()]) > 0 && old(heap).outcome(
            file_bytes(old(header).entries()[old(file).index()]),
            IMAGE_ALIGN as int,
        ) == crate::heap::Outcome::OutOfMemory ==> {
            &&& r matches Err(ElfError::OutOfMemory)
            &&& *final(file) == *old(file)
            &&& *final(header) == *old(header)
            &&& final(heap)@ == old(heap)@
            &&& *final(loader) == *old(loader)
            &&& *final(paging) == *old(paging)
            &&& *final(table) == *old(table)
        },
        !(file_bytes(old(header).entries()[old(file).index()]) > 0 && old(heap).outcome(
            file_bytes(old(header).entries()[old(file).index()]),
            IMAGE_ALIGN as int,
        ) == crate::heap::Outcome::OutOfMemory) ==> {
            &&& !final(file).is_open()
            &&& final(header).dirty()
            &&& !final(header).entries()[old(file).index()].flags.opened()
            &&& parse_result(image@) matches Err(e) ==> r matches Err(f) && f == e
            &&& r is Err ==> *final(table) == *old(table)
            &&& load_result(
                image@,
                old(loader).watermark(),
                PageDirectory::fresh_space(old(paging)),
                old(paging).supply(),
                *layout,
            ) == match r {
                Ok(loaded) => Ok::<(Space, int), ElfError>(
                    (loaded.dir.space(final(paging)), final(loader).watermark()),
                ),
                Err(e) => Err::<(Space, int), ElfError>(e),
            }
            &&& r matches Ok(loaded) ==> parse_result(image@) is Ok && program_loaded(
                &loaded,
                image@,
                *layout,
                dir_base,
                trampoline,
                kernel_esp,
                final(loader),
                old(loader),
                final(paging),
                old(paging),
                final(table),
                old(table),
            )
        },
{
    let md = file.get_metadata(header);
    let size = md.size as u64 * 512;
    let mut buffer: Option<usize> = None;
    if size > 0 {
        let asked: usize = if size > usize::MAX as u64 {
            usize::MAX
        } else {
            size as usize
        };
        proof {
            if size > usize::MAX as u64 {
                lemma_too_large(heap, size as int, IMAGE_ALIGN as int);
                lemma_too_large(heap, asked as int, IMAGE_ALIGN as int);
            }
        }
        match heap.alloc_internal(state, asked, IMAGE_ALIGN) {
            Some(ptr) => {
                buffer = Some(ptr);
            },
            None => {
                return Err(ElfError::OutOfMemory);
            },
        }
    }
    file.close(header);
    let r = run_program(image, loader, paging, table, layout, dir_base, trampoline, kernel_esp);
    match buffer {
        Some(ptr) => {
            heap.dealloc_internal(state, ptr);
        },
        None => {},
    }
    r
}

/// A request for more bytes than the arena has finds no room.
pub proof fn lemma_too_large(heap: &Heap, size: int, align: int)
    requires
        heap.wf(),
        size >= u32::MAX,
        align > 0,
    ensures
        heap.outcome(size, align) == crate::heap::Outcome::OutOfMemory,
{
    heap.lemma_capacity();
    crate::heap::lemma_search_needs_room(
        heap@,
        heap.base(),
        heap.capacity(),
        size,
        align,
        0,
        0,
    );
}

/// Whether the bytes of a placed segment lie inside an image of `len`
/// bytes and are no more than the segment has in memory.
pub open spec fn copy_ok(copy: SegmentCopy, len: int) -> bool {
    copy.file_size <= copy.mem_size && copy.offset + copy.file_size <= len
}

/// Every segment that the plan places has its bytes inside the image, and
/// from a watermark on a page boundary each is given memory that begins on
/// one.
pub proof fn lemma_plan_copies_ok(bytes: Seq<u8>, header: ElfHeader, watermark: int, n: int)
    requires
        0 <= watermark,
    ensures
        plan_upto(bytes, header, watermark, n) matches Ok((copies, mark)) ==> {
            &&& 0 <= mark
            &&& watermark % 4096 == 0 ==> mark % 4096 == 0
            &&& forall|k: int|
                0 <= k < copies.len() ==> copy_ok(#[trigger] copies[k], bytes.len() as int) && (
                watermark % 4096 == 0 ==> copies[k].phys_addr % 4096 == 0)
        },
    decreases n,
{
    if n > 0 {
        lemma_plan_copies_ok(bytes, header, watermark, n - 1);
    }
}

/// What a placed segment holds in memory: the bytes of the image from its
/// offset on, and zero bytes behind them up to its size in memory.
pub open spec fn segment_bytes(image: Seq<u8>, copy: SegmentCopy) -> Seq<u8> {
    Seq::new(
        copy.mem_size as nat,
        |i: int|
            if i < copy.file_size {
                image[copy.offset + i]
            } else {
                0u8
            },
    )
}

/// The bytes to write at the address of a placed segment: what the image
/// holds of it, and zero bytes for the rest.
pub fn segment_content(program: &[u8], copy: &SegmentCopy) -> (r: Vec<u8>)
    requires
        copy_ok(*copy, program@.len() as int),
    ensures
        r@ == segment_bytes(program@, *copy),
{
    let mut out: Vec<u8> = Vec::new();
    let len = program.len();
    let mut i: u32 = 0;
    while i < copy.mem_size
        invariant
            i <= copy.mem_size,
            copy_ok(*copy, program@.len() as int),
            len == program@.len(),
            out@.len() == i,
            forall|k: int|
                0 <= k < i ==> out@[k] == if k < copy.file_size {
                    program@[copy.offset + k]
                } else {
                    0u8
                },
        decreases copy.mem_size - i,
    {
        if i < copy.file_size {
            out.push(program[copy.offset as usize + i as usize]);
        } else {
            out.push(0);
        }
        i += 1;
    }
    proof {
        assert(out@ =~= segment_bytes(program@, *copy));
    }
    out
}

/// Word `i` of a program's stack before the program is entered: the
/// kernel's stack pointer and the entry point in their places, and the
/// fill word everywhere else.
pub open spec fn stack_word(plan: StackPlan, entered: &Entered, i: int) -> u32 {
    if plan.base + 4 * i == entered.saved_esp.addr {
        entered.saved_esp.value
    } else if plan.base + 4 * i == entered.entry.addr {
        entered.entry.value
    } else {
        STACK_FILL
    }
}

/// The words to write to a program's stack, from its base on.
pub fn stack_content(plan: &StackPlan, entered: &Entered) -> (r: Vec<u32>)
    requires
        plan.base + STACK_SIZE <= u32::MAX,
    ensures
        r@.len() == STACK_SIZE / 4,
        forall|i: int| 0 <= i < r@.len() ==> r@[i] == stack_word(*plan, entered, i),
{
    let mut out: Vec<u32> = Vec::new();
    let mut i: u32 = 0;
    while i < STACK_SIZE / 4
        invariant
            i <= STACK_SIZE / 4,
            plan.base + STACK_SIZE <= u32::MAX,
            out@.len() == i,
            forall|k: int| 0 <= k < i ==> out@[k] == stack_word(*plan, entered, k),
        decreases STACK_SIZE / 4 - i,
    {
        let addr = plan.base + 4 * i;
        if addr == entered.saved_esp.addr {
            out.push(entered.saved_esp.value);
        } else if addr == entered.entry.addr {
            out.push(entered.entry.value);
        } else {
            out.push(STACK_FILL);
        }
        i += 1;
    }
    out
}

/// The physical address that the virtual address `vaddr` leads to in the
/// directory `dir`.
pub open spec fn physical(dir: &PageDirectory, vaddr: int) -> int {
    dir@[vaddr / 4096].frame * 4096 + vaddr % 4096
}

/// Whether the memory given to a placed segment holds the segment: its
/// bytes stand in `memory` from where the segment's first byte leads to.
pub open spec fn segment_stored(memory: Map<int, u8>, image: Seq<u8>, copy: SegmentCopy) -> bool {
    forall|j: int|
        0 <= j < copy.mem_size ==> #[trigger] memory[copy.phys_addr + copy.virt_addr % 4096 + j]
            == segment_bytes(image, copy)[j]
}

/// Whether byte `i` of a placed segment lies in one of the segment's
/// pages.
pub open spec fn byte_in_pages(copy: SegmentCopy, i: int) -> bool {
    0 <= i && (copy.virt_addr + i) / 4096 < copy.virt_addr / 4096 + pages_between(0, copy.mem_size)
}

/// The pages of a placed segment lead to the memory it was given, one
/// behind the other: byte `i` of the segment is present, writable and open
/// to ring 3, and lies as far behind the segment's first byte in memory as
/// in the address space.
pub proof fn lemma_segment_reached(dir: &PageDirectory, copy: SegmentCopy, i: int)
    requires
        segment_mapped(dir, copy),
        copy.phys_addr % 4096 == 0,
        byte_in_pages(copy, i),
    ensures
        dir@.contains_key((copy.virt_addr + i) / 4096),
        dir@[(copy.virt_addr + i) / 4096] == mapped_entry(
            copy.phys_addr / 4096 + ((copy.virt_addr + i) / 4096 - copy.virt_addr / 4096),
            user_flags(),
        ),
        copy.phys_addr / 4096 + ((copy.virt_addr + i) / 4096 - copy.virt_addr / 4096) < 0x100000
            ==> physical(dir, copy.virt_addr + i) == copy.phys_addr + copy.virt_addr % 4096 + i,
{
    let vpn = (copy.virt_addr + i) / 4096;
    assert(page_follows(
        dir,
        (copy.virt_addr / 4096) as int,
        (copy.phys_addr / 4096) as int,
        user_flags(),
        vpn,
    ));
}

/// Loader: once the bytes of a placed segment stand in the memory it was
/// given, they are what is read at the segment's addresses through the
/// program's directory: the bytes of the image first, then zero bytes.
pub proof fn lemma_segment_seen(
    dir: &PageDirectory,
    memory: Map<int, u8>,
    image: Seq<u8>,
    copy: SegmentCopy,
    i: int,
)
    requires
        segment_mapped(dir, copy),
        copy.phys_addr % 4096 == 0,
        copy.phys_addr + pages_between(0, copy.mem_size) * 4096 <= 0x100000000,
        segment_stored(memory, image, copy),
        0 <= i < copy.mem_size,
        byte_in_pages(copy, i),
    ensures
        dir@.contains_key((copy.virt_addr + i) / 4096),
        memory[physical(dir, copy.virt_addr + i)] == if i < copy.file_size {
            image[copy.offset + i]
        } else {
            0u8
        },
{
    lemma_segment_reached(dir, copy, i);
    assert(memory[copy.phys_addr + copy.virt_addr % 4096 + i] == segment_bytes(image, copy)[i]);
}

} // verus!
