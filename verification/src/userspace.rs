//! The way to ring 3 and back: descriptors of the global descriptor table,
//! the task-state segment, and the frame that enters user mode.

use vstd::prelude::*;

verus! {

/// Entries in the global descriptor table: null, kernel code, kernel data,
/// user code, user data, and the task-state segment.
pub const GDT_ENTRIES: usize = 6;

/// The slot of the task-state segment.
pub const TSS_INDEX: usize = 5;

/// Bytes in the table, less one.
pub const GDT_LIMIT: u16 = 47;

/// Selector of the task-state segment, for ring 3.
pub const TSS_SELECTOR: u16 = 0x2B;

/// Selector of the user code segment, for ring 3.
pub const USER_CODE_SELECTOR: u32 = 0x1B;

/// Selector of the user data segment, for ring 3.
pub const USER_DATA_SELECTOR: u32 = 0x23;

/// The access byte of the task-state segment's descriptor.
pub const TSS_ACCESS: u8 = 0xE9;

/// Bytes in a task-state segment.
pub const TSS_BYTES: u32 = 104;

/// The interrupt flag in the flags register.
pub const FLAG_INTERRUPTS: u32 = 0x200;

/// The record that names the descriptor table to the CPU.
#[derive(Clone, Copy, Debug, PartialEq, Eq, Structural)]
pub struct GdtPtr {
    pub limit: u16,
    pub base: u32,
}

/// What a segment descriptor says, field by field.
pub struct SegmentView {
    pub base: u32,
    /// The low twenty bits of the limit.
    pub limit: u32,
    pub access: u8,
    /// The high four bits of the granularity byte.
    pub flags: u8,
}

/// A segment descriptor, as it lies in the table.
#[derive(Clone, Copy, Debug, PartialEq, Eq, Structural)]
pub struct GdtEntry {
    limit_low: u16,
    base_low: u16,
    base_middle: u8,
    access: u8,
    granularity: u8,
    base_high: u8,
}

impl View for GdtEntry {
    type V = SegmentView;

    closed spec fn view(&self) -> SegmentView {
        SegmentView {
            base: (self.base_high * 0x1000000 + self.base_middle * 0x10000 + self.base_low) as u32,
            limit: (self.granularity % 16 * 0x10000 + self.limit_low) as u32,
            access: self.access,
            flags: (self.granularity / 16) as u8,
        }
    }
}

/// The descriptor that `gdt_set_gate` writes.
pub open spec fn segment(base: u32, limit: u32, access: u8, gran: u8) -> SegmentView {
    SegmentView { base, limit: (limit % 0x100000) as u32, access, flags: (gran / 16) as u8 }
}

impl GdtEntry {
    /// The null descriptor.
    pub fn null() -> (r: GdtEntry)
        ensures
            r@ == segment(0, 0, 0, 0),
    {
        GdtEntry {
            limit_low: 0,
            base_low: 0,
            base_middle: 0,
            access: 0,
            granularity: 0,
            base_high: 0,
        }
    }

    /// A descriptor of the segment at `base` with the low twenty bits of
    /// `limit`, the access byte `access` and the high four bits of `gran`.
    pub fn new(base: u32, limit: u32, access: u8, gran: u8) -> (r: GdtEntry)
        ensures
            r@ == segment(base, limit, access, gran),
    {
        GdtEntry {
            base_low: (base % 0x10000) as u16,
            base_middle: (base / 0x10000 % 0x100) as u8,
            base_high: (base / 0x1000000) as u8,
            limit_low: (limit % 0x10000) as u16,
            granularity: (limit / 0x10000 % 16) as u8 + gran / 16 * 16,
            access,
        }
    }

    /// The eight bytes of the descriptor, lowest first.
    pub fn bytes(&self) -> (r: [u8; 8])
        ensures
            r[0] == self@.limit % 0x100,
            r[1] == self@.limit / 0x100 % 0x100,
            r[2] == self@.base % 0x100,
            r[3] == self@.base / 0x100 % 0x100,
            r[4] == self@.base / 0x10000 % 0x100,
            r[5] == self@.access,
            r[6] == self@.flags * 16 + self@.limit / 0x10000,
            r[7] == self@.base / 0x1000000,
    {
        [
            (self.limit_low % 0x100) as u8,
            (self.limit_low / 0x100) as u8,
            (self.base_low % 0x100) as u8,
            (self.base_low / 0x100) as u8,
            self.base_middle,
            self.access,
            self.granularity,
            self.base_high,
        ]
    }
}

/// Writes the descriptor of a segment into slot `num` of the table and
/// leaves the other slots as they were.
pub fn gdt_set_gate(
    gdt_entries: &mut Vec<GdtEntry>,
    num: usize,
    base: u32,
    limit: u32,
    access: u8,
    gran: u8,
)
    requires
        num < old(gdt_entries).len(),
    ensures
        final(gdt_entries).len() == old(gdt_entries).len(),
        final(gdt_entries)[num as int]@ == segment(base, limit, access, gran),
        forall|i: int|
            0 <= i < old(gdt_entries).len() && i != num ==> final(gdt_entries)[i] == old(gdt_entries)[i],
{
    gdt_entries[num] = GdtEntry::new(base, limit, access, gran);
}

/// The task-state segment: what the CPU consults for the ring 0 stack
/// when it leaves ring 3.
#[derive(Clone, Copy, Debug, PartialEq, Eq, Structural)]
pub struct TssEntry {
    pub prev_tss: u32,
    /// The stack pointer loaded on the way to ring 0.
    pub esp0: u32,
    /// The stack segment loaded on the way to ring 0.
    pub ss0: u32,
    pub esp1: u32,
    pub ss1: u32,
    pub esp2: u32,
    pub ss2: u32,
    pub cr3: u32,
    pub eip: u32,
    pub eflags: u32,
    pub eax: u32,
    pub ecx: u32,
    pub edx: u32,
    pub ebx: u32,
    pub esp: u32,
    pub ebp: u32,
    pub esi: u32,
    pub edi: u32,
    pub es: u32,
    pub cs: u32,
    pub ss: u32,
    pub ds: u32,
    pub fs: u32,
    pub gs: u32,
    pub ldt: u32,
    pub trap: u16,
    pub iomap_base: u16,
}

impl TssEntry {
    /// A task-state segment of zeroes.
    pub fn zeroed() -> (r: TssEntry)
        ensures
            r.esp0 == 0,
            r.ss0 == 0,
    {
        TssEntry {
            prev_tss: 0,
            esp0: 0,
            ss0: 0,
            esp1: 0,
            ss1: 0,
            esp2: 0,
            ss2: 0,
            cr3: 0,
            eip: 0,
            eflags: 0,
            eax: 0,
            ecx: 0,
            edx: 0,
            ebx: 0,
            esp: 0,
            ebp: 0,
            esi: 0,
            edi: 0,
            es: 0,
            cs: 0,
            ss: 0,
            ds: 0,
            fs: 0,
            gs: 0,
            ldt: 0,
            trap: 0,
            iomap_base: 0,
        }
    }
}

/// Fills in the task-state segment that lies at `tss_base`: its descriptor
/// goes into slot 5 of the table, and its ring 0 stack is the kernel data
/// segment `data_seg` with the stack pointer `kernel_stack_top`. Nothing
/// else changes.
pub fn write_tss(
    gdt_entries: &mut Vec<GdtEntry>,
    tss: &mut TssEntry,
    tss_base: u32,
    data_seg: u32,
    kernel_stack_top: u32,
)
    requires
        old(gdt_entries).len() == GDT_ENTRIES,
    ensures
        final(gdt_entries).len() == GDT_ENTRIES,
        final(gdt_entries)[TSS_INDEX as int]@ == segment(tss_base, TSS_BYTES, TSS_ACCESS, 0),
        forall|i: int| 0 <= i < TSS_INDEX ==> final(gdt_entries)[i] == old(gdt_entries)[i],
        *final(tss) == (TssEntry { ss0: data_seg, esp0: kernel_stack_top, ..*old(tss) }),
{
    gdt_set_gate(gdt_entries, TSS_INDEX, tss_base, TSS_BYTES, TSS_ACCESS, 0);
    tss.ss0 = data_seg;
    tss.esp0 = kernel_stack_top;
}

/// The selector to load into the task register.
pub fn tss_flush() -> (r: u16)
    ensures
        r == TSS_SELECTOR,
{
    TSS_SELECTOR
}

/// Sets the way back to ring 0 up and returns the record that names the
/// table, which lies at `gdt_base`, to the CPU. The caller loads it, and
/// then the task register with `tss_flush`.
pub fn init(
    gdt_entries: &mut Vec<GdtEntry>,
    tss: &mut TssEntry,
    gdt_base: u32,
    tss_base: u32,
    data_seg: u32,
    kernel_stack_top: u32,
) -> (r: GdtPtr)
    requires
        old(gdt_entries).len() == GDT_ENTRIES,
    ensures
        r == (GdtPtr { limit: GDT_LIMIT, base: gdt_base }),
        final(gdt_entries).len() == GDT_ENTRIES,
        final(gdt_entries)[TSS_INDEX as int]@ == segment(tss_base, TSS_BYTES, TSS_ACCESS, 0),
        forall|i: int| 0 <= i < TSS_INDEX ==> final(gdt_entries)[i] == old(gdt_entries)[i],
        *final(tss) == (TssEntry { ss0: data_seg, esp0: kernel_stack_top, ..*old(tss) }),
{
    write_tss(gdt_entries, tss, tss_base, data_seg, kernel_stack_top);
    GdtPtr { limit: GDT_LIMIT, base: gdt_base }
}

/// The frame that a return from interrupt pops on the way to ring 3, in
/// the order in which it is popped.
#[derive(Clone, Copy, Debug, PartialEq, Eq, Structural)]
pub struct IretFrame {
    /// Where execution goes on.
    pub eip: u32,
    pub cs: u32,
    pub eflags: u32,
    /// The user stack.
    pub esp: u32,
    pub ss: u32,
}

/// The frame that enters user mode at `target` on the stack `user_stack`:
/// the user code and data selectors, and the flags `flags` with interrupts
/// on.
pub fn enter(target: u32, user_stack: u32, flags: u32) -> (r: IretFrame)
    ensures
        r == (IretFrame {
            eip: target,
            cs: USER_CODE_SELECTOR,
            eflags: flags | FLAG_INTERRUPTS,
            esp: user_stack,
            ss: USER_DATA_SELECTOR,
        }),
{
    IretFrame {
        eip: target,
        cs: USER_CODE_SELECTOR,
        eflags: flags | FLAG_INTERRUPTS,
        esp: user_stack,
        ss: USER_DATA_SELECTOR,
    }
}

} // verus!
