//! The runtime nucleus of a small 32-bit x86 kernel, as owned values with
//! proved contracts: boot checks, interrupt gates, the interrupt controller,
//! paging, the kernel heap, the scheduler, the system-call gateway and the
//! program loader, with the device logic that rests on them.

use vstd::prelude::*;

pub mod ata;
pub mod console;
pub mod events;
pub mod execution;
pub mod fs;
pub mod grub;
pub mod heap;
pub mod interrupts;
pub mod io;
pub mod keyboard;
pub mod paging;
pub mod pic;
pub mod process;
pub mod syscall;
pub mod timer;
pub mod userspace;
pub mod vga_console;

verus! {

/// What the boot assembly, the linker and the first reads of the hardware
/// give the kernel to start from.
pub struct BootEnv {
    /// The kernel's code segment.
    pub code_seg: u16,
    /// The kernel's data segment.
    pub data_seg: u32,
    /// The top of the kernel's stack.
    pub kernel_stack_top: u32,
    /// Where the kernel image lies.
    pub layout: paging::KernelLayout,
    /// Where the interrupt table lies.
    pub idt_base: u32,
    /// Where the descriptor table lies.
    pub gdt_base: u32,
    /// Where the task-state segment lies.
    pub tss_base: u32,
    /// The addresses of the exception stubs, by vector.
    pub stubs: [u32; 32],
    /// The address of the timer's handler.
    pub on_tick: u32,
    /// The address of the keyboard's handler.
    pub on_key: u32,
    /// The addresses of the handlers of the two disk lines.
    pub irq14: u32,
    pub irq15: u32,
    /// The address of the gateway's handler.
    pub syscall_entry: u32,
    /// The address of the routine that enters a loaded program.
    pub trampoline: u32,
    /// The masks of the two interrupt controllers, as read at boot.
    pub master_masks: u8,
    pub slave_masks: u8,
}

/// Why the kernel did not come up.
#[derive(Clone, Copy, Debug, PartialEq, Eq)]
pub enum BootError {
    /// The boot loader's hand-over was not accepted.
    Loader(&'static str),
    /// Paging could not be set up.
    Paging(paging::PagingError),
    /// The heap could not be set up.
    Heap(heap::HeapError),
    /// The sectors read for the header of the file system are too few.
    NoHeader,
}

/// The kernel as it stands after boot, with what the caller has to load
/// into the CPU and write to the ports.
pub struct Boot<H> {
    pub kernel: syscall::Kernel<H>,
    /// The kernel's own address space.
    pub kernel_dir: paging::PageDirectory,
    /// The record that names the interrupt table.
    pub idtr: interrupts::IDTR,
    /// The descriptor table, with the task-state segment filled in.
    pub gdt_entries: Vec<userspace::GdtEntry>,
    /// The record that names the descriptor table.
    pub gdt_ptr: userspace::GdtPtr,
    pub tss: userspace::TssEntry,
    /// The writes that remap the interrupt controllers.
    pub remap: Vec<io::PortWrite>,
}

/// The descriptor that boot installs for `vector`.
pub open spec fn boot_gate(env: &BootEnv, vector: int) -> interrupts::GateView {
    if vector < 32 && interrupts::spec_is_exception(vector as u8) {
        interrupts::gate(env.stubs[vector], interrupts::GateType::DInterrupt, 0, env.code_seg)
    } else if vector == pic::IRQ_OFFSET {
        interrupts::gate(env.on_tick, interrupts::GateType::DInterrupt, 0, env.code_seg)
    } else if vector == pic::IRQ_OFFSET + 1 {
        interrupts::gate(env.on_key, interrupts::GateType::DInterrupt, 0, env.code_seg)
    } else if vector == pic::IRQ_OFFSET + 14 {
        interrupts::gate(env.irq14, interrupts::GateType::DInterrupt, 0, env.code_seg)
    } else if vector == pic::IRQ_OFFSET + 15 {
        interrupts::gate(env.irq15, interrupts::GateType::DInterrupt, 0, env.code_seg)
    } else if vector == interrupts::SYSCALL_VECTOR {
        interrupts::gate(env.syscall_entry, interrupts::GateType::DInterrupt, 3, env.code_seg)
    } else {
        interrupts::no_gate()
    }
}

/// The bytes that the heap spans after boot: what the loader reports above
/// 1 MiB, capped, less what lies below the heap's first byte.
pub open spec fn boot_heap_bytes(mem_upper: usize) -> int {
    grub::heap_bytes_spec(mem_upper) - (paging::HEAP_BASE - paging::ARENA_START)
}

/// Whether `boot` is the kernel that comes up in the environment `env`
/// with `mem_upper` kilobytes reported above 1 MiB and the header of the
/// file system in `header_bytes`.
pub open spec fn booted<H: Copy>(
    boot: &Boot<H>,
    env: &BootEnv,
    mem_upper: usize,
    header_bytes: Seq<u8>,
    gdt_before: Seq<userspace::GdtEntry>,
) -> bool {
    &&& boot.kernel.wf()
    &&& boot.kernel_dir.wf()
    &&& boot.kernel_dir.base() == paging::ARENA_START
    &&& boot.kernel_dir.kernel_mapped(env.layout, paging::ARENA_LIMIT as int)
    &&& boot.kernel.paging.enabled
    &&& boot.kernel.paging.current == paging::ARENA_START
    &&& boot.kernel.paging.heap_ready
    &&& boot.kernel.paging.arena.limit() == paging::ARENA_LIMIT
    &&& boot.kernel.heap.base() == paging::HEAP_BASE
    &&& boot.kernel.heap.base() == paging::page_align_up(boot.kernel.paging.arena.limit())
    &&& boot.kernel.heap.capacity() == boot_heap_bytes(mem_upper)
    &&& boot.kernel.heap@ == Seq::<heap::Block>::empty()
    &&& boot.kernel.interrupts.enabled
    &&& boot.kernel.table.selector() == env.code_seg
    &&& boot.kernel.table@.len() == interrupts::VECTORS
    &&& forall|v: int|
        0 <= v < interrupts::VECTORS ==> boot.kernel.table@[v] == boot_gate(env, v)
    &&& boot.idtr == (interrupts::IDTR { base: env.idt_base, limit: 2047 })
    &&& boot.gdt_ptr == (userspace::GdtPtr { limit: userspace::GDT_LIMIT, base: env.gdt_base })
    &&& boot.gdt_entries@.len() == userspace::GDT_ENTRIES
    &&& boot.gdt_entries@[userspace::TSS_INDEX as int]@ == userspace::segment(
        env.tss_base,
        userspace::TSS_BYTES,
        userspace::TSS_ACCESS,
        0,
    )
    &&& forall|i: int| 0 <= i < userspace::TSS_INDEX ==> boot.gdt_entries@[i] == gdt_before[i]
    &&& boot.tss.ss0 == env.data_seg
    &&& boot.tss.esp0 == env.kernel_stack_top
    &&& boot.remap@ == pic::remap_sequence(env.master_masks, env.slave_masks)
    &&& boot.kernel.processes@ == Seq::<process::Context>::empty()
    &&& !boot.kernel.processes.loaded()
    &&& boot.kernel.console.screen() == (vga_console::Screen {
        cells: vga_console::blank_screen(vga_console::ColorCode(0x0F)),
        ptr: 0,
    })
    &&& fs::decodes(header_bytes, &boot.kernel.fs)
    &&& boot.kernel.loader.watermark() == execution::MEM_START
    &&& boot.kernel.layout == env.layout
    &&& boot.kernel.trampoline == env.trampoline
    &&& boot.kernel.timer.count() == 0
}

/// What mapping the heap makes of the space that `init` leaves, or why a
/// page of the heap is refused.
pub open spec fn heap_run(layout: paging::KernelLayout, mem_upper: usize) -> Result<
    paging::Space,
    paging::PagingError,
> {
    match paging::boot_space(layout) {
        Err(e) => Err(e),
        Ok(space) => paging::run_step(
            space,
            paging::boot_supply(),
            (paging::HEAP_BASE / 4096) as int,
            (paging::HEAP_BASE / 4096) as int,
            heap::heap_pages(paging::HEAP_BASE, grub::heap_bytes_spec(mem_upper) as u32),
        ),
    }
}

/// What `kernel_main` answers: the first of its steps that fails gives the
/// reason. The loader's hand-over is judged first, then the layout of the
/// image, then the extent of the heap, then the pages of the heap, then
/// the bytes of the file system's header.
pub open spec fn boot_result(
    info: &grub::MultibootInfo,
    magic: u32,
    env: &BootEnv,
    header_bytes: Seq<u8>,
) -> Result<(), BootError> {
    if grub::verify_result(magic, info.flags) is Err {
        Err(BootError::Loader(grub::verify_result(magic, info.flags)->Err_0))
    } else {
        match paging::boot_space(env.layout) {
            Err(e) => Err(BootError::Paging(e)),
            Ok(_) => if !heap::extent_ok(
                paging::HEAP_BASE,
                grub::heap_bytes_spec(info.mem_upper) as u32,
            ) {
                Err(BootError::Heap(heap::HeapError::BadExtent))
            } else {
                match heap_run(env.layout, info.mem_upper) {
                    Err(e) => Err(BootError::Heap(heap::HeapError::Mapping(e))),
                    Ok(_) => if header_bytes.len() < fs::HEADER_BYTES {
                        Err(BootError::NoHeader)
                    } else {
                        Ok(())
                    },
                }
            },
        }
    }
}

/// Brings the kernel up.
///
/// The loader's hand-over is checked. The interrupt controllers are
/// remapped; the handlers of the timer, the exceptions, the gateway, the
/// keyboard and the disk are installed, and interrupts are on. The
/// task-state segment is filled in. Paging is set up and switched on, and
/// the heap is set up behind the bump arena over the memory that the
/// loader reports above 1 MiB, capped at 50 MiB. The console is wiped and
/// the header of the file system is read from `header_bytes`, the bytes of
/// its sectors. Loading the first program is left to the caller.
pub fn kernel_main<H: Copy>(
    info: &grub::MultibootInfo,
    magic: u32,
    env: &BootEnv,
    gdt_entries: Vec<userspace::GdtEntry>,
    header_bytes: &[u8],
) -> (r: Result<Boot<H>, BootError>)
    requires
        gdt_entries@.len() == userspace::GDT_ENTRIES,
    ensures
        boot_result(info, magic, env, header_bytes@) == match r {
            Ok(_) => Ok::<(), BootError>(()),
            Err(e) => Err::<(), BootError>(e),
        },
        r matches Ok(boot) ==> booted(&boot, env, info.mem_upper, header_bytes@, gdt_entries@),
        r matches Ok(boot) ==> heap_run(env.layout, info.mem_upper) == Ok::<
            paging::Space,
            paging::PagingError,
        >(boot.kernel_dir.space(&boot.kernel.paging)),
{
    match grub::verify(magic, info.flags) {
        Err(message) => {
            return Err(BootError::Loader(message));
        },
        Ok(()) => {},
    }
    let remap = pic::remap(env.master_masks, env.slave_masks);
    let dispatch = interrupts::init(env.code_seg, env.idt_base, &env.stubs);
    let mut table = dispatch.table;
    timer::init(&mut table, env.on_tick);
    let mut gdt_entries = gdt_entries;
    let mut tss = userspace::TssEntry::zeroed();
    let gdt_ptr = userspace::init(
        &mut gdt_entries,
        &mut tss,
        env.gdt_base,
        env.tss_base,
        env.data_seg,
        env.kernel_stack_top,
    );
    syscall::init(&mut table, env.syscall_entry);
    let booted = match paging::init(&env.layout) {
        Ok(booted) => booted,
        Err(e) => {
            return Err(BootError::Paging(e));
        },
    };
    let mut paging = booted.paging;
    let mut kernel_dir = booted.kernel_dir;
    let size = grub::heap_bytes(info.mem_upper);
    let heap = match heap::init(&mut kernel_dir, &mut paging, booted.heap_start, size as u32) {
        Ok(heap) => heap,
        Err(e) => {
            return Err(BootError::Heap(e));
        },
    };
    proof {
        let low = paging::low_page_count(paging::ARENA_LIMIT as int);
        let pages = paging::pages_between(
            paging::HEAP_BASE,
            (paging::HEAP_BASE + heap::heap_extent(paging::HEAP_BASE, size as u32)) as u32,
        );
        let mid = choose|mid: paging::Paging| #[trigger]
            kernel_dir.run_state(
                &booted.kernel_dir,
                &mid,
                &booted.paging,
                (paging::HEAP_BASE / 4096) as int,
                (paging::HEAP_BASE / 4096) as int,
                pages,
                heap::heap_flags(),
            );
        assert forall|vpn: int| #[trigger]
            paging::PageDirectory::is_kernel_page(
                env.layout,
                paging::ARENA_LIMIT as int,
                vpn,
            ) implies kernel_dir@.contains_key(vpn) && kernel_dir@[vpn] == paging::mapped_entry(
            vpn,
            paging::kernel_flags(),
        ) by {
            assert(booted.kernel_dir@.contains_key(vpn));
            assert(kernel_dir.run_page(
                &booted.kernel_dir,
                (paging::HEAP_BASE / 4096) as int,
                (paging::HEAP_BASE / 4096) as int,
                pages,
                heap::heap_flags(),
                vpn,
            ));
        }
    }
    let mut console = vga_console::Console::new();
    io::Clear::clear(&mut console);
    let mut keyboard = keyboard::Keyboard::new();
    keyboard::init(&mut table, env.on_key);
    ata::init(&mut table, env.irq14, env.irq15);
    let fs = match fs::read_header(header_bytes) {
        Some(fs) => fs,
        None => {
            return Err(BootError::NoHeader);
        },
    };
    let kernel = syscall::Kernel {
        interrupts: dispatch.state,
        table,
        paging,
        heap,
        processes: process::ProcessTable::new(),
        keyboard,
        console,
        fs,
        loader: execution::Loader::new(),
        layout: env.layout,
        timer: timer::Timer::new(),
        trampoline: env.trampoline,
    };
    Ok(Boot { kernel, kernel_dir, idtr: dispatch.idtr, gdt_entries, gdt_ptr, tss, remap })
}

} // verus!
