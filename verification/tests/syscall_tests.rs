use kernel::fs::{update_header, File, Header};
use kernel::grub::MultibootInfo;
use kernel::io::{PortWrite, Seek};
use kernel::keyboard::{on_key, Key};
use kernel::paging::KernelLayout;
use kernel::process::Context;
use kernel::execution::ElfError;
use kernel::syscall::{
    allocate, dealloc, empty, get_fs_header, halt, init, is_key_pressed, print_syscall, set_isr,
    syscall_handler, syscall_handler_inner, Alloc, AreInterruptsEnabled, Dealloc,
    DisableInterrupts, Empty, EnableInterrupts, ExecuteFile, FsGetHeader, GetConsole,
    GetCurrPageDir, GetFilesInDir, GetOnKeyDown, GetOnKeyUp, Halt, HasInitHeap,
    HasLoadedProcesses, IsCapsLockActive, IsKeyPressed, Kernel, Outb, Outl, Outw, PicSendEoi,
    PicSetMask, Print, ReadSectors, Reply, Request, RunProgram, SetIsr, Singleton, Syscall,
    WriteSectors,
};
use kernel::ata::Batch;
use kernel::interrupts::InterruptTable;
use kernel::userspace::GdtEntry;
use kernel::{kernel_main, BootEnv};

fn kernel() -> Kernel<u32> {
    let env = BootEnv {
        code_seg: 0x08,
        data_seg: 0x10,
        kernel_stack_top: 0x1000_8000,
        layout: KernelLayout { load_addr: 0x1000_0000, end_addr: 0x1000_9000 },
        idt_base: 0x1000_6000,
        gdt_base: 0x1000_5000,
        tss_base: 0x1000_5800,
        stubs: [0x1000_1000; 32],
        on_tick: 0x1000_2000,
        on_key: 0x1000_2100,
        irq14: 0x1000_2200,
        irq15: 0x1000_2300,
        syscall_entry: 0x1000_2400,
        trampoline: 0x1000_2500,
        master_masks: 0xB8,
        slave_masks: 0x8E,
    };
    let mut header = Header::new();
    let mut shell = File::create("/shell", &mut header).ok().unwrap();
    shell.set_size(2, &mut header);
    File::create("/bin/ls", &mut header).ok().unwrap();
    let sectors = update_header(&mut header);
    let info = MultibootInfo { flags: 1, mem_lower: 640, mem_upper: 8192 };
    let gdt = vec![GdtEntry::null(); 6];
    kernel_main(&info, 0x2BAD_B002, &env, gdt, &sectors).ok().unwrap().kernel
}

fn image() -> Vec<u8> {
    let mut image = vec![0u8; 84];
    image[0..4].copy_from_slice(&[0x7F, b'E', b'L', b'F']);
    image[24..28].copy_from_slice(&0x0804_8000u32.to_le_bytes());
    image[28..32].copy_from_slice(&52u32.to_le_bytes());
    image[42..44].copy_from_slice(&32u16.to_le_bytes());
    image[44..46].copy_from_slice(&1u16.to_le_bytes());
    image[52..56].copy_from_slice(&1u32.to_le_bytes());
    image[56..60].copy_from_slice(&84u32.to_le_bytes());
    image[60..64].copy_from_slice(&0x0804_8000u32.to_le_bytes());
    image[68..72].copy_from_slice(&0u32.to_le_bytes());
    image[72..76].copy_from_slice(&0x1000u32.to_le_bytes());
    image
}

fn pointer(reply: Reply) -> Option<usize> {
    match reply {
        Reply::Pointer(p) => p,
        _ => panic!("no pointer"),
    }
}

fn flag(reply: Reply) -> bool {
    match reply {
        Reply::Flag(b) => b,
        _ => panic!("no flag"),
    }
}

#[test]
fn operations_have_their_tags() {
    assert_eq!(Syscall::Print.tag(), 0);
    assert_eq!(Syscall::Empty.tag(), 5);
    assert_eq!(Syscall::Alloc.tag(), 14);
    assert_eq!(Syscall::Dealloc.tag(), 15);
    assert_eq!(Syscall::ExecuteFile.tag(), 27);
    assert_eq!(Syscall::from_tag(5), Some(Syscall::Empty));
    assert_eq!(Syscall::from_tag(27), Some(Syscall::ExecuteFile));
    assert_eq!(Syscall::from_tag(28), None);
    assert_eq!(Syscall::from_tag(u32::MAX), None);
    for tag in 0..28 {
        assert_eq!(Syscall::from_tag(tag).unwrap().tag(), tag);
    }
    assert_eq!(Request::Halt(Halt {}).kind(), Syscall::Halt);
    assert_eq!(Request::Outb(Outb { port: 1, value: 2 }).kind(), Syscall::Outb);
}

#[test]
fn the_gateway_is_installed_for_ring_three() {
    let mut table = InterruptTable::new(0x08);
    init(&mut table, 0x8080);
    assert_eq!(table.handler_for(0x80), Some(0x8080));
    assert_eq!(table.get(0x80).dpl(), 3);
    assert_eq!(table.get(0x80).bits() >> 40 & 0xFF, 0xEE);
}

#[test]
fn a_request_with_the_wrong_tag_is_not_served() {
    let mut k = kernel();
    assert!(syscall_handler(&mut k, 4, Request::Empty(Empty {}), 0).is_none());
    assert!(syscall_handler(&mut k, 28, Request::Empty(Empty {}), 0).is_none());
    assert!(matches!(syscall_handler(&mut k, 5, Request::Empty(Empty {}), 0), Some(Reply::Done)));
    let wrong = syscall_handler(&mut k, 15, Request::Alloc(Alloc { size: 8, align: 1 }), 0);
    assert!(wrong.is_none());
    assert_eq!(pointer(allocate(&mut k, 8, 1)), Some(0x52_3005));
}

#[test]
fn the_empty_operation_changes_nothing() {
    let mut k = kernel();
    let mut probe = kernel();
    for _ in 0..3 {
        assert!(matches!(syscall_handler_inner(&mut k, Request::Empty(Empty {}), 7), Reply::Done));
    }
    empty();
    assert_eq!(k.interrupts, probe.interrupts);
    assert_eq!(k.paging.curr(), probe.paging.curr());
    assert_eq!(k.paging.invalidated, probe.paging.invalidated);
    assert_eq!(k.processes.len(), 0);
    assert_eq!(k.console.get_cursor_position(), 0);
    assert_eq!(k.loader.mem_start(), probe.loader.mem_start());
    assert_eq!(k.table.handler_for(0x80), probe.table.handler_for(0x80));
    assert_eq!(pointer(allocate(&mut k, 64, 8)), pointer(allocate(&mut probe, 64, 8)));
}

#[test]
fn allocating_128_bytes_gives_a_pointer_in_the_heap() {
    let mut k = kernel();
    let base = k.heap.memory();
    let end = base + k.heap.size();
    assert_eq!((base, end), (0x52_3000, 0x90_0000));
    let reply = syscall_handler(&mut k, 14, Request::Alloc(Alloc { size: 128, align: 1 }), 0);
    let p = pointer(reply.unwrap()).unwrap();
    assert!(base <= p && p + 128 <= end);
    assert_eq!(p, 0x52_3005);
    let other = pointer(allocate(&mut k, 128, 1)).unwrap();
    assert_eq!(other, p + 128 + 5);
    // Giving the first back clears its used bit: it is handed out again.
    let done = syscall_handler(&mut k, 15, Request::Dealloc(Dealloc { ptr: p }), 0);
    assert!(matches!(done, Some(Reply::Done)));
    assert_eq!(pointer(allocate(&mut k, 128, 1)), Some(p));
    dealloc(&mut k, other);
    assert_eq!(pointer(allocate(&mut k, 100, 1)), Some(other));
}

#[test]
fn allocations_that_cannot_be_served() {
    let mut k = kernel();
    assert!(matches!(allocate(&mut k, 0, 1), Reply::Refused));
    assert!(matches!(allocate(&mut k, 1, 0), Reply::Refused));
    assert_eq!(pointer(allocate(&mut k, 0x3D_D000, 1)), None);
    assert_eq!(pointer(allocate(&mut k, 0x3D_D000 - 10, 1)), Some(0x52_3005));
    assert_eq!(pointer(allocate(&mut k, 1, 1)), None);
}

#[test]
fn interrupts_are_switched_and_asked_about() {
    let mut k = kernel();
    let ask = |k: &mut Kernel<u32>| {
        flag(syscall_handler_inner(k, Request::AreInterruptsEnabled(AreInterruptsEnabled {}), 0))
    };
    assert!(ask(&mut k));
    syscall_handler_inner(&mut k, Request::DisableInterrupts(DisableInterrupts {}), 0);
    assert!(!ask(&mut k));
    syscall_handler_inner(&mut k, Request::EnableInterrupts(EnableInterrupts {}), 0);
    assert!(ask(&mut k));
    assert!(matches!(syscall_handler_inner(&mut k, Request::Halt(Halt {}), 0), Reply::Halt));
    assert!(matches!(halt(), Reply::Halt));
}

#[test]
fn port_output_is_handed_to_the_caller() {
    let mut k = kernel();
    match syscall_handler_inner(&mut k, Request::Outb(Outb { port: 0x3F8, value: 0x41 }), 0) {
        Reply::OutByte(w) => assert_eq!(w, PortWrite { port: 0x3F8, value: 0x41 }),
        _ => panic!(),
    }
    match syscall_handler_inner(&mut k, Request::Outw(Outw { port: 0x1F0, value: 0xBEEF }), 0) {
        Reply::OutWord { port, word } => assert_eq!((port, word), (0x1F0, 0xBEEF)),
        _ => panic!(),
    }
    match syscall_handler_inner(&mut k, Request::Outl(Outl { port: 0xCF8, value: 0x8000_0000 }), 0) {
        Reply::OutLong { port, long } => assert_eq!((port, long), (0xCF8, 0x8000_0000)),
        _ => panic!(),
    }
    match syscall_handler_inner(&mut k, Request::PicSendEoi(PicSendEoi { irq_line: 9 }), 0) {
        Reply::Ports(w) => assert_eq!(
            w,
            vec![PortWrite { port: 0xA0, value: 0x20 }, PortWrite { port: 0x20, value: 0x20 }]
        ),
        _ => panic!(),
    }
    let mask = PicSetMask { irq_line: 1, value: true, current_masks: 0xB8 };
    match syscall_handler_inner(&mut k, Request::PicSetMask(mask), 0) {
        Reply::Ports(w) => assert_eq!(w, vec![PortWrite { port: 0x21, value: 0xBA }]),
        _ => panic!(),
    }
    let mask = PicSetMask { irq_line: 16, value: true, current_masks: 0 };
    assert!(matches!(syscall_handler_inner(&mut k, Request::PicSetMask(mask), 0), Reply::Refused));
}

#[test]
fn disk_transfers_are_cut_into_commands() {
    let mut k = kernel();
    let read = ReadSectors { lba: 42, sector_count: 1 };
    match syscall_handler_inner(&mut k, Request::ReadSectors(read), 0) {
        Reply::Read(b) => assert_eq!(b, vec![Batch { lba: 42, sectors: 1 }]),
        _ => panic!(),
    }
    let write = WriteSectors { lba: 42, sector_count: 300 };
    match syscall_handler_inner(&mut k, Request::WriteSectors(write), 0) {
        Reply::Write(b) => {
            assert_eq!(b, vec![Batch { lba: 42, sectors: 255 }, Batch { lba: 297, sectors: 45 }])
        }
        _ => panic!(),
    }
    let beyond = ReadSectors { lba: u32::MAX, sector_count: 1 };
    assert!(matches!(syscall_handler_inner(&mut k, Request::ReadSectors(beyond), 0), Reply::Refused));
    let beyond = WriteSectors { lba: 2, sector_count: u32::MAX - 1 };
    assert!(matches!(syscall_handler_inner(&mut k, Request::WriteSectors(beyond), 0), Reply::Refused));
}

#[test]
fn a_handler_is_installed_through_the_gateway() {
    let mut k = kernel();
    let reply = syscall_handler(
        &mut k,
        11,
        Request::SetIsr(SetIsr { index: 0x30, func: 0xABCD, dpl: 3 }),
        0,
    );
    assert!(matches!(reply, Some(Reply::Done)));
    assert_eq!(k.table.handler_for(0x30), Some(0xABCD));
    assert_eq!(k.table.get(0x30).dpl(), 3);
    assert!(matches!(set_isr(&mut k, 256, 1, 0), Reply::Refused));
    assert!(matches!(set_isr(&mut k, 0x31, 1, 4), Reply::Refused));
    assert_eq!(k.table.handler_for(0x31), None);
    assert!(matches!(set_isr(&mut k, 255, 0x77, 0), Reply::Done));
    assert_eq!(k.table.handler_for(255), Some(0x77));
}

#[test]
fn printing_writes_to_the_console() {
    let mut k = kernel();
    let reply = syscall_handler_inner(&mut k, Request::Print(Print { text: String::from("hi\n!") }), 0);
    assert!(matches!(reply, Reply::Done));
    assert_eq!(k.console.read_at(0).byte, b'h');
    assert_eq!(k.console.read_at(1).byte, b'i');
    assert_eq!(k.console.read_at(80).byte, b'!');
    assert_eq!(k.console.get_cursor_position(), 81);
    assert!(k.interrupts.enabled);
    print_syscall(&mut k, "?");
    assert_eq!(k.console.read_at(81).byte, b'?');
}

#[test]
fn questions_are_answered_from_the_state() {
    let mut k = kernel();
    assert!(flag(syscall_handler_inner(&mut k, Request::HasInitHeap(HasInitHeap {}), 0)));
    let loaded = Request::HasLoadedProcesses(HasLoadedProcesses {});
    assert!(!flag(syscall_handler_inner(&mut k, loaded, 0)));
    match syscall_handler_inner(&mut k, Request::GetCurrPageDir(GetCurrPageDir {}), 0) {
        Reply::PageDir(base) => assert_eq!(base, 0x10_0000),
        _ => panic!(),
    }
    let asked = [
        (Request::GetOnKeyDown(GetOnKeyDown {}), Singleton::OnKeyDown),
        (Request::GetOnKeyUp(GetOnKeyUp {}), Singleton::OnKeyUp),
        (Request::GetConsole(GetConsole {}), Singleton::Console),
        (Request::FsGetHeader(FsGetHeader {}), Singleton::FsHeader),
    ];
    for (request, expected) in asked {
        match syscall_handler_inner(&mut k, request, 0) {
            Reply::Reference(s) => assert_eq!(s, expected),
            _ => panic!(),
        }
    }
    on_key(&mut k.keyboard, 0x1D, 0);
    on_key(&mut k.keyboard, 0x3A, 0);
    on_key(&mut k.keyboard, 0xBA, 0);
    let pressed = |k: &mut Kernel<u32>, key| {
        flag(syscall_handler_inner(k, Request::IsKeyPressed(IsKeyPressed { key }), 0))
    };
    assert!(pressed(&mut k, Key::Ctrl));
    assert!(!pressed(&mut k, Key::CapsLock));
    assert!(!pressed(&mut k, Key::Alt));
    assert!(is_key_pressed(&k, Key::Ctrl));
    assert!(flag(syscall_handler_inner(&mut k, Request::IsCapsLockActive(IsCapsLockActive {}), 0)));
    assert_eq!(File::from_index(0).get_metadata(get_fs_header(&k)).size, 2);
}

#[test]
fn a_directory_is_listed_through_the_gateway() {
    let mut k = kernel();
    let request = Request::GetFilesInDir(GetFilesInDir { root: b"/".to_vec() });
    match syscall_handler_inner(&mut k, request, 0) {
        Reply::Listing { folders, files } => {
            assert_eq!(folders, vec![b"bin".to_vec()]);
            assert_eq!(files.len(), 1);
            assert_eq!(&files[0].path[..7], b"/shell\0");
            assert_eq!((files[0].sector, files[0].size), (3, 2));
        }
        _ => panic!(),
    }
}

#[test]
fn a_program_is_run_through_the_gateway() {
    let mut k = kernel();
    let reply = syscall_handler_inner(&mut k, Request::RunProgram(RunProgram { program: image() }), 0x9_F000);
    let loaded = match reply {
        Reply::Loaded(Ok(loaded)) => loaded,
        _ => panic!(),
    };
    // The directory was taken from the heap, at a page boundary.
    assert_eq!(loaded.dir.physical_base(), 0x52_4000);
    let context = Context { esp: loaded.stack.esp, eip: 0x1000_2500, dir: 0x52_4000 };
    assert_eq!(loaded.entered.dispatch, Some(context));
    assert_eq!(k.processes.get(0), Some(context));
    assert_eq!(k.paging.curr(), 0x52_4000);
    assert_eq!(loaded.entered.saved_esp.value, 0x9_F000);
    assert_eq!(loaded.copies[0].phys_addr, 0x440_0000);
    assert!(flag(syscall_handler_inner(&mut k, Request::HasLoadedProcesses(HasLoadedProcesses {}), 0)));
    // The directory stays in the heap.
    assert_eq!(pointer(allocate(&mut k, 16, 1)), Some(0x52_4000 + 8196 + 5));
}

#[test]
fn an_image_that_is_refused_costs_the_heap_nothing() {
    let mut k = kernel();
    let reply = syscall_handler_inner(&mut k, Request::RunProgram(RunProgram { program: vec![0; 60] }), 0);
    assert!(matches!(reply, Reply::Loaded(Err(ElfError::BadMagic))));
    assert_eq!(k.processes.len(), 0);
    // The block of the directory was given back: a request that fits
    // in front of the page boundary is placed at the start.
    assert_eq!(pointer(allocate(&mut k, 8196, 4096)), Some(0x52_4000));
}

#[test]
fn a_file_is_executed_through_the_gateway() {
    let mut k = kernel();
    let file = File::open("/shell", &mut k.fs).ok().unwrap();
    assert_eq!(file.get_metadata(&k.fs).flags.bits, 1);
    let mut content = image();
    content.resize(1024, 0);
    let request = Request::ExecuteFile(ExecuteFile { file, image: content });
    let loaded = match syscall_handler_inner(&mut k, request, 0x9_F000) {
        Reply::Loaded(Ok(loaded)) => loaded,
        _ => panic!(),
    };
    assert_eq!(k.processes.len(), 1);
    assert_eq!(k.processes.get(0).unwrap().dir, loaded.dir.physical_base());
    assert_eq!(File::from_index(0).get_metadata(&k.fs).flags.bits, 0);
    assert!(k.fs.is_dirty());
    // The buffer of the image was given back to the heap.
    let mut closed = File::from_index(0);
    closed.close(&mut k.fs);
    let request = Request::ExecuteFile(ExecuteFile { file: closed, image: image() });
    assert!(matches!(syscall_handler_inner(&mut k, request, 0), Reply::Refused));
    assert_eq!(k.processes.len(), 1);
}
