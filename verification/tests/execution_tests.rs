use kernel::execution::{
    segment_content, stack_content, enter_loaded_program, load_segment, make_stack, parse_header, program_header, read_u16,
    read_u32, run_program, ElfError, ElfHeader, ElfProgramHeader, Loader, SegmentCopy, StackPlan,
    WordWrite,
};
use kernel::heap;
use kernel::paging::{self, KernelLayout, Page, PageDirectory, PagingError};
use kernel::process::{Context, ProcessTable};

const LAYOUT: KernelLayout = KernelLayout { load_addr: 0x1000_0000, end_addr: 0x1000_4000 };

fn put_u16(image: &mut [u8], at: usize, value: u16) {
    image[at..at + 2].copy_from_slice(&value.to_le_bytes());
}

fn put_u32(image: &mut [u8], at: usize, value: u32) {
    image[at..at + 4].copy_from_slice(&value.to_le_bytes());
}

/// An image with the given program header entries, each of
/// (type, offset, virtual address, file size, memory size), and `tail`
/// bytes of content behind the table.
fn image(entry: u32, entries: &[(u32, u32, u32, u32, u32)], tail: &[u8]) -> Vec<u8> {
    let mut image = vec![0u8; 52 + 32 * entries.len()];
    image[0..4].copy_from_slice(&[0x7F, b'E', b'L', b'F']);
    put_u32(&mut image, 24, entry);
    put_u32(&mut image, 28, 52);
    put_u16(&mut image, 42, 32);
    put_u16(&mut image, 44, entries.len() as u16);
    for (i, e) in entries.iter().enumerate() {
        let at = 52 + 32 * i;
        put_u32(&mut image, at, e.0);
        put_u32(&mut image, at + 4, e.1);
        put_u32(&mut image, at + 8, e.2);
        put_u32(&mut image, at + 16, e.3);
        put_u32(&mut image, at + 20, e.4);
    }
    image.extend_from_slice(tail);
    image
}

/// Paging and a small heap as they stand after boot.
fn machine() -> (paging::Paging, PageDirectory) {
    let mut booted = paging::init(&LAYOUT).ok().unwrap();
    heap::init(&mut booted.kernel_dir, &mut booted.paging, booted.heap_start, 0x42_3000 + 0x4000)
        .ok()
        .unwrap();
    (booted.paging, booted.kernel_dir)
}

#[test]
fn numbers_are_read_low_byte_first() {
    let bytes = [0x78, 0x56, 0x34, 0x12, 0xFF];
    assert_eq!(read_u16(&bytes, 0), 0x5678);
    assert_eq!(read_u16(&bytes, 3), 0xFF12);
    assert_eq!(read_u32(&bytes, 0), 0x1234_5678);
    assert_eq!(read_u32(&bytes, 1), 0xFF12_3456);
}

#[test]
fn the_header_is_checked_and_read() {
    let good = image(0x0804_8000, &[(1, 84, 0x0804_8000, 0, 0)], &[]);
    assert_eq!(
        parse_header(&good),
        Ok(ElfHeader {
            entry: 0x0804_8000,
            prog_offset: 52,
            prog_entry_size: 32,
            prog_header_len: 1
        })
    );
    assert_eq!(parse_header(&good[..51]), Err(ElfError::TooShort));
    assert_eq!(parse_header(&[]), Err(ElfError::TooShort));
    for i in 0..4 {
        let mut bad = good.clone();
        bad[i] ^= 0x20;
        assert_eq!(parse_header(&bad), Err(ElfError::BadMagic));
    }
    // A table that reaches past the image.
    assert_eq!(parse_header(&good[..83]), Err(ElfError::BadProgramTable));
    let mut far = good.clone();
    put_u32(&mut far, 28, 53);
    assert_eq!(parse_header(&far), Err(ElfError::BadProgramTable));
    // Entries too short to read.
    let mut short = good.clone();
    put_u16(&mut short, 42, 31);
    assert_eq!(parse_header(&short), Err(ElfError::BadProgramTable));
    // No table at all is in order, wherever it is said to be.
    let mut none = good.clone();
    put_u16(&mut none, 44, 0);
    put_u32(&mut none, 28, 0xFFFF_FFFF);
    put_u16(&mut none, 42, 0);
    assert!(parse_header(&none).is_ok());
    // The length is judged before the magic bytes.
    assert_eq!(parse_header(&[0u8; 51]), Err(ElfError::TooShort));
    assert_eq!(parse_header(&[0u8; 52]), Err(ElfError::BadMagic));
}

#[test]
fn program_header_entries_are_read_by_their_stride() {
    let mut img = image(0, &[(1, 2, 3, 4, 5), (6, 7, 8, 9, 10)], &[]);
    let header = parse_header(&img).unwrap();
    assert_eq!(
        program_header(&img, &header, 1),
        ElfProgramHeader { prog_type: 6, offset: 7, virt_addr: 8, file_size: 9, mem_size: 10 }
    );
    // With a stride of 40 the second entry begins eight bytes later.
    img.extend_from_slice(&[0u8; 16]);
    put_u16(&mut img, 42, 40);
    put_u32(&mut img, 52 + 40, 0xAABB_CCDD);
    let header = parse_header(&img).unwrap();
    assert_eq!(program_header(&img, &header, 0).prog_type, 1);
    assert_eq!(program_header(&img, &header, 1).prog_type, 0xAABB_CCDD);
}

#[test]
fn a_segment_gets_whole_pages_from_the_watermark() {
    let (mut paging, _) = machine();
    let mut dir = PageDirectory::empty(0x60_0000);
    let mut loader = Loader::new();
    assert_eq!(loader.mem_start(), 0x440_0000);
    let entry = ElfProgramHeader {
        prog_type: 1,
        offset: 0x100,
        virt_addr: 0x0804_8000,
        file_size: 0x20,
        mem_size: 0x1001,
    };
    let copy = load_segment(&mut dir, &mut paging, &mut loader, &entry, 0x120);
    assert_eq!(
        copy,
        Ok(SegmentCopy {
            virt_addr: 0x0804_8000,
            phys_addr: 0x440_0000,
            offset: 0x100,
            file_size: 0x20,
            mem_size: 0x1001
        })
    );
    assert_eq!(loader.mem_start(), 0x440_2000);
    assert_eq!(dir.get_page(0x0804_8000), Some(Page(0x440_0007)));
    assert_eq!(dir.get_page(0x0804_9000), Some(Page(0x440_1007)));
    assert_eq!(dir.get_page(0x0804_A000), Some(Page(0)));
    // A segment of whole pages takes no page more.
    let whole = ElfProgramHeader { mem_size: 0x2000, virt_addr: 0x0900_0000, ..entry };
    assert!(load_segment(&mut dir, &mut paging, &mut loader, &whole, 0x120).is_ok());
    assert_eq!(loader.mem_start(), 0x440_4000);
    let empty = ElfProgramHeader { mem_size: 0, file_size: 0, virt_addr: 0x0A00_0000, ..entry };
    assert!(load_segment(&mut dir, &mut paging, &mut loader, &empty, 0x120).is_ok());
    assert_eq!(loader.mem_start(), 0x440_4000);
    assert_eq!(dir.get_page(0x0A00_0000), None);
}

#[test]
fn a_segment_that_cannot_be_placed_is_refused() {
    let (mut paging, _) = machine();
    let mut dir = PageDirectory::empty(0x60_0000);
    let mut loader = Loader::new();
    let entry = ElfProgramHeader {
        prog_type: 1,
        offset: 0x100,
        virt_addr: 0x0804_8000,
        file_size: 0x20,
        mem_size: 0x1000,
    };
    let outside = load_segment(&mut dir, &mut paging, &mut loader, &entry, 0x11F);
    assert_eq!(outside, Err(ElfError::BadSegment));
    let larger = ElfProgramHeader { file_size: 0x1001, ..entry };
    assert_eq!(
        load_segment(&mut dir, &mut paging, &mut loader, &larger, 0x10000),
        Err(ElfError::BadSegment)
    );
    let huge = ElfProgramHeader { mem_size: 0xFBC0_0000, ..entry };
    assert_eq!(
        load_segment(&mut dir, &mut paging, &mut loader, &huge, 0x120),
        Err(ElfError::OutOfMemory)
    );
    assert_eq!(loader.mem_start(), 0x440_0000);
    assert_eq!(dir.get_page(0x0804_8000), None);
    assert!(load_segment(&mut dir, &mut paging, &mut loader, &entry, 0x120).is_ok());
    let again = load_segment(&mut dir, &mut paging, &mut loader, &entry, 0x120);
    assert_eq!(again, Err(ElfError::Mapping(PagingError::AlreadyMapped)));
    let window = ElfProgramHeader { virt_addr: 0xFFC0_0000, ..entry };
    assert_eq!(
        load_segment(&mut dir, &mut paging, &mut loader, &window, 0x120),
        Err(ElfError::Mapping(PagingError::ReservedWindow))
    );
    assert_eq!(loader.mem_start(), 0x440_1000);
}

#[test]
fn the_stack_follows_the_segments() {
    let (mut paging, _) = machine();
    let mut dir = PageDirectory::empty(0x60_0000);
    let mut loader = Loader::new();
    let stack = make_stack(&mut dir, &mut paging, &mut loader);
    assert_eq!(
        stack,
        Ok(StackPlan {
            base: 0x440_0000,
            top: 0x440_4000,
            saved_esp_slot: 0x440_3FEC,
            entry_slot: 0x440_3FE8,
            esp: 0x440_3FE4
        })
    );
    assert_eq!(loader.mem_start(), 0x440_4000);
    for page in 0..4u32 {
        let addr = 0x440_0000 + page * 0x1000;
        assert_eq!(dir.get_page(addr), Some(Page(addr | 7)));
    }
    assert_eq!(dir.get_page(0x440_4000), Some(Page(0)));
}

#[test]
fn a_loaded_program_is_registered_with_its_words_on_the_stack() {
    let (mut paging, _) = machine();
    let mut table = ProcessTable::new();
    paging.current = 0x10_0000;
    let entered = enter_loaded_program(
        0x0804_8010,
        0x440_3FF0,
        0x60_0000,
        0x10_0000,
        0x9_F000,
        0xC0DE,
        &mut paging,
        &mut table,
    );
    assert_eq!(entered.saved_esp, WordWrite { addr: 0x440_3FEC, value: 0x9_F000 });
    assert_eq!(entered.entry, WordWrite { addr: 0x440_3FE8, value: 0x0804_8010 });
    let context = Context { esp: 0x440_3FE4, eip: 0xC0DE, dir: 0x60_0000 };
    assert_eq!(entered.dispatch, Some(context));
    assert_eq!(table.get(0), Some(context));
    assert_eq!(paging.curr(), 0x60_0000);
    // A second program waits for the timer.
    paging.current = 0x60_0000;
    let second = enter_loaded_program(
        1, 0x500_0000, 0x70_0000, 0x60_0000, 2, 0xC0DE, &mut paging, &mut table,
    );
    assert_eq!(second.dispatch, None);
    assert_eq!(paging.curr(), 0x60_0000);
    assert_eq!(table.len(), 2);
}

#[test]
fn a_program_is_loaded_into_its_own_address_space() {
    let (mut paging, kernel_dir) = machine();
    let mut table = ProcessTable::new();
    let mut loader = Loader::new();
    let sentinel = [0xBE, 0xBA, 0xFE, 0xCA];
    let img = image(
        0x0804_8000,
        &[
            (1, 148, 0x0804_8000, 4, 0x1800),
            (4, 0, 0x0700_0000, 0, 0x9000),
            (1, 152, 0x0805_0000, 0, 0x10),
        ],
        &sentinel,
    );
    let before = paging.curr();
    let loaded = run_program(
        &img, &mut loader, &mut paging, &mut table, &LAYOUT, 0x60_0000, 0xC0DE, 0x9_F000,
    )
    .ok()
    .unwrap();
    assert_eq!(
        loaded.copies,
        vec![
            SegmentCopy {
                virt_addr: 0x0804_8000,
                phys_addr: 0x440_0000,
                offset: 148,
                file_size: 4,
                mem_size: 0x1800
            },
            SegmentCopy {
                virt_addr: 0x0805_0000,
                phys_addr: 0x440_2000,
                offset: 152,
                file_size: 0,
                mem_size: 0x10
            },
        ]
    );
    // The sentinel is copied to where the program's directory leads.
    let copy = loaded.copies[0];
    assert_eq!(&img[copy.offset as usize..][..copy.file_size as usize], &sentinel);
    let page = loaded.dir.get_page(0x0804_8000).unwrap();
    assert!(page.present() && page.user() && page.rw());
    assert_eq!(page.frame() * 4096, copy.phys_addr);
    assert_eq!(loaded.dir.get_page(0x0804_9000), Some(Page(0x440_1007)));
    assert_eq!(loaded.dir.get_page(0x0805_0000), Some(Page(0x440_2007)));
    assert_eq!(loaded.dir.get_page(0x0700_0000), None);
    assert_eq!(kernel_dir.get_page(0x0804_8000), None);
    // The stack lies behind the segments.
    assert_eq!(loaded.stack.base, 0x440_3000);
    assert_eq!(loaded.stack.top, 0x440_7000);
    assert_eq!(loaded.stack.esp, 0x440_6FE4);
    assert_eq!(loaded.dir.get_page(0x440_3000), Some(Page(0x440_3007)));
    assert_eq!(loaded.dir.get_page(0x440_6000), Some(Page(0x440_6007)));
    assert_eq!(loader.mem_start(), 0x440_7000);
    // The kernel and the heap are mapped as well.
    assert_eq!(loaded.dir.get_page(0x1000_0000), Some(Page(0x1000_0003)));
    assert_eq!(loaded.dir.get_page(0xB_8000), Some(Page(0xB_8003)));
    assert_eq!(loaded.dir.get_page(0x52_3000), Some(Page(0x52_3007)));
    assert_eq!(loaded.dir.get_page(0x32F_F000), Some(Page(0x32F_F007)));
    assert_eq!(loaded.dir.get_page(0x330_0000), Some(Page(0)));
    assert_eq!(loaded.dir.physical_base(), 0x60_0000);
    // It is the first process and is entered at once.
    let context = Context { esp: 0x440_6FE4, eip: 0xC0DE, dir: 0x60_0000 };
    assert_eq!(loaded.entered.dispatch, Some(context));
    assert_eq!(loaded.entered.entry, WordWrite { addr: 0x440_6FE8, value: 0x0804_8000 });
    assert_eq!(loaded.entered.saved_esp, WordWrite { addr: 0x440_6FEC, value: 0x9_F000 });
    assert_eq!(table.get(0), Some(context));
    assert_eq!(paging.curr(), 0x60_0000);
    assert!(before != 0x60_0000);
}

#[test]
fn a_second_program_waits_and_the_caller_stays_active() {
    let (mut paging, _) = machine();
    let mut table = ProcessTable::new();
    let mut loader = Loader::new();
    let img = image(0x0804_8000, &[(1, 84, 0x0804_8000, 0, 0x1000)], &[]);
    run_program(&img, &mut loader, &mut paging, &mut table, &LAYOUT, 0x60_0000, 0xC0DE, 1)
        .ok()
        .unwrap();
    assert_eq!(paging.curr(), 0x60_0000);
    let second =
        run_program(&img, &mut loader, &mut paging, &mut table, &LAYOUT, 0x70_0000, 0xC0DE, 1)
            .ok()
            .unwrap();
    assert_eq!(second.entered.dispatch, None);
    assert_eq!(paging.curr(), 0x60_0000);
    assert_eq!(second.copies[0].phys_addr, 0x440_5000);
    assert_eq!(table.len(), 2);
    assert_eq!(table.get(1).unwrap().dir, 0x70_0000);
}

#[test]
fn an_image_that_is_refused_changes_nothing() {
    let (mut paging, _) = machine();
    let mut table = ProcessTable::new();
    let mut loader = Loader::new();
    let mut img = image(0x0804_8000, &[(1, 84, 0x0804_8000, 0, 0x1000)], &[]);
    img[1] = b'e';
    let used = paging.frames.get_free_frame();
    let r = run_program(&img, &mut loader, &mut paging, &mut table, &LAYOUT, 0x60_0000, 1, 1);
    assert_eq!(r.err(), Some(ElfError::BadMagic));
    assert_eq!(table.len(), 0);
    assert_eq!(loader.mem_start(), 0x440_0000);
    assert_eq!(paging.frames.get_free_frame(), used);
    let r = run_program(&img[..20], &mut loader, &mut paging, &mut table, &LAYOUT, 0x60_0000, 1, 1);
    assert_eq!(r.err(), Some(ElfError::TooShort));
    // A segment outside the image, found after the first was placed.
    let bad = image(
        0,
        &[(1, 84, 0x0804_8000, 0, 0x1000), (1, 0xFFFF, 0x0900_0000, 1, 0x1000)],
        &[],
    );
    let r = run_program(&bad, &mut loader, &mut paging, &mut table, &LAYOUT, 0x60_0000, 1, 1);
    assert_eq!(r.err(), Some(ElfError::BadSegment));
    assert_eq!(table.len(), 0);
    let twice = image(
        0,
        &[(1, 84, 0x0804_8000, 0, 0x1000), (1, 84, 0x0804_8000, 0, 0x1000)],
        &[],
    );
    let r = run_program(&twice, &mut loader, &mut paging, &mut table, &LAYOUT, 0x60_0000, 1, 1);
    assert_eq!(r.err(), Some(ElfError::Mapping(PagingError::AlreadyMapped)));
    assert_eq!(table.len(), 0);
}

#[test]
fn a_segment_holds_its_bytes_and_zeroes_behind_them() {
    let img = image(0, &[(1, 84, 0x0804_8000, 3, 8)], &[0xAA, 0xBB, 0xCC, 0xDD]);
    let copy = SegmentCopy {
        virt_addr: 0x0804_8000,
        phys_addr: 0x440_0000,
        offset: 84,
        file_size: 3,
        mem_size: 8,
    };
    assert_eq!(segment_content(&img, &copy), vec![0xAA, 0xBB, 0xCC, 0, 0, 0, 0, 0]);
    let whole = SegmentCopy { file_size: 4, mem_size: 4, ..copy };
    assert_eq!(segment_content(&img, &whole), vec![0xAA, 0xBB, 0xCC, 0xDD]);
    let none = SegmentCopy { file_size: 0, mem_size: 0, offset: 88, ..copy };
    assert!(segment_content(&img, &none).is_empty());
}

#[test]
fn the_stack_is_filled_around_its_two_words() {
    let (mut paging, _) = machine();
    let mut table = ProcessTable::new();
    let mut loader = Loader::new();
    let img = image(0x0804_8010, &[], &[]);
    let loaded = run_program(
        &img, &mut loader, &mut paging, &mut table, &LAYOUT, 0x60_0000, 0xC0DE, 0x9_F000,
    )
    .ok()
    .unwrap();
    assert!(loaded.copies.is_empty());
    let words = stack_content(&loaded.stack, &loaded.entered);
    assert_eq!(words.len(), 4096);
    let at = |addr: u32| words[((addr - loaded.stack.base) / 4) as usize];
    assert_eq!(at(loaded.stack.saved_esp_slot), 0x9_F000);
    assert_eq!(at(loaded.stack.entry_slot), 0x0804_8010);
    assert_eq!(at(loaded.stack.esp), 0xDEAD_BEEF);
    assert_eq!(at(loaded.stack.base), 0xDEAD_BEEF);
    assert_eq!(at(loaded.stack.top - 4), 0xDEAD_BEEF);
    assert_eq!(words.iter().filter(|w| **w == 0xDEAD_BEEF).count(), 4094);
}
