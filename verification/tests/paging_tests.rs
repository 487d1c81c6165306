use kernel::paging::{
    init, BumpArena, FramesUsage, KernelLayout, Page, PageDirectory, PageFlags, Paging,
    PagingError, ARENA_LIMIT, ARENA_START, HEAP_BASE, PRESENT, RW, TOTAL_FRAMES, USER,
};

fn fresh_paging(reserved: usize) -> Paging {
    Paging::new(FramesUsage::new(reserved), BumpArena::new())
}

fn rw() -> PageFlags {
    PageFlags::from_bits_retain(RW)
}

#[test]
fn page_bits_are_where_the_hardware_reads_them() {
    let mut p = Page(0);
    p.set_present(true);
    assert_eq!(p.0, 0x1);
    p.set_rw(true);
    assert_eq!(p.0, 0x3);
    p.set_user(true);
    assert_eq!(p.0, 0x7);
    p.set_accessed(true);
    assert_eq!(p.0, 0xF);
    p.set_dirty(true);
    assert_eq!(p.0, 0x1F);
    p.set_frame(0x12345);
    assert_eq!(p.0, 0x1234_501F);
    assert!(p.present() && p.rw() && p.user() && p.accessed() && p.dirty());
    assert_eq!(p.frame(), 0x12345);
    p.set_rw(false);
    assert_eq!(p.0, 0x1234_501D);
    assert!(!p.rw());
    assert!(p.present());
}

#[test]
fn page_frame_keeps_only_twenty_bits() {
    let mut p = Page(0xFFF);
    p.set_frame(0xFFFF_FFFF);
    assert_eq!(p.0, 0xFFFF_FFFF);
    p.set_frame(0x0010_0001);
    assert_eq!(p.frame(), 1);
    assert_eq!(p.0 & 0xFFF, 0xFFF);
}

#[test]
fn page_flags_contain_and_union() {
    let f = PageFlags::from_bits_retain(RW).union(PageFlags::from_bits_retain(USER));
    assert_eq!(f.bits(), 6);
    assert!(f.contains(PageFlags::from_bits_retain(USER)));
    assert!(f.contains(PageFlags::from_bits_retain(RW)));
    assert!(!f.contains(PageFlags::from_bits_retain(PRESENT)));
    assert!(PageFlags::empty().bits() == 0);
    assert!(f.contains(PageFlags::empty()));
}

#[test]
fn frame_index_and_offset() {
    assert_eq!(FramesUsage::get_idx_off(0), (0, 0));
    assert_eq!(FramesUsage::get_idx_off(31), (0, 31));
    assert_eq!(FramesUsage::get_idx_off(32), (1, 0));
    assert_eq!(FramesUsage::get_idx_off(1_048_575), (32767, 31));
}

#[test]
fn free_frames_are_distinct_and_rise() {
    let mut frames = FramesUsage::new(3);
    let mut seen = Vec::new();
    for _ in 0..40 {
        let f = frames.get_free_frame();
        assert!(!seen.contains(&f));
        let mut page = Page(0);
        frames.set_page_frame(&mut page, f);
        assert!(page.present());
        assert_eq!(page.frame() as usize, f);
        seen.push(f);
    }
    let expected: Vec<usize> = (3..43).collect();
    assert_eq!(seen, expected);
}

#[test]
fn freed_frame_is_handed_out_again() {
    let mut frames = FramesUsage::new(1);
    let mut a = Page(0);
    let mut b = Page(0);
    let fa = frames.get_free_frame();
    frames.set_page_frame(&mut a, fa);
    let fb = frames.get_free_frame();
    frames.set_page_frame(&mut b, fb);
    assert_eq!((fa, fb), (1, 2));
    frames.free_frame(&mut a);
    assert_eq!(a.frame(), 0);
    assert!(!a.present());
    assert!(!frames.frame_used(1));
    assert!(frames.frame_used(2));
    assert_eq!(frames.get_free_frame(), 1);
}

#[test]
fn freeing_a_page_without_frame_changes_nothing() {
    let mut frames = FramesUsage::new(0);
    frames.set_frame_used(0, true);
    let mut page = Page(0x7);
    frames.free_frame(&mut page);
    assert_eq!(page, Page(0x7));
    assert!(frames.frame_used(0));
}

#[test]
fn frame_scan_skips_full_words_and_the_reserved_prefix() {
    let mut frames = FramesUsage::new(5);
    for f in 0..70 {
        frames.set_frame_used(f, true);
    }
    assert_eq!(frames.get_free_frame(), 70);
    frames.set_frame_used(2, false);
    assert_eq!(frames.get_free_frame(), 70);
    frames.set_frame_used(64, false);
    assert_eq!(frames.get_free_frame(), 64);
    assert!(frames.any_free());
    let none = FramesUsage::new(TOTAL_FRAMES);
    assert!(!none.any_free());
}

#[test]
fn bump_arena_hands_out_rising_addresses() {
    let mut arena = BumpArena::new();
    assert_eq!(arena.placement_addr(), 0x10_0000);
    assert_eq!(arena.kmalloc(10, false), 0x10_0000);
    assert_eq!(arena.kmalloc(4096, true), 0x10_1000);
    assert_eq!(arena.placement_addr(), 0x10_2000);
    assert_eq!(arena.kmalloc(4, true), 0x10_2000);
    assert_eq!(arena.kmalloc(4, false), 0x10_2004);
    arena.seal(0x1000);
    assert_eq!(arena.heap_end(), 0x10_3008);
    assert!(arena.fits(0x1000, false));
    assert!(!arena.fits(0x1001, false));
    assert!(!arena.fits(9, true));
    assert!(arena.fits(8, true));
}

#[test]
fn make_page_maps_and_links_a_table_from_the_arena() {
    let mut paging = fresh_paging(0);
    let mut dir = PageDirectory::empty(0x20_0000);
    assert_eq!(dir.get_page(0x40_0000), None);
    assert_eq!(dir.make_page(&mut paging, 0x40_0123, 0x5678, rw()), Ok(()));
    assert_eq!(dir.get_page(0x40_0000), Some(Page(0x5003)));
    assert_eq!(dir.get_page(0x40_0FFF), Some(Page(0x5003)));
    assert_eq!(dir.get_page(0x40_1000), Some(Page(0)));
    assert_eq!(dir.get_page(0x80_0000), None);
    assert_eq!(paging.invalidated, vec![0x40_0000]);
    assert!(paging.frames.frame_used(5));
    assert!(!paging.frames.frame_used(4));
    assert_eq!(paging.arena.placement_addr(), 0x10_1000);
    // The table is seen through the recursive window, and so is the
    // directory itself.
    assert_eq!(dir.get_page(0xFFC0_1000), Some(Page(0x10_0003)));
    assert_eq!(dir.get_page(0xFFFF_F000), Some(Page(0x20_0003)));
    assert_eq!(dir.get_page(0xFFC0_0000), Some(Page(0)));
    assert_eq!(dir.get_page(0xFF80_0000), None);
    assert_eq!(dir.physical_base(), 0x20_0000);
}

#[test]
fn make_page_twice_is_refused_and_changes_nothing() {
    let mut paging = fresh_paging(0);
    let mut dir = PageDirectory::empty(0x20_0000);
    let user = PageFlags::from_bits_retain(RW | USER);
    assert_eq!(dir.make_page(&mut paging, 0x123_4000, 0x9_9000, user), Ok(()));
    let placement = paging.arena.placement_addr();
    assert_eq!(
        dir.make_page(&mut paging, 0x123_4FFF, 0x7_7000, rw()),
        Err(PagingError::AlreadyMapped)
    );
    assert_eq!(dir.get_page(0x123_4000), Some(Page(0x9_9007)));
    assert_eq!(paging.invalidated, vec![0x123_4000]);
    assert!(!paging.frames.frame_used(0x77));
    assert_eq!(paging.arena.placement_addr(), placement);
}

#[test]
fn make_page_refuses_the_windows() {
    let mut paging = fresh_paging(0);
    let mut dir = PageDirectory::empty(0x20_0000);
    assert_eq!(
        dir.make_page(&mut paging, 0xFF80_0000, 0x1000, rw()),
        Err(PagingError::ReservedWindow)
    );
    assert_eq!(
        dir.make_page(&mut paging, 0xFFFF_F000, 0x1000, rw()),
        Err(PagingError::ReservedWindow)
    );
    assert_eq!(dir.make_page(&mut paging, 0xFF7F_F000, 0x1000, rw()), Ok(()));
    assert_eq!(paging.invalidated, vec![0xFF7F_F000]);
}

#[test]
fn make_page_reports_a_spent_arena() {
    let mut arena = BumpArena::new();
    arena.seal(4095);
    let mut paging = Paging::new(FramesUsage::new(0), arena);
    let mut dir = PageDirectory::empty(0x20_0000);
    assert_eq!(
        dir.make_page(&mut paging, 0x1000, 0x1000, rw()),
        Err(PagingError::OutOfArena)
    );
    assert_eq!(dir.get_page(0x1000), None);
    assert!(paging.invalidated.is_empty());
}

#[test]
fn make_page_reports_a_full_bitmap() {
    let mut paging = fresh_paging(TOTAL_FRAMES);
    paging.heap_ready = true;
    let mut dir = PageDirectory::empty(0x20_0000);
    assert_eq!(
        dir.make_page(&mut paging, 0x1000, 0x1000, rw()),
        Err(PagingError::OutOfFrames)
    );
    assert_eq!(dir.get_page(0x1000), None);
}

#[test]
fn make_page_takes_tables_from_the_bitmap_once_the_heap_is_live() {
    let mut paging = fresh_paging(0x600);
    paging.heap_ready = true;
    let mut dir = PageDirectory::empty(0x20_0000);
    assert_eq!(dir.make_page(&mut paging, 0x80_0000, 0x70_0000, rw()), Ok(()));
    assert_eq!(dir.get_page(0xFFC0_2000), Some(Page(0x60_0003)));
    assert_eq!(dir.get_page(0x80_0000), Some(Page(0x70_0003)));
    assert!(paging.frames.frame_used(0x600));
    assert!(paging.frames.frame_used(0x700));
    assert!(!paging.frames.frame_used(0x601));
    assert_eq!(paging.arena.placement_addr(), 0x10_0000);
}

#[test]
fn map_addresses_walks_page_by_page_and_stops_at_the_first_refusal() {
    let mut paging = fresh_paging(0);
    let mut dir = PageDirectory::empty(0x20_0000);
    assert_eq!(
        dir.map_addresses(&mut paging, 0x50_0000, 0x50_2001, 0x90_0000, rw()),
        Ok(())
    );
    assert_eq!(dir.get_page(0x90_0000), Some(Page(0x50_0003)));
    assert_eq!(dir.get_page(0x90_1000), Some(Page(0x50_1003)));
    assert_eq!(dir.get_page(0x90_2000), Some(Page(0x50_2003)));
    assert_eq!(dir.get_page(0x90_3000), Some(Page(0)));
    assert_eq!(paging.invalidated, vec![0x90_0000, 0x90_1000, 0x90_2000]);
    // The second run meets the first at its third page.
    assert_eq!(
        dir.map_addresses(&mut paging, 0x60_0000, 0x60_4000, 0x8F_E000, rw()),
        Err(PagingError::AlreadyMapped)
    );
    assert_eq!(dir.get_page(0x8F_E000), Some(Page(0x60_0003)));
    assert_eq!(dir.get_page(0x8F_F000), Some(Page(0x60_1003)));
    assert_eq!(dir.get_page(0x90_0000), Some(Page(0x50_0003)));
    assert!(!paging.frames.frame_used(0x602));
    // An empty run does nothing.
    assert_eq!(dir.map_addresses(&mut paging, 0x10, 0x10, 0, rw()), Ok(()));
    assert_eq!(dir.map_addresses(&mut paging, 0x20, 0x10, 0, rw()), Ok(()));
    assert_eq!(dir.get_page(0), None);
}

#[test]
fn identity_map_maps_addresses_onto_themselves() {
    let mut paging = fresh_paging(0);
    let mut dir = PageDirectory::empty(0x20_0000);
    let user = PageFlags::from_bits_retain(RW | USER);
    assert_eq!(dir.identity_map(&mut paging, 0x30_0000, 0x30_2000, user), Ok(()));
    assert_eq!(dir.get_page(0x30_0000), Some(Page(0x30_0007)));
    assert_eq!(dir.get_page(0x30_1000), Some(Page(0x30_1007)));
    assert_eq!(dir.get_page(0x30_2000), Some(Page(0)));
}

#[test]
fn init_maps_the_kernel_onto_itself() {
    let layout = KernelLayout { load_addr: 0x100_0000, end_addr: 0x100_3800 };
    let booted = init(&layout).ok().unwrap();
    let dir = &booted.kernel_dir;
    let mut v: u32 = layout.load_addr;
    while v < layout.end_addr {
        let page = dir.get_page(v).unwrap();
        assert!(page.present());
        assert!(page.rw());
        assert!(!page.user());
        assert_eq!(page.frame() * 4096, v & !0xFFF);
        v += 0x321;
    }
    assert_eq!(dir.get_page(0x100_3FFF), Some(Page(0x100_3003)));
    assert_eq!(dir.get_page(0x100_4000), Some(Page(0)));
    // Low memory and the arena, without page 0.
    assert_eq!(dir.get_page(0), Some(Page(0)));
    assert_eq!(dir.get_page(0x1000), Some(Page(0x1003)));
    assert_eq!(dir.get_page(0xB_8000), Some(Page(0xB_8003)));
    assert_eq!(dir.get_page(0x52_2000), Some(Page(0x52_2003)));
    assert_eq!(dir.get_page(0x52_3000), Some(Page(0)));
    // A range that nothing maps has no descriptor at all.
    assert_eq!(dir.get_page(0x150_0000), None);
}

#[test]
fn init_fixes_the_arena_and_the_heap_base() {
    let layout = KernelLayout { load_addr: 0x100_0000, end_addr: 0x100_3800 };
    let booted = init(&layout).ok().unwrap();
    assert_eq!(booted.heap_start, 0x52_3000);
    assert_eq!(booted.heap_start, HEAP_BASE);
    assert_eq!(booted.paging.arena.heap_end(), 0x52_3000);
    assert_eq!(booted.paging.arena.heap_end(), ARENA_LIMIT);
    assert_eq!(booted.heap_start % 4096, 0);
    assert!(booted.heap_start >= booted.paging.arena.heap_end());
    assert_eq!(booted.heap_start, booted.paging.arena.heap_end());
    assert_eq!(booted.kernel_dir.physical_base(), ARENA_START);
    assert_eq!(booted.paging.curr(), ARENA_START);
    assert!(booted.paging.enabled);
    assert!(!booted.paging.heap_ready);
    assert!(booted.paging.frames.frame_used(0));
    assert!(booted.paging.frames.frame_used(0x522));
    assert!(!booted.paging.frames.frame_used(0x523));
    assert!(booted.paging.frames.frame_used(0x1000));
    assert!(booted.paging.frames.frame_used(0x1003));
    assert!(!booted.paging.frames.frame_used(0x1004));
    assert_eq!(booted.paging.frames.get_free_frame(), 0x523);
    // Three tables were taken from the arena behind the directory and the
    // bitmap: for low memory, for the rest of the arena, for the kernel.
    assert_eq!(booted.paging.arena.placement_addr(), 0x12_6000);
}

#[test]
fn init_refuses_an_image_that_does_not_fit() {
    let over_low = KernelLayout { load_addr: 0x10_0000, end_addr: 0x10_4000 };
    assert_eq!(init(&over_low).err(), Some(PagingError::AlreadyMapped));
    let over_arena = KernelLayout { load_addr: 0x52_2000, end_addr: 0x52_2001 };
    assert_eq!(init(&over_arena).err(), Some(PagingError::AlreadyMapped));
    let in_window = KernelLayout { load_addr: 0xFF7F_F000, end_addr: 0xFF80_1000 };
    assert_eq!(init(&in_window).err(), Some(PagingError::ReservedWindow));
    let empty = KernelLayout { load_addr: 0x10_0000, end_addr: 0x10_0000 };
    assert!(init(&empty).is_ok());
    let just_behind = KernelLayout { load_addr: 0x52_3000, end_addr: 0x52_3001 };
    assert!(init(&just_behind).is_ok());
}

#[test]
fn get_free_page_names_the_first_region_without_a_table() {
    let layout = KernelLayout { load_addr: 0x100_0000, end_addr: 0x100_3800 };
    let booted = init(&layout).ok().unwrap();
    assert_eq!(booted.kernel_dir.get_free_page(), Some(0x80_0000));
    let dir = PageDirectory::empty(0x20_0000);
    assert_eq!(dir.get_free_page(), Some(0));
}

#[test]
fn switch_to_makes_a_directory_the_active_one() {
    let mut paging = fresh_paging(0);
    let dir = PageDirectory::empty(0x7_7000);
    assert_eq!(paging.curr(), 0);
    dir.switch_to(&mut paging);
    assert_eq!(paging.curr(), 0x7_7000);
    assert!(paging.enabled);
}

#[test]
fn new_directory_has_the_kernel_mapped() {
    let layout = KernelLayout { load_addr: 0x100_0000, end_addr: 0x100_3800 };
    let mut booted = init(&layout).ok().unwrap();
    booted.paging.heap_ready = true;
    let dir = PageDirectory::new(0x300_0000, &mut booted.paging, &layout).ok().unwrap();
    assert_eq!(dir.physical_base(), 0x300_0000);
    assert_eq!(dir.get_page(0x100_1000), Some(Page(0x100_1003)));
    assert_eq!(dir.get_page(0x1000), Some(Page(0x1003)));
    // Its tables come from the frame bitmap now.
    assert_eq!(dir.get_page(0xFFC0_0000), Some(Page(0x52_3003)));
    assert_eq!(dir.get_page(0xFFFF_F000), Some(Page(0x300_0003)));
    assert!(booted.paging.frames.frame_used(0x523));
}

#[test]
fn teardown_frees_the_tables_above_the_arena() {
    let layout = KernelLayout { load_addr: 0x100_0000, end_addr: 0x100_3800 };
    let mut booted = init(&layout).ok().unwrap();
    booted.paging.heap_ready = true;
    let dir = PageDirectory::new(0x300_0000, &mut booted.paging, &layout).ok().unwrap();
    assert!(booted.paging.frames.frame_used(0x523));
    assert!(booted.paging.frames.frame_used(0x524));
    assert!(booted.paging.frames.frame_used(0x525));
    dir.teardown(&mut booted.paging);
    assert!(!booted.paging.frames.frame_used(0x523));
    assert!(!booted.paging.frames.frame_used(0x524));
    assert!(!booted.paging.frames.frame_used(0x525));
    // The frames behind the pages stay marked.
    assert!(booted.paging.frames.frame_used(0x1000));
    // The kernel's own tables lie in the arena and stay.
    let before = booted.paging.frames.frame_used(0x123);
    booted.kernel_dir.teardown(&mut booted.paging);
    assert_eq!(booted.paging.frames.frame_used(0x123), before);
    assert!(booted.paging.frames.frame_used(0x124));
}

#[test]
fn foreign_directory_is_edited_through_the_window() {
    let mut paging = fresh_paging(0);
    let mut active = PageDirectory::empty(0x20_0000);
    let mut foreign = PageDirectory::empty(0x30_0000);
    let user = PageFlags::from_bits_retain(RW | USER);
    assert_eq!(
        active.make_foreign_page(&mut foreign, &mut paging, 0xC0_3000, 0x44_4000, user),
        Ok(())
    );
    assert_eq!(foreign.get_page(0xC0_3000), Some(Page(0x44_4007)));
    assert_eq!(active.get_page(0xC0_3000), None);
    assert_eq!(paging.invalidated, vec![0xFFBF_E000, 0xFF80_3000, 0xFFBF_E000]);
    assert_eq!(
        active.make_foreign_page(&mut foreign, &mut paging, 0xC0_3000, 0x55_5000, user),
        Err(PagingError::AlreadyMapped)
    );
    assert_eq!(foreign.get_page(0xC0_3000), Some(Page(0x44_4007)));
    assert_eq!(
        paging.invalidated,
        vec![0xFFBF_E000, 0xFF80_3000, 0xFFBF_E000, 0xFFBF_E000, 0xFFBF_E000]
    );
    // Slot 1022 of the active directory is clear again.
    assert_eq!(active.get_page(0xFFFF_FFF8), Some(Page(0x20_0003)));
    assert_eq!(active.get_page(0xFFC0_0000 + 1022 * 4096), Some(Page(0)));
}

#[test]
fn a_refused_page_leaves_the_entry_the_slot_and_the_bitmap() {
    let mut paging = fresh_paging(0);
    let mut dir = PageDirectory::empty(0x20_0000);
    let user = PageFlags::from_bits_retain(RW | USER);
    assert_eq!(dir.make_page(&mut paging, 0x90_0000, 0x50_0000, user), Ok(()));
    let slot = dir.get_page(0xFFC0_2000);
    let placement = paging.arena.placement_addr();
    let marked: Vec<bool> = (0..0x800).map(|f| paging.frames.frame_used(f)).collect();
    assert_eq!(
        dir.map_addresses(&mut paging, 0x60_0000, 0x60_1000, 0x90_0000, rw()),
        Err(PagingError::AlreadyMapped)
    );
    assert_eq!(dir.get_page(0x90_0000), Some(Page(0x50_0007)));
    assert_eq!(dir.get_page(0xFFC0_2000), slot);
    assert_eq!(paging.arena.placement_addr(), placement);
    let after: Vec<bool> = (0..0x800).map(|f| paging.frames.frame_used(f)).collect();
    assert_eq!(after, marked);
    assert!(paging.frames.frame_used(0x500));
    assert!(!paging.frames.frame_used(0x600));
    assert_eq!(paging.invalidated, vec![0x90_0000]);
}

#[test]
fn a_new_directory_has_only_the_kernel_in_its_slots() {
    let layout = KernelLayout { load_addr: 0x1000_0000, end_addr: 0x1000_3800 };
    let mut booted = init(&layout).ok().unwrap();
    booted.paging.heap_ready = true;
    let dir = PageDirectory::new(0x300_0000, &mut booted.paging, &layout).ok().unwrap();
    // Slot 1023 refers to the directory itself, slot 1022 is empty.
    assert_eq!(dir.get_page(0xFFFF_F000), Some(Page(0x300_0003)));
    assert_eq!(dir.get_page(0xFFFF_E000), Some(Page(0)));
    // Low memory and the arena take slots 0 and 1, the image slot 64.
    for slot in 0..1022u32 {
        let entry = dir.get_page(0xFFC0_0000 + slot * 4096).unwrap();
        assert_eq!(entry.present(), slot == 0 || slot == 1 || slot == 64, "slot {}", slot);
        if !entry.present() {
            assert_eq!(entry, Page(0));
            assert_eq!(dir.get_page(slot << 22), None);
        }
    }
}

#[test]
fn a_new_table_is_zeroed() {
    let mut paging = fresh_paging(0);
    let mut dir = PageDirectory::empty(0x20_0000);
    assert_eq!(dir.make_page(&mut paging, 0x40_5000, 0x7000, rw()), Ok(()));
    for page in 0..1024u32 {
        let entry = dir.get_page(0x40_0000 + page * 4096);
        if page == 5 {
            assert_eq!(entry, Some(Page(0x7003)));
        } else {
            assert_eq!(entry, Some(Page(0)));
        }
    }
}
