use kernel::grub::{heap_bytes, verify, MAGIC_NUMBER};

#[test]
fn the_hand_over_is_checked() {
    assert_eq!(verify(0x2BAD_B002, 1), Ok(()));
    assert_eq!(verify(MAGIC_NUMBER, 0xFFFF_FFFF), Ok(()));
    assert_eq!(verify(0x2BAD_B003, 1), Err("GRUB magic number incorrect."));
    assert_eq!(verify(0, 0), Err("GRUB magic number incorrect."));
    assert_eq!(verify(0x2BAD_B002, 0), Err("Basic multiboot memory info invalid."));
    assert_eq!(verify(0x2BAD_B002, 0xFFFF_FFFE), Err("Basic multiboot memory info invalid."));
}

#[test]
fn the_heap_is_capped_at_fifty_mebibytes() {
    assert_eq!(heap_bytes(0), 0);
    assert_eq!(heap_bytes(1), 1024);
    assert_eq!(heap_bytes(51199), 51199 * 1024);
    assert_eq!(heap_bytes(51200), 50 * 1024 * 1024);
    assert_eq!(heap_bytes(65536), 50 * 1024 * 1024);
    assert_eq!(heap_bytes(usize::MAX), 50 * 1024 * 1024);
}
