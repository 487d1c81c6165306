use kernel::ata::{
    batches, init, panic_if_error, read_sectors, setup_flags, wait_for, write_sectors, AtaError,
    Batch, STATUS_BSY, STATUS_DRQ,
};
use kernel::interrupts::InterruptTable;
use kernel::io::PortWrite;

fn w(port: u16, value: u8) -> PortWrite {
    PortWrite { port, value }
}

#[test]
fn a_command_is_set_up_with_the_block_address() {
    assert_eq!(
        setup_flags(0x0ABC_DEF1, 3),
        vec![w(0x1F6, 0xEA), w(0x1F2, 3), w(0x1F3, 0xF1), w(0x1F4, 0xDE), w(0x1F5, 0xBC)]
    );
    assert_eq!(
        setup_flags(42, 1),
        vec![w(0x1F6, 0xE0), w(0x1F2, 1), w(0x1F3, 42), w(0x1F4, 0), w(0x1F5, 0)]
    );
    assert_eq!(setup_flags(0xFFFF_FFFF, 255)[0], w(0x1F6, 0xEF));
}

#[test]
fn block_42_is_written_and_read_with_one_command_each() {
    let run = batches(42, 1);
    assert_eq!(run, vec![Batch { lba: 42, sectors: 1 }]);
    let set_up = vec![w(0x1F6, 0xE0), w(0x1F2, 1), w(0x1F3, 42), w(0x1F4, 0), w(0x1F5, 0)];
    let mut write = set_up.clone();
    write.push(w(0x1F7, 0x30));
    let mut read = set_up;
    read.push(w(0x1F7, 0x20));
    assert_eq!(write_sectors(run[0]), write);
    assert_eq!(read_sectors(run[0]), read);
}

#[test]
fn a_transfer_is_cut_into_commands_of_255_sectors() {
    assert_eq!(batches(7, 0), vec![]);
    assert_eq!(batches(0, 255), vec![Batch { lba: 0, sectors: 255 }]);
    assert_eq!(
        batches(0, 256),
        vec![Batch { lba: 0, sectors: 255 }, Batch { lba: 255, sectors: 1 }]
    );
    assert_eq!(
        batches(10, 600),
        vec![
            Batch { lba: 10, sectors: 255 },
            Batch { lba: 265, sectors: 255 },
            Batch { lba: 520, sectors: 90 },
        ]
    );
    assert_eq!(
        batches(0xFFFF_FD00, 0x2FF).last(),
        Some(&Batch { lba: 0xFFFF_FD00 + 765, sectors: 2 })
    );
    let total: u32 = batches(3, 100_000).iter().map(|b| b.sectors as u32).sum();
    assert_eq!(total, 100_000);
}

#[test]
fn waiting_ends_when_the_flag_is_as_asked() {
    assert!(wait_for(0x00, STATUS_BSY, false));
    assert!(!wait_for(0x80, STATUS_BSY, false));
    assert!(!wait_for(0xC0, STATUS_BSY, false));
    assert!(wait_for(0x58, STATUS_DRQ, true));
    assert!(!wait_for(0x50, STATUS_DRQ, true));
}

#[test]
fn a_set_error_register_is_an_error() {
    assert_eq!(panic_if_error(0), Ok(()));
    assert_eq!(panic_if_error(0x04), Err(AtaError(0x04)));
    assert_eq!(panic_if_error(0xFF), Err(AtaError(0xFF)));
}

#[test]
fn the_disk_lines_get_their_handlers() {
    let mut table = InterruptTable::new(0x08);
    init(&mut table, 0x1400, 0x1500);
    assert_eq!(table.handler_for(0x2E), Some(0x1400));
    assert_eq!(table.handler_for(0x2F), Some(0x1500));
    assert_eq!(table.handler_for(0x2D), None);
}
