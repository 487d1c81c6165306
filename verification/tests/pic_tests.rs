use kernel::io::{wait, PortWrite};
use kernel::pic::{mask_port, remap, send_eoi, set_mask};

fn w(port: u16, value: u8) -> PortWrite {
    PortWrite { port, value }
}

#[test]
fn remap_sends_the_four_words_and_restores_the_masks() {
    let pause = w(0x80, 0);
    assert_eq!(wait(), pause);
    assert_eq!(
        remap(0xB8, 0x8E),
        vec![
            w(0x20, 0x11),
            pause,
            w(0xA0, 0x11),
            pause,
            w(0x21, 0x20),
            pause,
            w(0xA1, 0x28),
            pause,
            w(0x21, 4),
            pause,
            w(0xA1, 2),
            pause,
            w(0x21, 1),
            pause,
            w(0xA1, 1),
            pause,
            w(0x21, 0xB8),
            w(0xA1, 0x8E),
        ]
    );
}

#[test]
fn masks_are_set_and_cleared_bit_by_bit() {
    assert_eq!(set_mask(0, true, 0x00), w(0x21, 0x01));
    assert_eq!(set_mask(1, true, 0xB8), w(0x21, 0xBA));
    assert_eq!(set_mask(7, false, 0xFF), w(0x21, 0x7F));
    assert_eq!(set_mask(8, true, 0x00), w(0xA1, 0x01));
    assert_eq!(set_mask(14, false, 0xFF), w(0xA1, 0xBF));
    assert_eq!(set_mask(15, true, 0x0F), w(0xA1, 0x8F));
    assert_eq!(set_mask(3, true, 0x08), w(0x21, 0x08));
    assert_eq!(mask_port(0), 0x21);
    assert_eq!(mask_port(7), 0x21);
    assert_eq!(mask_port(8), 0xA1);
    assert_eq!(mask_port(15), 0xA1);
}

#[test]
fn masking_and_unmasking_an_open_line_restores_the_masks() {
    for line in 0..16u8 {
        for masks in 0..=255u8 {
            let masked = set_mask(line, true, masks).value;
            let back = set_mask(line, false, masked).value;
            let bit = 1u8 << (line % 8);
            assert_eq!(masked, masks | bit);
            assert_eq!(back, masks & !bit);
            if masks & bit == 0 {
                assert_eq!(back, masks);
            }
        }
    }
}

#[test]
fn end_of_interrupt_goes_to_the_master_and_to_the_slave_for_its_lines() {
    assert_eq!(send_eoi(0), vec![w(0x20, 0x20)]);
    assert_eq!(send_eoi(7), vec![w(0x20, 0x20)]);
    assert_eq!(send_eoi(8), vec![w(0xA0, 0x20), w(0x20, 0x20)]);
    assert_eq!(send_eoi(14), vec![w(0xA0, 0x20), w(0x20, 0x20)]);
}
