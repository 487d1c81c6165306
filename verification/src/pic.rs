//! The legacy interrupt controller pair: remapping, masking, and the
//! end-of-interrupt signal, as the port writes that do them.

use vstd::prelude::*;
use crate::io::{PortWrite, WAIT_PORT};

verus! {

/// Command port of the master controller.
pub const MASTER_CMD: u16 = 0x20;

/// Data port of the master controller.
pub const MASTER_DATA: u16 = 0x21;

/// Command port of the slave controller.
pub const SLAVE_CMD: u16 = 0xA0;

/// Data port of the slave controller.
pub const SLAVE_DATA: u16 = 0xA1;

/// The vector that line 0 is remapped to.
pub const IRQ_OFFSET: u8 = 0x20;

/// First initialisation word: initialise, and a fourth word follows.
pub const ICW1_INIT_ICW4: u8 = 0x11;

/// Fourth initialisation word: 8086 mode.
pub const ICW4_MODE_8086: u8 = 0x01;

/// The end-of-interrupt command.
pub const EOI: u8 = 0x20;

/// The writes that remap the controllers and put the masks back, in order.
/// After each word of the initialisation comes a wait.
pub open spec fn remap_sequence(master_masks: u8, slave_masks: u8) -> Seq<PortWrite> {
    seq![
        PortWrite { port: MASTER_CMD, value: ICW1_INIT_ICW4 },
        PortWrite { port: WAIT_PORT, value: 0 },
        PortWrite { port: SLAVE_CMD, value: ICW1_INIT_ICW4 },
        PortWrite { port: WAIT_PORT, value: 0 },
        PortWrite { port: MASTER_DATA, value: 0x20 },
        PortWrite { port: WAIT_PORT, value: 0 },
        PortWrite { port: SLAVE_DATA, value: 0x28 },
        PortWrite { port: WAIT_PORT, value: 0 },
        PortWrite { port: MASTER_DATA, value: 4 },
        PortWrite { port: WAIT_PORT, value: 0 },
        PortWrite { port: SLAVE_DATA, value: 2 },
        PortWrite { port: WAIT_PORT, value: 0 },
        PortWrite { port: MASTER_DATA, value: ICW4_MODE_8086 },
        PortWrite { port: WAIT_PORT, value: 0 },
        PortWrite { port: SLAVE_DATA, value: ICW4_MODE_8086 },
        PortWrite { port: WAIT_PORT, value: 0 },
        PortWrite { port: MASTER_DATA, value: master_masks },
        PortWrite { port: SLAVE_DATA, value: slave_masks },
    ]
}

/// Appends a write and the wait that gives the controller time to react.
fn send(out: &mut Vec<PortWrite>, port: u16, bits: u8)
    ensures
        final(out)@ == old(out)@.push(PortWrite { port, value: bits }).push(
            PortWrite { port: WAIT_PORT, value: 0 },
        ),
{
    out.push(PortWrite { port, value: bits });
    out.push(crate::io::wait());
}

/// Appends a command to both controllers, the master first.
fn send_ms_cmd(out: &mut Vec<PortWrite>, bits: u8)
    ensures
        final(out)@ == old(out)@.push(PortWrite { port: MASTER_CMD, value: bits }).push(
            PortWrite { port: WAIT_PORT, value: 0 },
        ).push(PortWrite { port: SLAVE_CMD, value: bits }).push(
            PortWrite { port: WAIT_PORT, value: 0 },
        ),
{
    send(out, MASTER_CMD, bits);
    send(out, SLAVE_CMD, bits);
}

/// Appends a data byte to both controllers, the master first.
fn send_ms_data(out: &mut Vec<PortWrite>, bits: u8)
    ensures
        final(out)@ == old(out)@.push(PortWrite { port: MASTER_DATA, value: bits }).push(
            PortWrite { port: WAIT_PORT, value: 0 },
        ).push(PortWrite { port: SLAVE_DATA, value: bits }).push(
            PortWrite { port: WAIT_PORT, value: 0 },
        ),
{
    send(out, MASTER_DATA, bits);
    send(out, SLAVE_DATA, bits);
}

/// The writes that move the controllers' lines to the vectors 0x20 to
/// 0x2F: initialisation with a fourth word, the vector bases 0x20 and
/// 0x28, the cascade on line 2, 8086 mode. `master_masks` and
/// `slave_masks` are the masks as read before; they are written back last.
pub fn remap(master_masks: u8, slave_masks: u8) -> (r: Vec<PortWrite>)
    ensures
        r@ == remap_sequence(master_masks, slave_masks),
{
    let mut out: Vec<PortWrite> = Vec::new();
    send_ms_cmd(&mut out, ICW1_INIT_ICW4);
    send(&mut out, MASTER_DATA, 0x20);
    send(&mut out, SLAVE_DATA, 0x28);
    send(&mut out, MASTER_DATA, 4);
    send(&mut out, SLAVE_DATA, 2);
    send_ms_data(&mut out, ICW4_MODE_8086);
    out.push(PortWrite { port: MASTER_DATA, value: master_masks });
    out.push(PortWrite { port: SLAVE_DATA, value: slave_masks });
    proof {
        assert(out@ =~= remap_sequence(master_masks, slave_masks));
    }
    out
}

/// The data port that holds the mask of line `irq_line`.
pub open spec fn spec_mask_port(irq_line: u8) -> u16 {
    if irq_line < 8 {
        MASTER_DATA
    } else {
        SLAVE_DATA
    }
}

/// The mask register after the bit of line `irq_line` has been set to
/// `value` in `masks`.
pub open spec fn mask_after(masks: u8, irq_line: u8, value: bool) -> u8 {
    let bit: u8 = if irq_line < 8 {
        irq_line
    } else {
        (irq_line - 8) as u8
    };
    if value {
        masks | (1u8 << bit)
    } else {
        masks & !(1u8 << bit)
    }
}

/// The data port that holds the mask of line `irq_line`: the one to read
/// before `set_mask`.
#[verifier::when_used_as_spec(spec_mask_port)]
pub fn mask_port(irq_line: u8) -> (r: u16)
    ensures
        r == spec_mask_port(irq_line),
{
    if irq_line < 8 {
        MASTER_DATA
    } else {
        SLAVE_DATA
    }
}

/// The write that masks line `irq_line`, or unmasks it, given the masks
/// just read from the line's data port. A masked line is ignored by the
/// controller. The line must be one of the sixteen.
pub fn set_mask(irq_line: u8, value: bool, current_masks: u8) -> (r: PortWrite)
    requires
        irq_line < 16,
    ensures
        r == (PortWrite {
            port: spec_mask_port(irq_line),
            value: mask_after(current_masks, irq_line, value),
        }),
{
    let port: u16;
    let actual_line: u8;
    if irq_line < 8 {
        port = MASTER_DATA;
        actual_line = irq_line;
    } else {
        port = SLAVE_DATA;
        actual_line = irq_line - 8;
    }
    let modify: u8 = 1u8 << actual_line;
    PortWrite {
        port,
        value: if value {
            current_masks | modify
        } else {
            current_masks & !modify
        },
    }
}

/// The writes that signal the end of the interrupt of line `irq_line`: to
/// the slave first if the line is one of its own, and to the master.
pub open spec fn eoi_sequence(irq_line: u8) -> Seq<PortWrite> {
    if irq_line >= 8 {
        seq![PortWrite { port: SLAVE_CMD, value: EOI }, PortWrite { port: MASTER_CMD, value: EOI }]
    } else {
        seq![PortWrite { port: MASTER_CMD, value: EOI }]
    }
}

/// The writes that signal the end of the interrupt of line `irq_line`.
pub fn send_eoi(irq_line: u8) -> (r: Vec<PortWrite>)
    ensures
        r@ == eoi_sequence(irq_line),
{
    let mut out: Vec<PortWrite> = Vec::new();
    if irq_line >= 8 {
        out.push(PortWrite { port: SLAVE_CMD, value: EOI });
    }
    out.push(PortWrite { port: MASTER_CMD, value: EOI });
    proof {
        assert(out@ =~= eoi_sequence(irq_line));
    }
    out
}

/// Masking a line and unmasking it again leaves the masks with the line's
/// bit clear and every other bit as it was.
pub proof fn lemma_mask_then_unmask(masks: u8, bit: u8)
    by (bit_vector)
    requires
        bit < 8,
    ensures
        (masks | (1u8 << bit)) & !(1u8 << bit) == masks & !(1u8 << bit),
        masks & (1u8 << bit) == 0 ==> (masks | (1u8 << bit)) & !(1u8 << bit) == masks,
{
}

/// Masking idempotence: for a line that is not masked, masking it and then
/// unmasking it leaves the mask register as it was.
pub proof fn lemma_mask_round_trip(masks: u8, irq_line: u8)
    requires
        irq_line < 16,
        mask_after(masks, irq_line, false) == masks,
    ensures
        mask_after(mask_after(masks, irq_line, true), irq_line, false) == masks,
{
    let bit: u8 = if irq_line < 8 {
        irq_line
    } else {
        (irq_line - 8) as u8
    };
    lemma_mask_then_unmask(masks, bit);
}

} // verus!
