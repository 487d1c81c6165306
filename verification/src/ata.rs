//! The ATA disk on the primary bus, in PIO mode with 28-bit block
//! addresses: the register values of a command, and how a transfer is cut
//! into commands.

use vstd::prelude::*;
use crate::interrupts::{GateType, InterruptTable, gate};
use crate::io::PortWrite;
use crate::pic::IRQ_OFFSET;

verus! {

/// Data register.
pub const PORT_DR: u16 = 0x1F0;

/// Error register.
pub const PORT_ER: u16 = 0x1F1;

/// Features register.
pub const PORT_FR: u16 = 0x1F1;

/// Sector count register.
pub const PORT_SCR: u16 = 0x1F2;

/// Sector number register: the low byte of the block address.
pub const PORT_SNR: u16 = 0x1F3;

/// Cylinder low register: the second byte of the block address.
pub const PORT_CLR: u16 = 0x1F4;

/// Cylinder high register: the third byte of the block address.
pub const PORT_CHR: u16 = 0x1F5;

/// Drive and head register.
pub const PORT_DHR: u16 = 0x1F6;

/// Status register.
pub const PORT_SR: u16 = 0x1F7;

/// Command register.
pub const PORT_CR: u16 = 0x1F7;

/// Status flag: busy with a command.
pub const STATUS_BSY: u8 = 0x80;

/// Status flag: ready for a command.
pub const STATUS_RDY: u8 = 0x40;

/// Status flag: data is expected or on offer.
pub const STATUS_DRQ: u8 = 0x08;

/// Status flag: an error occurred.
pub const STATUS_ERR: u8 = 0x01;

/// The command that reads sectors.
pub const CMD_READ: u8 = 0x20;

/// The command that writes sectors.
pub const CMD_WRITE: u8 = 0x30;

/// Bytes in a sector.
pub const SECTOR_BYTES: usize = 512;

/// The most sectors that one command moves.
pub const MAX_BATCH: u32 = 255;

/// Installs the handlers of the two ATA lines, 14 and 15, as 32-bit
/// interrupt gates of privilege level 0. Each of them only signals the end
/// of its interrupt.
pub fn init(table: &mut InterruptTable, irq14: u32, irq15: u32)
    requires
        old(table).wf(),
    ensures
        final(table).wf(),
        final(table).selector() == old(table).selector(),
        final(table)@ == old(table)@.update(
            IRQ_OFFSET + 14,
            gate(irq14, GateType::DInterrupt, 0, old(table).selector()),
        ).update(IRQ_OFFSET + 15, gate(irq15, GateType::DInterrupt, 0, old(table).selector())),
{
    table.install(IRQ_OFFSET + 14, irq14, 0, GateType::DInterrupt);
    table.install(IRQ_OFFSET + 15, irq15, 0, GateType::DInterrupt);
}

/// Whether the wait for `flag` to be `value` is over, given the status
/// just read: `flag` is set in it exactly if `value` says so.
pub open spec fn spec_wait_over(status: u8, flag: u8, value: bool) -> bool {
    (status & flag != 0) == value
}

/// Whether the wait for `flag` to be `value` is over, given the status
/// just read. The caller reads the status register until it is.
#[verifier::when_used_as_spec(spec_wait_over)]
pub fn wait_for(status: u8, flag: u8, value: bool) -> (r: bool)
    ensures
        r == spec_wait_over(status, flag, value),
{
    (status & flag != 0) == value
}

/// The writes that set a command up for `sector_count` sectors from the
/// block `lba` on: the drive register with the master drive, block
/// addressing and bits 24 to 27 of the address; the sector count; and the
/// three low bytes of the address.
pub open spec fn flags_sequence(lba: u32, sector_count: u8) -> Seq<PortWrite> {
    seq![
        PortWrite { port: PORT_DHR, value: (0xE0 + lba / 0x1000000 % 16) as u8 },
        PortWrite { port: PORT_SCR, value: sector_count },
        PortWrite { port: PORT_SNR, value: (lba % 0x100) as u8 },
        PortWrite { port: PORT_CLR, value: (lba / 0x100 % 0x100) as u8 },
        PortWrite { port: PORT_CHR, value: (lba / 0x10000 % 0x100) as u8 },
    ]
}

/// The writes that set a command up for `sector_count` sectors from the
/// block `lba` on.
pub fn setup_flags(lba: u32, sector_count: u8) -> (r: Vec<PortWrite>)
    ensures
        r@ == flags_sequence(lba, sector_count),
{
    let mut out: Vec<PortWrite> = Vec::new();
    out.push(PortWrite { port: PORT_DHR, value: 0xE0 + (lba / 0x1000000 % 16) as u8 });
    out.push(PortWrite { port: PORT_SCR, value: sector_count });
    out.push(PortWrite { port: PORT_SNR, value: (lba % 0x100) as u8 });
    out.push(PortWrite { port: PORT_CLR, value: (lba / 0x100 % 0x100) as u8 });
    out.push(PortWrite { port: PORT_CHR, value: (lba / 0x10000 % 0x100) as u8 });
    proof {
        assert(out@ =~= flags_sequence(lba, sector_count));
    }
    out
}

/// A disk error: what the error register held.
#[derive(Clone, Copy, Debug, PartialEq, Eq, Structural)]
pub struct AtaError(pub u8);

/// Judges the error register after a command: anything but zero is an
/// error, which the kernel does not survive.
pub fn panic_if_error(error: u8) -> (r: Result<(), AtaError>)
    ensures
        r == if error != 0 {
            Err::<(), AtaError>(AtaError(error))
        } else {
            Ok::<(), AtaError>(())
        },
{
    if error != 0 {
        Err(AtaError(error))
    } else {
        Ok(())
    }
}

/// One command of a transfer: the block it begins at and the sectors it
/// moves.
#[derive(Clone, Copy, Debug, PartialEq, Eq, Structural)]
pub struct Batch {
    pub lba: u32,
    pub sectors: u8,
}

/// How many commands a transfer of `sector_count` sectors takes.
pub open spec fn batch_count(sector_count: int) -> int {
    (sector_count + MAX_BATCH - 1) / MAX_BATCH as int
}

/// Command `index` of a transfer of `sector_count` sectors from the block
/// `lba` on: every command but the last moves `MAX_BATCH` sectors, and the
/// last moves what is left.
pub open spec fn batch_at(lba: u32, sector_count: int, index: int) -> Batch {
    Batch {
        lba: (lba + index * MAX_BATCH) as u32,
        sectors: if sector_count - index * MAX_BATCH < MAX_BATCH {
            (sector_count - index * MAX_BATCH) as u8
        } else {
            MAX_BATCH as u8
        },
    }
}

/// Cuts a transfer of `sector_count` sectors from the block `lba` on into
/// commands of at most `MAX_BATCH` sectors. The blocks must have
/// addresses.
pub fn batches(lba: u32, sector_count: u32) -> (r: Vec<Batch>)
    requires
        lba + sector_count <= u32::MAX,
    ensures
        r@.len() == batch_count(sector_count as int),
        forall|i: int| 0 <= i < r@.len() ==> r@[i] == batch_at(lba, sector_count as int, i),
{
    let mut out: Vec<Batch> = Vec::new();
    let mut done: u32 = 0;
    while done < sector_count
        invariant
            done <= sector_count,
            lba + sector_count <= u32::MAX,
            done == out@.len() * MAX_BATCH,
            out@.len() == batch_count(done as int),
            forall|i: int| 0 <= i < out@.len() ==> out@[i] == batch_at(lba, sector_count as int, i),
        decreases sector_count - done,
    {
        let left = sector_count - done;
        let size: u32 = if left < MAX_BATCH {
            left
        } else {
            MAX_BATCH
        };
        out.push(Batch { lba: lba + done, sectors: size as u8 });
        if left < MAX_BATCH {
            proof {
                assert(out@.len() == batch_count(sector_count as int));
            }
            return out;
        }
        done = done + MAX_BATCH;
    }
    out
}

/// The writes that begin the command `batch` with the command byte
/// `command`: the set-up and the command.
pub open spec fn command_sequence(batch: Batch, command: u8) -> Seq<PortWrite> {
    flags_sequence(batch.lba, batch.sectors).push(PortWrite { port: PORT_CR, value: command })
}

/// The writes that begin the reading of `batch`. The caller waits until
/// the disk is not busy before them, judges the error register after
/// them, and then, for each sector, waits for data and reads 256 words
/// from the data register.
pub fn read_sectors(batch: Batch) -> (r: Vec<PortWrite>)
    ensures
        r@ == command_sequence(batch, CMD_READ),
{
    let mut out = setup_flags(batch.lba, batch.sectors);
    out.push(PortWrite { port: PORT_CR, value: CMD_READ });
    out
}

/// The writes that begin the writing of `batch`. The caller waits until
/// the disk is not busy before them, judges the error register after
/// them, and then, for each sector, waits for the disk to take data and
/// writes 128 double words to the data register.
pub fn write_sectors(batch: Batch) -> (r: Vec<PortWrite>)
    ensures
        r@ == command_sequence(batch, CMD_WRITE),
{
    let mut out = setup_flags(batch.lba, batch.sectors);
    out.push(PortWrite { port: PORT_CR, value: CMD_WRITE });
    out
}

} // verus!
