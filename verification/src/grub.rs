//! The boot loader's hand-over: the magic value and the information record.

use vstd::prelude::*;

verus! {

/// The value a multiboot loader leaves in the accumulator.
pub const MAGIC_NUMBER: u32 = 0x2BADB002;

/// Flag bit saying that `mem_lower` and `mem_upper` are valid.
pub const MULTIBOOT_INFO_MEMORY: u32 = 0x00000001;

/// The largest heap the kernel asks for, in bytes.
pub const MAX_HEAP_BYTES: usize = 50 * 1024 * 1024;

/// The leading fields of the multiboot information record.
#[derive(Clone, Copy, Debug)]
pub struct MultibootInfo {
    pub flags: u32,
    /// Kilobytes of memory below 1 MiB.
    pub mem_lower: usize,
    /// Kilobytes of memory above 1 MiB.
    pub mem_upper: usize,
}

/// Whether the loader's hand-over is one the kernel accepts.
pub open spec fn boot_accepted(magic: u32, flags: u32) -> bool {
    magic == MAGIC_NUMBER && flags & MULTIBOOT_INFO_MEMORY != 0
}

/// What `verify` answers: a wrong magic value is reported first, then
/// memory fields that are not valid.
pub open spec fn verify_result(magic: u32, flags: u32) -> Result<(), &'static str> {
    if magic != MAGIC_NUMBER {
        Err("GRUB magic number incorrect.")
    } else if flags & MULTIBOOT_INFO_MEMORY == 0 {
        Err("Basic multiboot memory info invalid.")
    } else {
        Ok(())
    }
}

/// Checks the loader's magic value and that the memory fields are valid.
/// A wrong magic value is reported first.
pub fn verify(magic: u32, flags: u32) -> (r: Result<(), &'static str>)
    ensures
        r == verify_result(magic, flags),
        r is Ok <==> boot_accepted(magic, flags),
        magic != MAGIC_NUMBER ==> r == Err::<(), &'static str>("GRUB magic number incorrect."),
        magic == MAGIC_NUMBER && flags & MULTIBOOT_INFO_MEMORY == 0 ==> r == Err::<(), &'static str>(
            "Basic multiboot memory info invalid.",
        ),
{
    if magic != MAGIC_NUMBER {
        return Err("GRUB magic number incorrect.");
    }
    if flags & MULTIBOOT_INFO_MEMORY == 0 {
        return Err("Basic multiboot memory info invalid.");
    }
    Ok(())
}

/// The number of bytes the kernel heap may span: what the loader reports
/// above 1 MiB, capped at `MAX_HEAP_BYTES`.
pub open spec fn heap_bytes_spec(mem_upper: usize) -> int {
    if mem_upper * 1024 < MAX_HEAP_BYTES {
        mem_upper * 1024
    } else {
        MAX_HEAP_BYTES as int
    }
}

/// Computes `heap_bytes_spec` without overflow.
pub fn heap_bytes(mem_upper: usize) -> (r: usize)
    ensures
        r == heap_bytes_spec(mem_upper),
{
    if mem_upper < MAX_HEAP_BYTES / 1024 {
        mem_upper * 1024
    } else {
        MAX_HEAP_BYTES
    }
}

} // verus!
