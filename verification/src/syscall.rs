//! The system-call gateway: the operations, the typed requests, and the
//! dispatcher that serves them on the kernel's state.

use vstd::prelude::*;
use crate::ata::{Batch, batch_at, batch_count};
use crate::execution::{ElfError, Loaded, Loader, parse_result, program_loaded};
use crate::fs::{File, FileMetadata, Header, listing, names_of};
use crate::heap::{Heap, Outcome, address_of, freed, placed};
use crate::interrupts::{GateType, InterruptState, InterruptTable, SYSCALL_VECTOR, gate};
use crate::io::PortWrite;
use crate::keyboard::{Key, Keyboard};
use crate::paging::{DIRECTORY_BYTES, KernelLayout, PageDirectory, Paging};
use crate::pic::{eoi_sequence, mask_after, spec_mask_port};
use crate::process::ProcessTable;
use crate::timer::Timer;
use crate::vga_console::{Console, typed_all};

verus! {

/// What every request to the gateway is.
pub trait SyscallBase {

}

/// A request with no argument.
pub trait Syscall0: SyscallBase {

}

/// A request with one argument.
pub trait Syscall1: SyscallBase {
    type T1;
}

/// A request with two arguments.
pub trait Syscall2: SyscallBase {
    type T1;

    type T2;
}

/// A request with three arguments.
pub trait Syscall3: SyscallBase {
    type T1;

    type T2;

    type T3;
}

/// A request with four arguments.
pub trait Syscall4: SyscallBase {
    type T1;

    type T2;

    type T3;

    type T4;
}

/// The operations of the gateway, in the order of their tags.
#[derive(Clone, Copy, Debug, PartialEq, Eq, Structural)]
pub enum Syscall {
    Print,
    DisableInterrupts,
    EnableInterrupts,
    AreInterruptsEnabled,
    Halt,
    Empty,
    Outb,
    Outw,
    Outl,
    ReadSectors,
    WriteSectors,
    SetIsr,
    PicSendEoi,
    PicSetMask,
    Alloc,
    Dealloc,
    RunProgram,
    HasInitHeap,
    HasLoadedProcesses,
    GetCurrPageDir,
    GetOnKeyDown,
    GetOnKeyUp,
    GetConsole,
    IsKeyPressed,
    IsCapsLockActive,
    FsGetHeader,
    GetFilesInDir,
    ExecuteFile,
}

/// The number of operations.
pub const SYSCALL_COUNT: u32 = 28;

impl Syscall {
    /// The tag of the operation.
    pub open spec fn spec_tag(self) -> u32 {
        match self {
            Syscall::Print => 0,
            Syscall::DisableInterrupts => 1,
            Syscall::EnableInterrupts => 2,
            Syscall::AreInterruptsEnabled => 3,
            Syscall::Halt => 4,
            Syscall::Empty => 5,
            Syscall::Outb => 6,
            Syscall::Outw => 7,
            Syscall::Outl => 8,
            Syscall::ReadSectors => 9,
            Syscall::WriteSectors => 10,
            Syscall::SetIsr => 11,
            Syscall::PicSendEoi => 12,
            Syscall::PicSetMask => 13,
            Syscall::Alloc => 14,
            Syscall::Dealloc => 15,
            Syscall::RunProgram => 16,
            Syscall::HasInitHeap => 17,
            Syscall::HasLoadedProcesses => 18,
            Syscall::GetCurrPageDir => 19,
            Syscall::GetOnKeyDown => 20,
            Syscall::GetOnKeyUp => 21,
            Syscall::GetConsole => 22,
            Syscall::IsKeyPressed => 23,
            Syscall::IsCapsLockActive => 24,
            Syscall::FsGetHeader => 25,
            Syscall::GetFilesInDir => 26,
            Syscall::ExecuteFile => 27,
        }
    }

    /// The tag of the operation.
    #[verifier::when_used_as_spec(spec_tag)]
    pub fn tag(self) -> (r: u32)
        ensures
            r == self.spec_tag(),
            r < SYSCALL_COUNT,
    {
        match self {
            Syscall::Print => 0,
            Syscall::DisableInterrupts => 1,
            Syscall::EnableInterrupts => 2,
            Syscall::AreInterruptsEnabled => 3,
            Syscall::Halt => 4,
            Syscall::Empty => 5,
            Syscall::Outb => 6,
            Syscall::Outw => 7,
            Syscall::Outl => 8,
            Syscall::ReadSectors => 9,
            Syscall::WriteSectors => 10,
            Syscall::SetIsr => 11,
            Syscall::PicSendEoi => 12,
            Syscall::PicSetMask => 13,
            Syscall::Alloc => 14,
            Syscall::Dealloc => 15,
            Syscall::RunProgram => 16,
            Syscall::HasInitHeap => 17,
            Syscall::HasLoadedProcesses => 18,
            Syscall::GetCurrPageDir => 19,
            Syscall::GetOnKeyDown => 20,
            Syscall::GetOnKeyUp => 21,
            Syscall::GetConsole => 22,
            Syscall::IsKeyPressed => 23,
            Syscall::IsCapsLockActive => 24,
            Syscall::FsGetHeader => 25,
            Syscall::GetFilesInDir => 26,
            Syscall::ExecuteFile => 27,
        }
    }

    /// The operation with the tag `tag`, or `None` for a tag that names no
    /// operation.
    pub fn from_tag(tag: u32) -> (r: Option<Syscall>)
        ensures
            r is Some <==> tag < SYSCALL_COUNT,
            r matches Some(op) ==> op.spec_tag() == tag,
    {
        if tag == 0 {
            Some(Syscall::Print)
        } else if tag == 1 {
            Some(Syscall::DisableInterrupts)
        } else if tag == 2 {
            Some(Syscall::EnableInterrupts)
        } else if tag == 3 {
            Some(Syscall::AreInterruptsEnabled)
        } else if tag == 4 {
            Some(Syscall::Halt)
        } else if tag == 5 {
            Some(Syscall::Empty)
        } else if tag == 6 {
            Some(Syscall::Outb)
        } else if tag == 7 {
            Some(Syscall::Outw)
        } else if tag == 8 {
            Some(Syscall::Outl)
        } else if tag == 9 {
            Some(Syscall::ReadSectors)
        } else if tag == 10 {
            Some(Syscall::WriteSectors)
        } else if tag == 11 {
            Some(Syscall::SetIsr)
        } else if tag == 12 {
            Some(Syscall::PicSendEoi)
        } else if tag == 13 {
            Some(Syscall::PicSetMask)
        } else if tag == 14 {
            Some(Syscall::Alloc)
        } else if tag == 15 {
            Some(Syscall::Dealloc)
        } else if tag == 16 {
            Some(Syscall::RunProgram)
        } else if tag == 17 {
            Some(Syscall::HasInitHeap)
        } else if tag == 18 {
            Some(Syscall::HasLoadedProcesses)
        } else if tag == 19 {
            Some(Syscall::GetCurrPageDir)
        } else if tag == 20 {
            Some(Syscall::GetOnKeyDown)
        } else if tag == 21 {
            Some(Syscall::GetOnKeyUp)
        } else if tag == 22 {
            Some(Syscall::GetConsole)
        } else if tag == 23 {
            Some(Syscall::IsKeyPressed)
        } else if tag == 24 {
            Some(Syscall::IsCapsLockActive)
        } else if tag == 25 {
            Some(Syscall::FsGetHeader)
        } else if tag == 26 {
            Some(Syscall::GetFilesInDir)
        } else if tag == 27 {
            Some(Syscall::ExecuteFile)
        } else {
            None
        }
    }
}

/// Writes a text to the console.
pub struct Print {
    pub text: String,
}

impl SyscallBase for Print {
}

impl Syscall1 for Print {
    type T1 = String;
}

/// Turns interrupts off.
pub struct DisableInterrupts {}

impl SyscallBase for DisableInterrupts {
}

impl Syscall0 for DisableInterrupts {
}

/// Turns interrupts on.
pub struct EnableInterrupts {}

impl SyscallBase for EnableInterrupts {
}

impl Syscall0 for EnableInterrupts {
}

/// Asks whether interrupts are on.
pub struct AreInterruptsEnabled {}

impl SyscallBase for AreInterruptsEnabled {
}

impl Syscall0 for AreInterruptsEnabled {
}

/// Halts the processor until the next interrupt.
pub struct Halt {}

impl SyscallBase for Halt {
}

impl Syscall0 for Halt {
}

/// Does nothing.
pub struct Empty {}

impl SyscallBase for Empty {
}

impl Syscall0 for Empty {
}

/// Writes a byte to a port.
pub struct Outb {
    pub port: u16,
    pub value: u8,
}

impl SyscallBase for Outb {
}

impl Syscall2 for Outb {
    type T1 = u16;

    type T2 = u8;
}

/// Writes a word to a port.
pub struct Outw {
    pub port: u16,
    pub value: u16,
}

impl SyscallBase for Outw {
}

impl Syscall2 for Outw {
    type T1 = u16;

    type T2 = u16;
}

/// Writes a double word to a port.
pub struct Outl {
    pub port: u16,
    pub value: u32,
}

impl SyscallBase for Outl {
}

impl Syscall2 for Outl {
    type T1 = u16;

    type T2 = u32;
}

/// Reads sectors from the disk.
pub struct ReadSectors {
    pub lba: u32,
    pub sector_count: u32,
}

impl SyscallBase for ReadSectors {
}

impl Syscall2 for ReadSectors {
    type T1 = u32;

    type T2 = u32;
}

/// Writes sectors to the disk.
pub struct WriteSectors {
    pub lba: u32,
    pub sector_count: u32,
}

impl SyscallBase for WriteSectors {
}

impl Syscall2 for WriteSectors {
    type T1 = u32;

    type T2 = u32;
}

/// Installs an interrupt handler.
pub struct SetIsr {
    pub index: usize,
    pub func: u32,
    pub dpl: u8,
}

impl SyscallBase for SetIsr {
}

impl Syscall3 for SetIsr {
    type T1 = usize;

    type T2 = u32;

    type T3 = u8;
}

/// Signals the end of an interrupt.
pub struct PicSendEoi {
    pub irq_line: u8,
}

impl SyscallBase for PicSendEoi {
}

impl Syscall1 for PicSendEoi {
    type T1 = u8;
}

/// Masks or unmasks an interrupt line; `current_masks` is what the line's data port holds.
pub struct PicSetMask {
    pub irq_line: u8,
    pub value: bool,
    pub current_masks: u8,
}

impl SyscallBase for PicSetMask {
}

impl Syscall3 for PicSetMask {
    type T1 = u8;

    type T2 = bool;

    type T3 = u8;
}

/// Asks the heap for bytes.
pub struct Alloc {
    pub size: usize,
    pub align: usize,
}

impl SyscallBase for Alloc {
}

impl Syscall2 for Alloc {
    type T1 = usize;

    type T2 = usize;
}

/// Gives bytes back to the heap.
pub struct Dealloc {
    pub ptr: usize,
}

impl SyscallBase for Dealloc {
}

impl Syscall1 for Dealloc {
    type T1 = usize;
}

/// Loads a program image and admits it.
pub struct RunProgram {
    pub program: Vec<u8>,
}

impl SyscallBase for RunProgram {
}

impl Syscall1 for RunProgram {
    type T1 = Vec<u8>;
}

/// Asks whether the heap is live.
pub struct HasInitHeap {}

impl SyscallBase for HasInitHeap {
}

impl Syscall0 for HasInitHeap {
}

/// Asks whether a process has been registered.
pub struct HasLoadedProcesses {}

impl SyscallBase for HasLoadedProcesses {
}

impl Syscall0 for HasLoadedProcesses {
}

/// Asks for the active address space.
pub struct GetCurrPageDir {}

impl SyscallBase for GetCurrPageDir {
}

impl Syscall0 for GetCurrPageDir {
}

/// Asks for the event of keys going down.
pub struct GetOnKeyDown {}

impl SyscallBase for GetOnKeyDown {
}

impl Syscall0 for GetOnKeyDown {
}

/// Asks for the event of keys going up.
pub struct GetOnKeyUp {}

impl SyscallBase for GetOnKeyUp {
}

impl Syscall0 for GetOnKeyUp {
}

/// Asks for the console.
pub struct GetConsole {}

impl SyscallBase for GetConsole {
}

impl Syscall0 for GetConsole {
}

/// Asks whether a key is held down.
pub struct IsKeyPressed {
    pub key: Key,
}

impl SyscallBase for IsKeyPressed {
}

impl Syscall1 for IsKeyPressed {
    type T1 = Key;
}

/// Asks whether caps lock is on.
pub struct IsCapsLockActive {}

impl SyscallBase for IsCapsLockActive {
}

impl Syscall0 for IsCapsLockActive {
}

/// Asks for the header of the file system.
pub struct FsGetHeader {}

impl SyscallBase for FsGetHeader {
}

impl Syscall0 for FsGetHeader {
}

/// Lists a directory.
pub struct GetFilesInDir {
    pub root: Vec<u8>,
}

impl SyscallBase for GetFilesInDir {
}

impl Syscall1 for GetFilesInDir {
    type T1 = Vec<u8>;
}

/// Runs the program in a file; `image` is what the file holds.
pub struct ExecuteFile {
    pub file: File,
    pub image: Vec<u8>,
}

impl SyscallBase for ExecuteFile {
}

impl Syscall2 for ExecuteFile {
    type T1 = File;

    type T2 = Vec<u8>;
}

/// A request to the gateway: the operation with its arguments.
pub enum Request {
    Print(Print),
    DisableInterrupts(DisableInterrupts),
    EnableInterrupts(EnableInterrupts),
    AreInterruptsEnabled(AreInterruptsEnabled),
    Halt(Halt),
    Empty(Empty),
    Outb(Outb),
    Outw(Outw),
    Outl(Outl),
    ReadSectors(ReadSectors),
    WriteSectors(WriteSectors),
    SetIsr(SetIsr),
    PicSendEoi(PicSendEoi),
    PicSetMask(PicSetMask),
    Alloc(Alloc),
    Dealloc(Dealloc),
    RunProgram(RunProgram),
    HasInitHeap(HasInitHeap),
    HasLoadedProcesses(HasLoadedProcesses),
    GetCurrPageDir(GetCurrPageDir),
    GetOnKeyDown(GetOnKeyDown),
    GetOnKeyUp(GetOnKeyUp),
    GetConsole(GetConsole),
    IsKeyPressed(IsKeyPressed),
    IsCapsLockActive(IsCapsLockActive),
    FsGetHeader(FsGetHeader),
    GetFilesInDir(GetFilesInDir),
    ExecuteFile(ExecuteFile),
}

impl Request {
    /// The operation that the request asks for.
    pub open spec fn spec_kind(&self) -> Syscall {
        match self {
            Request::Print(_) => Syscall::Print,
            Request::DisableInterrupts(_) => Syscall::DisableInterrupts,
            Request::EnableInterrupts(_) => Syscall::EnableInterrupts,
            Request::AreInterruptsEnabled(_) => Syscall::AreInterruptsEnabled,
            Request::Halt(_) => Syscall::Halt,
            Request::Empty(_) => Syscall::Empty,
            Request::Outb(_) => Syscall::Outb,
            Request::Outw(_) => Syscall::Outw,
            Request::Outl(_) => Syscall::Outl,
            Request::ReadSectors(_) => Syscall::ReadSectors,
            Request::WriteSectors(_) => Syscall::WriteSectors,
            Request::SetIsr(_) => Syscall::SetIsr,
            Request::PicSendEoi(_) => Syscall::PicSendEoi,
            Request::PicSetMask(_) => Syscall::PicSetMask,
            Request::Alloc(_) => Syscall::Alloc,
            Request::Dealloc(_) => Syscall::Dealloc,
            Request::RunProgram(_) => Syscall::RunProgram,
            Request::HasInitHeap(_) => Syscall::HasInitHeap,
            Request::HasLoadedProcesses(_) => Syscall::HasLoadedProcesses,
            Request::GetCurrPageDir(_) => Syscall::GetCurrPageDir,
            Request::GetOnKeyDown(_) => Syscall::GetOnKeyDown,
            Request::GetOnKeyUp(_) => Syscall::GetOnKeyUp,
            Request::GetConsole(_) => Syscall::GetConsole,
            Request::IsKeyPressed(_) => Syscall::IsKeyPressed,
            Request::IsCapsLockActive(_) => Syscall::IsCapsLockActive,
            Request::FsGetHeader(_) => Syscall::FsGetHeader,
            Request::GetFilesInDir(_) => Syscall::GetFilesInDir,
            Request::ExecuteFile(_) => Syscall::ExecuteFile,
        }
    }

    /// The operation that the request asks for.
    #[verifier::when_used_as_spec(spec_kind)]
    pub fn kind(&self) -> (r: Syscall)
        ensures
            r == self.spec_kind(),
    {
        match self {
            Request::Print(_) => Syscall::Print,
            Request::DisableInterrupts(_) => Syscall::DisableInterrupts,
            Request::EnableInterrupts(_) => Syscall::EnableInterrupts,
            Request::AreInterruptsEnabled(_) => Syscall::AreInterruptsEnabled,
            Request::Halt(_) => Syscall::Halt,
            Request::Empty(_) => Syscall::Empty,
            Request::Outb(_) => Syscall::Outb,
            Request::Outw(_) => Syscall::Outw,
            Request::Outl(_) => Syscall::Outl,
            Request::ReadSectors(_) => Syscall::ReadSectors,
            Request::WriteSectors(_) => Syscall::WriteSectors,
            Request::SetIsr(_) => Syscall::SetIsr,
            Request::PicSendEoi(_) => Syscall::PicSendEoi,
            Request::PicSetMask(_) => Syscall::PicSetMask,
            Request::Alloc(_) => Syscall::Alloc,
            Request::Dealloc(_) => Syscall::Dealloc,
            Request::RunProgram(_) => Syscall::RunProgram,
            Request::HasInitHeap(_) => Syscall::HasInitHeap,
            Request::HasLoadedProcesses(_) => Syscall::HasLoadedProcesses,
            Request::GetCurrPageDir(_) => Syscall::GetCurrPageDir,
            Request::GetOnKeyDown(_) => Syscall::GetOnKeyDown,
            Request::GetOnKeyUp(_) => Syscall::GetOnKeyUp,
            Request::GetConsole(_) => Syscall::GetConsole,
            Request::IsKeyPressed(_) => Syscall::IsKeyPressed,
            Request::IsCapsLockActive(_) => Syscall::IsCapsLockActive,
            Request::FsGetHeader(_) => Syscall::FsGetHeader,
            Request::GetFilesInDir(_) => Syscall::GetFilesInDir,
            Request::ExecuteFile(_) => Syscall::ExecuteFile,
        }
    }
}
/// One of the kernel's singletons, as a request for it is answered.
#[derive(Clone, Copy, Debug, PartialEq, Eq, Structural)]
pub enum Singleton {
    OnKeyDown,
    OnKeyUp,
    Console,
    FsHeader,
}

/// The answer to a request. Where the operation is input or output, the
/// answer is what the caller is to do.
pub enum Reply {
    /// The operation is done.
    Done,
    /// The arguments are not ones the operation takes; the kernel does
    /// not survive such a request.
    Refused,
    /// The answer to a question.
    Flag(bool),
    /// The processor is to be halted.
    Halt,
    /// A byte to write to a port.
    OutByte(PortWrite),
    /// A word to write to a port.
    OutWord { port: u16, word: u16 },
    /// A double word to write to a port.
    OutLong { port: u16, long: u32 },
    /// Bytes to write to ports, in order.
    Ports(Vec<PortWrite>),
    /// Commands that read from the disk, in order.
    Read(Vec<Batch>),
    /// Commands that write to the disk, in order.
    Write(Vec<Batch>),
    /// The address of the bytes the heap gave, if it had room.
    Pointer(Option<usize>),
    /// The physical base of a page directory.
    PageDir(u32),
    /// A program that was loaded, or why it was not.
    Loaded(Result<Loaded, ElfError>),
    /// One of the kernel's singletons.
    Reference(Singleton),
    /// The folders and files of a directory.
    Listing { folders: Vec<Vec<u8>>, files: Vec<FileMetadata> },
}

/// The kernel's state: its singletons, each an owned value. `H` is what is
/// kept for a handler of a key event.
pub struct Kernel<H> {
    pub interrupts: InterruptState,
    pub table: InterruptTable,
    pub paging: Paging,
    pub heap: Heap,
    pub processes: ProcessTable,
    pub keyboard: Keyboard<H>,
    pub console: Console,
    pub fs: Header,
    pub loader: Loader,
    pub layout: KernelLayout,
    pub timer: Timer<H>,
    /// The address of the routine that enters a loaded program.
    pub trampoline: u32,
}

impl<H: Copy> Kernel<H> {
    /// Every singleton is well formed, and the heap lies in the 32-bit
    /// address space.
    pub open spec fn wf(&self) -> bool {
        &&& self.table.wf()
        &&& self.paging.wf()
        &&& self.heap.wf()
        &&& self.heap.base() + self.heap.capacity() <= u32::MAX
        &&& self.processes.wf()
        &&& self.keyboard.wf()
        &&& self.console.wf()
        &&& self.fs.wf()
        &&& self.loader.wf()
    }
}

/// Installs the gateway's handler at `handler` on the system-call vector,
/// as a 32-bit interrupt gate that ring 3 may raise.
pub fn init(table: &mut InterruptTable, handler: u32)
    requires
        old(table).wf(),
    ensures
        final(table).wf(),
        final(table).selector() == old(table).selector(),
        final(table)@ == old(table)@.update(
            SYSCALL_VECTOR as int,
            gate(handler, GateType::DInterrupt, 3, old(table).selector()),
        ),
{
    table.install(SYSCALL_VECTOR, handler, 3, GateType::DInterrupt);
}

/// The state of the kernel's heap after a directory has been asked of it
/// for a program that was then not loaded: the block was given back.
pub open spec fn heap_after_failed_load(before: &Heap) -> Seq<crate::heap::Block> {
    let outcome = before.outcome(DIRECTORY_BYTES as int, 4096);
    match address_of(before@, before.base(), 4096, outcome) {
        Some(addr) => freed(
            placed(before@, before.base(), DIRECTORY_BYTES as int, 4096, outcome),
            before.base(),
            addr,
        ),
        None => before@,
    }
}

/// What serving a request that loads a program leaves: the directory of
/// the program was asked of the heap; without room for it the program is
/// not loaded, and a program that is not loaded leaves the process table
/// as it was and the heap without the directory.
pub open spec fn load_served<H: Copy>(
    before: &Kernel<H>,
    after: &Kernel<H>,
    image: Seq<u8>,
    kernel_esp: u32,
    res: Result<Loaded, ElfError>,
) -> bool {
    let outcome = before.heap.outcome(DIRECTORY_BYTES as int, 4096);
    match address_of(before.heap@, before.heap.base(), 4096, outcome) {
        None => res matches Err(ElfError::OutOfMemory) && after.heap@ == before.heap@
            && after.paging == before.paging && after.processes == before.processes && after.loader
            == before.loader,
        Some(addr) => {
            &&& parse_result(image) matches Err(e) ==> res matches Err(f) && f == e
            &&& res is Err ==> after.processes == before.processes && after.heap@
                == heap_after_failed_load(&before.heap)
            &&& crate::execution::load_result(
                image,
                before.loader.watermark(),
                PageDirectory::fresh_space(&before.paging),
                before.paging.supply(),
                before.layout,
            ) == match res {
                Ok(loaded) => Ok::<(crate::paging::Space, int), ElfError>(
                    (loaded.dir.space(&after.paging), after.loader.watermark()),
                ),
                Err(e) => Err::<(crate::paging::Space, int), ElfError>(e),
            }
            &&& res matches Ok(loaded) ==> {
                &&& after.heap@ == placed(
                    before.heap@,
                    before.heap.base(),
                    DIRECTORY_BYTES as int,
                    4096,
                    outcome,
                )
                &&& parse_result(image) is Ok
                &&& program_loaded(
                    &loaded,
                    image,
                    before.layout,
                    addr as u32,
                    before.trampoline,
                    kernel_esp,
                    &after.loader,
                    &before.loader,
                    &after.paging,
                    &before.paging,
                    &after.processes,
                    &before.processes,
                )
            }
        },
    }
}

/// What serving the request to run the program in the file of entry
/// `index` leaves. The directory of the program is asked of the heap, and
/// then the buffer for the image; without room for either the program is
/// not loaded and the file stays open. Otherwise the file is closed and
/// the image is loaded as a request to run it is served.
pub open spec fn execute_served<H: Copy>(
    before: &Kernel<H>,
    after: &Kernel<H>,
    index: int,
    image: Seq<u8>,
    kernel_esp: u32,
    res: Result<Loaded, ElfError>,
) -> bool {
    let outcome = before.heap.outcome(DIRECTORY_BYTES as int, 4096);
    let bytes = crate::execution::file_bytes(before.fs.entries()[index]);
    &&& after.heap.base() == before.heap.base()
    &&& after.heap.capacity() == before.heap.capacity()
    &&& match address_of(before.heap@, before.heap.base(), 4096, outcome) {
        None => res matches Err(ElfError::OutOfMemory) && after.heap@ == before.heap@
            && after.paging == before.paging && after.processes == before.processes && after.loader
            == before.loader && after.fs == before.fs,
        Some(addr) => if bytes > 0 && crate::heap::search(
            placed(before.heap@, before.heap.base(), DIRECTORY_BYTES as int, 4096, outcome),
            before.heap.base(),
            before.heap.capacity(),
            bytes,
            crate::execution::IMAGE_ALIGN as int,
            0,
            0,
        ) == Outcome::OutOfMemory {
            res matches Err(ElfError::OutOfMemory) && after.heap@ == heap_after_failed_load(
                &before.heap,
            ) && after.paging == before.paging && after.processes == before.processes
                && after.loader == before.loader && after.fs == before.fs
        } else {
            &&& !after.fs.entries()[index].flags.opened()
            &&& after.fs.dirty()
            &&& parse_result(image) matches Err(e) ==> res matches Err(f) && f == e
            &&& res is Err ==> after.processes == before.processes
            &&& crate::execution::load_result(
                image,
                before.loader.watermark(),
                PageDirectory::fresh_space(&before.paging),
                before.paging.supply(),
                before.layout,
            ) == match res {
                Ok(loaded) => Ok::<(crate::paging::Space, int), ElfError>(
                    (loaded.dir.space(&after.paging), after.loader.watermark()),
                ),
                Err(e) => Err::<(crate::paging::Space, int), ElfError>(e),
            }
            &&& res matches Ok(loaded) ==> parse_result(image) is Ok && program_loaded(
                &loaded,
                image,
                before.layout,
                addr as u32,
                before.trampoline,
                kernel_esp,
                &after.loader,
                &before.loader,
                &after.paging,
                &before.paging,
                &after.processes,
                &before.processes,
            )
        },
    }
}

/// Whether `after` and `reply` are what serving `request` makes of the
/// kernel `before`. Every operation leaves alone what it does not name
/// here.
pub open spec fn served<H: Copy>(
    before: &Kernel<H>,
    after: &Kernel<H>,
    request: &Request,
    kernel_esp: u32,
    reply: &Reply,
) -> bool {
    match request {
        Request::Print(p) => {
            &&& reply is Done
            &&& *after == (Kernel { console: after.console, ..*before })
            &&& after.console.colors() == before.console.colors()
            &&& after.console.screen() == typed_all(
                before.console.screen(),
                vstd::utf8::encode_utf8(p.text@),
                before.console.colors(),
            )
            &&& after.console.shown() == after.console.screen().ptr
        },
        Request::DisableInterrupts(_) => {
            &&& reply is Done
            &&& *after == (Kernel { interrupts: InterruptState { enabled: false }, ..*before })
        },
        Request::EnableInterrupts(_) => {
            &&& reply is Done
            &&& *after == (Kernel { interrupts: InterruptState { enabled: true }, ..*before })
        },
        Request::AreInterruptsEnabled(_) => {
            &&& reply matches Reply::Flag(b) && b == before.interrupts.enabled
            &&& *after == *before
        },
        Request::Halt(_) => reply is Halt && *after == *before,
        Request::Empty(_) => reply is Done && *after == *before,
        Request::Outb(p) => {
            &&& reply matches Reply::OutByte(w) && w == (PortWrite { port: p.port, value: p.value })
            &&& *after == *before
        },
        Request::Outw(p) => {
            &&& reply matches Reply::OutWord { port, word } && port == p.port && word == p.value
            &&& *after == *before
        },
        Request::Outl(p) => {
            &&& reply matches Reply::OutLong { port, long } && port == p.port && long == p.value
            &&& *after == *before
        },
        Request::ReadSectors(p) => {
            &&& *after == *before
            &&& if p.lba + p.sector_count <= u32::MAX {
                &&& reply matches Reply::Read(batches)
                &&& batches@.len() == batch_count(p.sector_count as int)
                &&& forall|i: int|
                    0 <= i < batches@.len() ==> batches@[i] == batch_at(
                        p.lba,
                        p.sector_count as int,
                        i,
                    )
            } else {
                reply is Refused
            }
        },
        Request::WriteSectors(p) => {
            &&& *after == *before
            &&& if p.lba + p.sector_count <= u32::MAX {
                &&& reply matches Reply::Write(batches)
                &&& batches@.len() == batch_count(p.sector_count as int)
                &&& forall|i: int|
                    0 <= i < batches@.len() ==> batches@[i] == batch_at(
                        p.lba,
                        p.sector_count as int,
                        i,
                    )
            } else {
                reply is Refused
            }
        },
        Request::SetIsr(p) => if p.index < 256 && p.dpl <= 3 {
            &&& reply is Done
            &&& *after == (Kernel { table: after.table, ..*before })
            &&& after.table.selector() == before.table.selector()
            &&& after.table@ == before.table@.update(
                p.index as int,
                gate(p.func, GateType::DInterrupt, p.dpl, before.table.selector()),
            )
        } else {
            reply is Refused && *after == *before
        },
        Request::PicSendEoi(p) => {
            &&& reply matches Reply::Ports(writes) && writes@ == eoi_sequence(p.irq_line)
            &&& *after == *before
        },
        Request::PicSetMask(p) => {
            &&& *after == *before
            &&& if p.irq_line < 16 {
                reply matches Reply::Ports(writes) && writes@ == seq![
                    PortWrite {
                        port: spec_mask_port(p.irq_line),
                        value: mask_after(p.current_masks, p.irq_line, p.value),
                    },
                ]
            } else {
                reply is Refused
            }
        },
        Request::Alloc(p) => if p.size > 0 && p.align > 0 {
            let outcome = before.heap.outcome(p.size as int, p.align as int);
            &&& *after == (Kernel {
                heap: after.heap,
                interrupts: InterruptState { enabled: true },
                ..*before
            })
            &&& after.heap.base() == before.heap.base()
            &&& after.heap.capacity() == before.heap.capacity()
            &&& after.heap@ == placed(
                before.heap@,
                before.heap.base(),
                p.size as int,
                p.align as int,
                outcome,
            )
            &&& reply matches Reply::Pointer(r)
            &&& match address_of(before.heap@, before.heap.base(), p.align as int, outcome) {
                Some(addr) => r == Some(addr as usize) && before.heap.base() <= addr && addr
                    + p.size <= before.heap.base() + before.heap.capacity(),
                None => r is None,
            }
        } else {
            reply is Refused && *after == *before
        },
        Request::Dealloc(p) => {
            &&& reply is Done
            &&& *after == (Kernel {
                heap: after.heap,
                interrupts: InterruptState { enabled: true },
                ..*before
            })
            &&& after.heap.base() == before.heap.base()
            &&& after.heap.capacity() == before.heap.capacity()
            &&& after.heap@ == freed(before.heap@, before.heap.base(), p.ptr as int)
        },
        Request::RunProgram(p) => {
            &&& *after == (Kernel {
                interrupts: InterruptState { enabled: true },
                heap: after.heap,
                paging: after.paging,
                processes: after.processes,
                loader: after.loader,
                ..*before
            })
            &&& reply matches Reply::Loaded(res)
            &&& load_served(before, after, p.program@, kernel_esp, *res)
        },
        Request::HasInitHeap(_) => {
            &&& reply matches Reply::Flag(b) && b == before.paging.heap_ready
            &&& *after == *before
        },
        Request::HasLoadedProcesses(_) => {
            &&& reply matches Reply::Flag(b) && b == before.processes.loaded()
            &&& *after == *before
        },
        Request::GetCurrPageDir(_) => {
            &&& reply matches Reply::PageDir(base) && base == before.paging.current
            &&& *after == *before
        },
        Request::GetOnKeyDown(_) => {
            &&& reply matches Reply::Reference(s) && s == Singleton::OnKeyDown
            &&& *after == *before
        },
        Request::GetOnKeyUp(_) => {
            &&& reply matches Reply::Reference(s) && s == Singleton::OnKeyUp
            &&& *after == *before
        },
        Request::GetConsole(_) => {
            &&& reply matches Reply::Reference(s) && s == Singleton::Console
            &&& *after == *before
        },
        Request::IsKeyPressed(p) => {
            &&& reply matches Reply::Flag(b) && b == before.keyboard.pressed(p.key)
            &&& *after == *before
        },
        Request::IsCapsLockActive(_) => {
            &&& reply matches Reply::Flag(b) && b == before.keyboard.caps_lock
            &&& *after == *before
        },
        Request::FsGetHeader(_) => {
            &&& reply matches Reply::Reference(s) && s == Singleton::FsHeader
            &&& *after == *before
        },
        Request::GetFilesInDir(p) => {
            &&& *after == *before
            &&& reply matches Reply::Listing { folders, files }
            &&& (names_of(folders@), files@) == listing(
                before.fs.entries(),
                p.root@,
                Seq::<Seq<u8>>::empty(),
                Seq::<FileMetadata>::empty(),
                crate::fs::MAX_FILES as int,
            )
        },
        Request::ExecuteFile(p) => if p.file.is_open() {
            &&& *after == (Kernel {
                interrupts: InterruptState { enabled: true },
                heap: after.heap,
                paging: after.paging,
                processes: after.processes,
                loader: after.loader,
                fs: after.fs,
                ..*before
            })
            &&& reply matches Reply::Loaded(res)
            &&& execute_served(before, after, p.file.index(), p.image@, kernel_esp, *res)
        } else {
            reply is Refused && *after == *before
        },
    }
}

/// Serves a request that loads the program `image`: the directory of the
/// program is asked of the heap, and given back if the program is not
/// loaded.
fn serve_load<H: Copy>(kernel: &mut Kernel<H>, image: &[u8], kernel_esp: u32) -> (res: Result<
    Loaded,
    ElfError,
>)
    requires
        old(kernel).wf(),
    ensures
        final(kernel).wf(),
        *final(kernel) == (Kernel {
            interrupts: InterruptState { enabled: true },
            heap: final(kernel).heap,
            paging: final(kernel).paging,
            processes: final(kernel).processes,
            loader: final(kernel).loader,
            ..*old(kernel)
        }),
        load_served(old(kernel), final(kernel), image@, kernel_esp, res),
{
    let base = match kernel.heap.alloc_internal(&mut kernel.interrupts, DIRECTORY_BYTES as usize, 4096) {
        Some(base) => base,
        None => {
            return Err(ElfError::OutOfMemory);
        },
    };
    let res = crate::execution::run_program(
        image,
        &mut kernel.loader,
        &mut kernel.paging,
        &mut kernel.processes,
        &kernel.layout,
        base as u32,
        kernel.trampoline,
        kernel_esp,
    );
    if res.is_err() {
        kernel.heap.dealloc_internal(&mut kernel.interrupts, base);
    }
    res
}

/// Serves a request: switches over the operation and does it on the
/// kernel's state, or says what the caller is to do where the operation is
/// input or output. `kernel_esp` is the kernel's stack pointer at the
/// trap, which a program that is loaded keeps for the way back.
pub fn syscall_handler_inner<H: Copy>(kernel: &mut Kernel<H>, request: Request, kernel_esp: u32) -> (r:
    Reply)
    requires
        old(kernel).wf(),
    ensures
        final(kernel).wf(),
        served(old(kernel), final(kernel), &request, kernel_esp, &r),
{
    match request {
        Request::Print(p) => {
            print_syscall(kernel, p.text.as_str());
            Reply::Done
        },
        Request::DisableInterrupts(_) => {
            crate::interrupts::disable(&mut kernel.interrupts);
            Reply::Done
        },
        Request::EnableInterrupts(_) => {
            crate::interrupts::enable(&mut kernel.interrupts);
            Reply::Done
        },
        Request::AreInterruptsEnabled(_) => Reply::Flag(
            crate::interrupts::is_enabled(&kernel.interrupts),
        ),
        Request::Halt(_) => halt(),
        Request::Empty(_) => {
            empty();
            Reply::Done
        },
        Request::Outb(p) => Reply::OutByte(PortWrite { port: p.port, value: p.value }),
        Request::Outw(p) => Reply::OutWord { port: p.port, word: p.value },
        Request::Outl(p) => Reply::OutLong { port: p.port, long: p.value },
        Request::ReadSectors(p) => {
            if p.sector_count <= u32::MAX - p.lba {
                Reply::Read(crate::ata::batches(p.lba, p.sector_count))
            } else {
                Reply::Refused
            }
        },
        Request::WriteSectors(p) => {
            if p.sector_count <= u32::MAX - p.lba {
                Reply::Write(crate::ata::batches(p.lba, p.sector_count))
            } else {
                Reply::Refused
            }
        },
        Request::SetIsr(p) => set_isr(kernel, p.index, p.func, p.dpl),
        Request::PicSendEoi(p) => Reply::Ports(crate::pic::send_eoi(p.irq_line)),
        Request::PicSetMask(p) => {
            if p.irq_line < 16 {
                let mut writes: Vec<PortWrite> = Vec::new();
                writes.push(crate::pic::set_mask(p.irq_line, p.value, p.current_masks));
                Reply::Ports(writes)
            } else {
                Reply::Refused
            }
        },
        Request::Alloc(p) => allocate(kernel, p.size, p.align),
        Request::Dealloc(p) => {
            dealloc(kernel, p.ptr);
            Reply::Done
        },
        Request::RunProgram(p) => Reply::Loaded(serve_load(kernel, p.program.as_slice(), kernel_esp)),
        Request::HasInitHeap(_) => Reply::Flag(crate::heap::has_init(&kernel.paging)),
        Request::HasLoadedProcesses(_) => Reply::Flag(
            crate::process::has_loaded_processes(&kernel.processes),
        ),
        Request::GetCurrPageDir(_) => Reply::PageDir(kernel.paging.curr()),
        Request::GetOnKeyDown(_) => Reply::Reference(Singleton::OnKeyDown),
        Request::GetOnKeyUp(_) => Reply::Reference(Singleton::OnKeyUp),
        Request::GetConsole(_) => Reply::Reference(Singleton::Console),
        Request::IsKeyPressed(p) => Reply::Flag(is_key_pressed(kernel, p.key)),
        Request::IsCapsLockActive(_) => Reply::Flag(
            crate::keyboard::is_caps_lock_active(&kernel.keyboard),
        ),
        Request::FsGetHeader(_) => Reply::Reference(Singleton::FsHeader),
        Request::GetFilesInDir(p) => {
            let mut folders: Vec<Vec<u8>> = Vec::new();
            let mut files: Vec<FileMetadata> = Vec::new();
            crate::fs::dir(p.root.as_slice(), &mut folders, &mut files, &kernel.fs);
            proof {
                assert(names_of(Seq::<Vec<u8>>::empty()) =~= Seq::<Seq<u8>>::empty());
            }
            Reply::Listing { folders, files }
        },
        Request::ExecuteFile(p) => serve_execute(kernel, p, kernel_esp),
    }
}

/// Serves the request to run the program in a file: the directory of the
/// program is asked of the heap, and given back if the program is not
/// loaded. A handle that has been closed is refused.
fn serve_execute<H: Copy>(kernel: &mut Kernel<H>, p: ExecuteFile, kernel_esp: u32) -> (r: Reply)
    requires
        old(kernel).wf(),
    ensures
        final(kernel).wf(),
        served(old(kernel), final(kernel), &Request::ExecuteFile(p), kernel_esp, &r),
{
    let mut file = p.file;
    if file.index_of() >= crate::fs::MAX_FILES {
        return Reply::Refused;
    }
    let base = match kernel.heap.alloc_internal(&mut kernel.interrupts, DIRECTORY_BYTES as usize, 4096) {
        Some(base) => base,
        None => {
            return Reply::Loaded(Err(ElfError::OutOfMemory));
        },
    };
    let res = crate::execution::execute_file(
        &mut file,
        &mut kernel.fs,
        &mut kernel.heap,
        &mut kernel.interrupts,
        p.image.as_slice(),
        &mut kernel.loader,
        &mut kernel.paging,
        &mut kernel.processes,
        &kernel.layout,
        base as u32,
        kernel.trampoline,
        kernel_esp,
    );
    if res.is_err() {
        kernel.heap.dealloc_internal(&mut kernel.interrupts, base);
    }
    Reply::Loaded(res)
}

/// Writes a text to the console, with interrupts off for the time.
pub fn print_syscall<H: Copy>(kernel: &mut Kernel<H>, text: &str)
    requires
        old(kernel).wf(),
    ensures
        final(kernel).wf(),
        *final(kernel) == (Kernel { console: final(kernel).console, ..*old(kernel) }),
        final(kernel).console.colors() == old(kernel).console.colors(),
        final(kernel).console.screen() == typed_all(
            old(kernel).console.screen(),
            vstd::utf8::encode_utf8(text@),
            old(kernel).console.colors(),
        ),
        final(kernel).console.shown() == final(kernel).console.screen().ptr,
{
    crate::vga_console::_print(&mut kernel.console, &mut kernel.interrupts, text);
}

/// Asks the kernel's heap for `size` bytes at a multiple of `align`. A
/// request for no bytes, or with no alignment, is refused.
pub fn allocate<H: Copy>(kernel: &mut Kernel<H>, size: usize, align: usize) -> (r: Reply)
    requires
        old(kernel).wf(),
    ensures
        final(kernel).wf(),
        served(old(kernel), final(kernel), &Request::Alloc(Alloc { size, align }), 0, &r),
{
    if size > 0 && align > 0 {
        Reply::Pointer(kernel.heap.alloc_internal(&mut kernel.interrupts, size, align))
    } else {
        Reply::Refused
    }
}

/// Gives the block that holds `ptr` back to the kernel's heap.
pub fn dealloc<H: Copy>(kernel: &mut Kernel<H>, ptr: usize)
    requires
        old(kernel).wf(),
    ensures
        final(kernel).wf(),
        served(old(kernel), final(kernel), &Request::Dealloc(Dealloc { ptr }), 0, &Reply::Done),
{
    kernel.heap.dealloc_internal(&mut kernel.interrupts, ptr);
}

/// Whether `key` is held down.
pub fn is_key_pressed<H: Copy>(kernel: &Kernel<H>, key: Key) -> (r: bool)
    requires
        kernel.wf(),
    ensures
        r == kernel.keyboard.pressed(key),
{
    crate::keyboard::is_key_pressed(&kernel.keyboard, key)
}

/// The operation that does nothing.
pub fn empty() {
}

/// The operation that halts the processor: the caller is told to.
pub fn halt() -> (r: Reply)
    ensures
        r is Halt,
{
    Reply::Halt
}

/// Installs the handler at `func` for the vector `index`, as a 32-bit
/// interrupt gate open to privilege level `dpl` or better. A vector that
/// the table does not have, or a level that does not exist, is refused.
pub fn set_isr<H: Copy>(kernel: &mut Kernel<H>, index: usize, func: u32, dpl: u8) -> (r: Reply)
    requires
        old(kernel).wf(),
    ensures
        final(kernel).wf(),
        served(old(kernel), final(kernel), &Request::SetIsr(SetIsr { index, func, dpl }), 0, &r),
{
    if index < 256 && dpl <= 3 {
        kernel.table.install(index as u8, func, dpl, GateType::DInterrupt);
        Reply::Done
    } else {
        Reply::Refused
    }
}

/// The header of the file system.
pub fn get_fs_header<H: Copy>(kernel: &Kernel<H>) -> (r: &Header)
    ensures
        *r == kernel.fs,
{
    &kernel.fs
}

/// The gateway's handler: serves `request` if `tag` is the tag of its
/// operation, and gives `None` for any other tag, which the kernel does
/// not survive. Interrupts are off from the trap until the handler
/// returns.
pub fn syscall_handler<H: Copy>(kernel: &mut Kernel<H>, tag: u32, request: Request, kernel_esp: u32) -> (r:
    Option<Reply>)
    requires
        old(kernel).wf(),
    ensures
        final(kernel).wf(),
        r is Some <==> tag == request.spec_kind().spec_tag(),
        r is None ==> *final(kernel) == *old(kernel),
        r matches Some(reply) ==> served(old(kernel), final(kernel), &request, kernel_esp, &reply),
{
    if request.kind().tag() != tag {
        return None;
    }
    Some(syscall_handler_inner(kernel, request, kernel_esp))
}

} // verus!
