//! The flat file system: a header of two sectors that maps each path to
//! the sectors of its file, and handles on its entries.

use vstd::prelude::*;
use vstd::string::StringSliceAdditionalSpecFns;
use crate::execution::{le_u32, read_u32};
use crate::io::Seek;

verus! {

/// Sectors that the header takes on disk.
pub const HEADER_SECTORS: usize = 2;

/// The most files the header has room for.
pub const MAX_FILES: usize = 24;

/// Bytes of a path in the header, padded with zero bytes.
pub const MAX_PATH_LENGTH: usize = 32;

/// Bytes of an entry in the header: the path, the first sector, the
/// number of sectors, and the flags.
pub const ENTRY_BYTES: usize = 41;

/// Bytes of the header on disk.
pub const HEADER_BYTES: usize = 1024;

/// Flag bit: a handle on the file is open.
pub const OPENED: u8 = 1;

/// Flag bit: the file has been deleted.
pub const DELETED: u8 = 2;

/// The flags of a file, as a set of bits.
#[derive(Clone, Copy, Debug, PartialEq, Eq, Structural)]
pub struct FileFlags {
    pub bits: u8,
}

/// Setting or clearing one of the two flags changes that flag alone.
pub proof fn lemma_file_flags(b: u8)
    by (bit_vector)
    ensures
        (b | 1u8) & 1u8 == 1u8,
        (b | 1u8) & 2u8 == b & 2u8,
        (b & !1u8) & 1u8 == 0u8,
        (b & !1u8) & 2u8 == b & 2u8,
        (b | 2u8) & 2u8 == 2u8,
        (b | 2u8) & 1u8 == b & 1u8,
        (b & !2u8) & 2u8 == 0u8,
        (b & !2u8) & 1u8 == b & 1u8,
        0u8 & 1u8 == 0u8,
        0u8 & 2u8 == 0u8,
{
}

impl FileFlags {
    /// Whether a handle on the file is open.
    pub open spec fn opened(self) -> bool {
        self.bits & OPENED == OPENED
    }

    /// Whether the file has been deleted.
    pub open spec fn deleted(self) -> bool {
        self.bits & DELETED == DELETED
    }

    /// No flag.
    pub fn empty() -> (r: FileFlags)
        ensures
            r.bits == 0,
            !r.opened(),
            !r.deleted(),
    {
        proof {
            lemma_file_flags(0);
        }
        FileFlags { bits: 0 }
    }

    /// Whether every flag of `other` is in `self`.
    pub fn contains(&self, other: u8) -> (r: bool)
        ensures
            r == (self.bits & other == other),
    {
        self.bits & other == other
    }

    /// Sets the opened flag to `value` and keeps the deleted flag.
    pub fn set_opened(&mut self, value: bool)
        ensures
            final(self).opened() == value,
            final(self).deleted() == old(self).deleted(),
    {
        proof {
            lemma_file_flags(self.bits);
        }
        if value {
            self.bits = self.bits | OPENED;
        } else {
            self.bits = self.bits & !OPENED;
        }
    }

    /// Sets the deleted flag to `value` and keeps the opened flag.
    pub fn set_deleted(&mut self, value: bool)
        ensures
            final(self).deleted() == value,
            final(self).opened() == old(self).opened(),
    {
        proof {
            lemma_file_flags(self.bits);
        }
        if value {
            self.bits = self.bits | DELETED;
        } else {
            self.bits = self.bits & !DELETED;
        }
    }
}

/// An entry of the header: where the file of a path lies.
#[derive(Clone, Copy, Debug)]
pub struct FileMetadata {
    /// The path, padded with zero bytes.
    pub path: [u8; 32],
    /// The first sector of the file.
    pub sector: u32,
    /// Sectors the file takes.
    pub size: u32,
    pub flags: FileFlags,
}

/// Whether the bytes of `stored` before its first zero byte are `path`.
pub open spec fn named(stored: Seq<u8>, path: Seq<u8>) -> bool {
    &&& path.len() <= stored.len()
    &&& forall|i: int| 0 <= i < path.len() ==> stored[i] == path[i] && path[i] != 0
    &&& path.len() < stored.len() ==> stored[path.len() as int] == 0
}

/// Whether the stored path `stored` names `path`.
pub fn is_named(stored: &[u8; 32], path: &[u8]) -> (r: bool)
    ensures
        r == named(stored@, path@),
{
    if path.len() > MAX_PATH_LENGTH {
        return false;
    }
    let mut i: usize = 0;
    while i < path.len()
        invariant
            i <= path@.len() <= 32,
            forall|k: int| 0 <= k < i ==> stored@[k] == path@[k] && path@[k] != 0,
        decreases path@.len() - i,
    {
        if stored[i] != path[i] || path[i] == 0 {
            return false;
        }
        i += 1;
    }
    if path.len() < MAX_PATH_LENGTH {
        stored[path.len()] == 0
    } else {
        true
    }
}

/// The header: the entries, the number of them in use, and whether it has
/// changed since it was last written to disk.
pub struct Header {
    first_null: u32,
    entries: Vec<FileMetadata>,
    dirty: bool,
}

/// A handle on an entry of the header, with a cursor in the file.
pub struct File {
    index: usize,
    ptr: usize,
}

/// Why a file operation was refused.
#[derive(Clone, Copy, Debug, PartialEq, Eq, Structural)]
pub enum FileError {
    TooManyFiles,
    FileAlreadyExists,
    FileAlreadyOpen,
    FileClosed,
    OutOfSpace,
    FileNotFound,
    PathTooLong,
}

impl Header {
    /// The header has all its entries.
    pub closed spec fn wf(&self) -> bool {
        self.entries.len() == MAX_FILES
    }

    /// The entries.
    pub closed spec fn entries(&self) -> Seq<FileMetadata> {
        self.entries@
    }

    /// The number of entries in use: the index of the first free one.
    pub closed spec fn first_null(&self) -> u32 {
        self.first_null
    }

    /// Whether the header has changed since it was last written to disk.
    pub closed spec fn dirty(&self) -> bool {
        self.dirty
    }

    /// Whether entry `i` is the first that names `path`.
    pub open spec fn first_named(&self, path: Seq<u8>, i: int) -> bool {
        &&& 0 <= i < MAX_FILES
        &&& named(self.entries()[i].path@, path)
        &&& forall|j: int| 0 <= j < i ==> !named(#[trigger] self.entries()[j].path@, path)
    }

    /// Whether no entry names `path`.
    pub open spec fn none_named(&self, path: Seq<u8>) -> bool {
        forall|j: int| 0 <= j < MAX_FILES ==> !named(#[trigger] self.entries()[j].path@, path)
    }

    /// A header with no file.
    pub fn new() -> (r: Header)
        ensures
            r.wf(),
            r.first_null() == 0,
            !r.dirty(),
            forall|i: int|
                0 <= i < MAX_FILES ==> (#[trigger] r.entries()[i]).path@ == Seq::new(
                    32,
                    |k: int| 0u8,
                ) && r.entries()[i].sector == 0 && r.entries()[i].size == 0
                    && r.entries()[i].flags.bits == 0,
    {
        let mut entries: Vec<FileMetadata> = Vec::new();
        let mut i: usize = 0;
        while i < MAX_FILES
            invariant
                i <= MAX_FILES,
                entries.len() == i,
                forall|k: int|
                    0 <= k < i ==> (#[trigger] entries[k]).path@ =~= Seq::new(32, |j: int| 0u8)
                        && entries[k].sector == 0 && entries[k].size == 0 && entries[k].flags.bits
                        == 0,
            decreases MAX_FILES - i,
        {
            entries.push(
                FileMetadata { path: [0u8; 32], sector: 0, size: 0, flags: FileFlags { bits: 0 } },
            );
            i += 1;
        }
        Header { first_null: 0, entries, dirty: false }
    }

    /// The index of the first entry that names `path`, if one does.
    pub fn find(&self, path: &[u8]) -> (r: Option<usize>)
        requires
            self.wf(),
        ensures
            match r {
                Some(i) => self.first_named(path@, i as int),
                None => self.none_named(path@),
            },
    {
        let mut i: usize = 0;
        while i < MAX_FILES
            invariant
                i <= MAX_FILES,
                self.wf(),
                forall|j: int| 0 <= j < i ==> !named(#[trigger] self.entries()[j].path@, path@),
            decreases MAX_FILES - i,
        {
            if is_named(&self.entries[i].path, path) {
                return Some(i);
            }
            i += 1;
        }
        None
    }

    /// Notes that the header has been written to disk.
    pub fn written(&mut self)
        ensures
            !final(self).dirty(),
            final(self).entries() == old(self).entries(),
            final(self).first_null() == old(self).first_null(),
            final(self).wf() == old(self).wf(),
    {
        self.dirty = false;
    }

    /// Whether the header has changed since it was last written to disk.
    pub fn is_dirty(&self) -> (r: bool)
        ensures
            r == self.dirty(),
    {
        self.dirty
    }
}

/// The first sector behind the header and the sector left free after it.
pub const FIRST_FILE_SECTOR: u32 = 3;

impl File {
    /// The index of the entry the handle is on.
    pub closed spec fn index(&self) -> int {
        self.index as int
    }

    /// Whether the handle has not been closed.
    pub open spec fn is_open(&self) -> bool {
        0 <= self.index() < MAX_FILES
    }

    /// A handle on entry `index`, with the cursor at the start.
    pub fn from_index(index: usize) -> (r: File)
        ensures
            r.index() == index,
            r.position() == 0,
    {
        File { index, ptr: 0 }
    }

    /// Opens the file of `path`: a handle on the first entry that names
    /// it, which is marked as opened. A file that is open already is
    /// refused, and so is a path that no entry names.
    pub fn open(path: &str, header: &mut Header) -> (r: Result<File, FileError>)
        requires
            old(header).wf(),
        ensures
            final(header).wf(),
            final(header).first_null() == old(header).first_null(),
            final(header).dirty() == old(header).dirty(),
            match r {
                Ok(file) => {
                    &&& old(header).first_named(path.spec_bytes(), file.index())
                    &&& !old(header).entries()[file.index()].flags.opened()
                    &&& file.position() == 0
                    &&& final(header).entries().len() == MAX_FILES
                    &&& forall|j: int|
                        0 <= j < MAX_FILES && j != file.index() ==> final(header).entries()[j]
                            == old(header).entries()[j]
                    &&& final(header).entries()[file.index()].path == old(header).entries()[file.index()].path
                    &&& final(header).entries()[file.index()].sector == old(header).entries()[file.index()].sector
                    &&& final(header).entries()[file.index()].size == old(header).entries()[file.index()].size
                    &&& final(header).entries()[file.index()].flags.opened()
                    &&& final(header).entries()[file.index()].flags.deleted() == old(header).entries()[file.index()].flags.deleted()
                },
                Err(e) => {
                    &&& *final(header) == *old(header)
                    &&& e == FileError::FileAlreadyOpen || e == FileError::FileNotFound
                    &&& e == FileError::FileNotFound <==> old(header).none_named(path.spec_bytes())
                    &&& e == FileError::FileAlreadyOpen ==> exists|i: int|
                        old(header).first_named(path.spec_bytes(), i) && #[trigger] old(header).entries()[i].flags.opened()
                },
            },
    {
        match header.find(path.as_bytes()) {
            Some(i) => {
                let mut entry = header.entries[i];
                if entry.flags.contains(OPENED) {
                    proof {
                        assert(named(header.entries()[i as int].path@, path.spec_bytes()));
                        assert(header.first_named(path.spec_bytes(), i as int)
                            && header.entries()[i as int].flags.opened());
                    }
                    return Err(FileError::FileAlreadyOpen);
                }
                entry.flags.set_opened(true);
                header.entries[i] = entry;
                Ok(File::from_index(i))
            },
            None => Err(FileError::FileNotFound),
        }
    }

    /// The sector at which a new file begins: behind the file of the last
    /// entry in use, or at `FIRST_FILE_SECTOR` if there is none.
    pub open spec fn next_sector(header: &Header) -> int {
        if header.first_null() > 0 {
            header.entries()[header.first_null() - 1].sector + header.entries()[header.first_null()
                - 1].size
        } else {
            FIRST_FILE_SECTOR as int
        }
    }

    /// What `create` answers for `path`.
    pub open spec fn create_result(path: Seq<u8>, header: &Header) -> Result<(), FileError> {
        if path.len() >= MAX_PATH_LENGTH {
            Err(FileError::PathTooLong)
        } else if header.first_null() >= MAX_FILES {
            Err(FileError::TooManyFiles)
        } else if !header.none_named(path) {
            Err(FileError::FileAlreadyExists)
        } else if Self::next_sector(header) > u32::MAX {
            Err(FileError::OutOfSpace)
        } else {
            Ok(())
        }
    }

    /// Creates the file of `path`: the first free entry gets the path,
    /// padded with zero bytes, one sector behind the file before it, and
    /// no flag; the header is to be written to disk. A path of
    /// `MAX_PATH_LENGTH` bytes or more is refused, and so are a full
    /// header, a path that an entry names already, and a sector that has
    /// no number.
    pub fn create(path: &str, header: &mut Header) -> (r: Result<File, FileError>)
        requires
            old(header).wf(),
        ensures
            final(header).wf(),
            match r {
                Ok(file) => {
                    &&& Self::create_result(path.spec_bytes(), old(header)) is Ok
                    &&& file.index() == old(header).first_null()
                    &&& file.position() == 0
                    &&& final(header).first_null() == old(header).first_null() + 1
                    &&& final(header).dirty()
                    &&& final(header).entries().len() == MAX_FILES
                    &&& forall|j: int|
                        0 <= j < MAX_FILES && j != file.index() ==> final(header).entries()[j]
                            == old(header).entries()[j]
                    &&& forall|k: int|
                        0 <= k < 32 ==> final(header).entries()[file.index()].path@[k] == if k
                            < path.spec_bytes().len() {
                            path.spec_bytes()[k]
                        } else {
                            0u8
                        }
                    &&& final(header).entries()[file.index()].sector == Self::next_sector(
                        old(header),
                    )
                    &&& final(header).entries()[file.index()].size == 1
                    &&& final(header).entries()[file.index()].flags.bits == 0
                },
                Err(e) => *final(header) == *old(header) && Self::create_result(
                    path.spec_bytes(),
                    old(header),
                ) == Err::<(), FileError>(e),
            },
    {
        let bytes = path.as_bytes();
        if bytes.len() >= MAX_PATH_LENGTH {
            return Err(FileError::PathTooLong);
        }
        if header.first_null as usize >= MAX_FILES {
            return Err(FileError::TooManyFiles);
        }
        match header.find(bytes) {
            Some(i) => {
                return Err(FileError::FileAlreadyExists);
            },
            None => {},
        }
        let first_null = header.first_null as usize;
        let addr: u32 = if first_null > 0 {
            let prev = header.entries[first_null - 1];
            if prev.size > u32::MAX - prev.sector {
                return Err(FileError::OutOfSpace);
            }
            prev.sector + prev.size
        } else {
            FIRST_FILE_SECTOR
        };
        let mut padded_path: [u8; 32] = [0u8; 32];
        let mut i: usize = 0;
        while i < bytes.len()
            invariant
                i <= bytes@.len() < 32,
                forall|k: int|
                    0 <= k < 32 ==> padded_path[k] == if k < i {
                        bytes@[k]
                    } else {
                        0u8
                    },
            decreases bytes@.len() - i,
        {
            padded_path[i] = bytes[i];
            i += 1;
        }
        header.entries[first_null] = FileMetadata {
            path: padded_path,
            sector: addr,
            size: 1,
            flags: FileFlags::empty(),
        };
        header.first_null = header.first_null + 1;
        header.dirty = true;
        Ok(File::from_index(first_null))
    }

    /// Marks the file as deleted. A file whose entry is not marked as
    /// opened is refused. The handle must not have been closed.
    pub fn delete(&mut self, header: &mut Header) -> (r: Result<(), FileError>)
        requires
            old(self).is_open(),
            old(header).wf(),
        ensures
            final(header).wf(),
            *final(self) == *old(self),
            final(header).first_null() == old(header).first_null(),
            final(header).dirty() == old(header).dirty(),
            r is Ok <==> old(header).entries()[old(self).index()].flags.opened(),
            r is Err ==> r == Err::<(), FileError>(FileError::FileClosed) && *final(header) == *old(header),
            r is Ok ==> {
                &&& final(header).entries().len() == MAX_FILES
                &&& forall|j: int|
                    0 <= j < MAX_FILES && j != old(self).index() ==> final(header).entries()[j]
                        == old(header).entries()[j]
                &&& final(header).entries()[old(self).index()].path == old(header).entries()[old(self).index()].path
                &&& final(header).entries()[old(self).index()].sector == old(header).entries()[old(self).index()].sector
                &&& final(header).entries()[old(self).index()].size == old(header).entries()[old(self).index()].size
                &&& final(header).entries()[old(self).index()].flags.deleted()
                &&& final(header).entries()[old(self).index()].flags.opened()
            },
    {
        let mut metadata = header.entries[self.index];
        if !metadata.flags.contains(OPENED) {
            return Err(FileError::FileClosed);
        }
        metadata.flags.set_deleted(true);
        header.entries[self.index] = metadata;
        Ok(())
    }

    /// The entry the handle is on. The handle must not have been closed.
    pub fn get_metadata(&self, header: &Header) -> (r: FileMetadata)
        requires
            self.is_open(),
            header.wf(),
        ensures
            r == header.entries()[self.index()],
    {
        header.entries[self.index]
    }

    /// Sets the number of sectors the file takes; the header is to be
    /// written to disk. The handle must not have been closed.
    pub fn set_size(&mut self, val: u32, header: &mut Header)
        requires
            old(self).is_open(),
            old(header).wf(),
        ensures
            final(header).wf(),
            *final(self) == *old(self),
            final(header).first_null() == old(header).first_null(),
            final(header).dirty(),
            final(header).entries().len() == MAX_FILES,
            forall|j: int|
                0 <= j < MAX_FILES && j != old(self).index() ==> final(header).entries()[j] == old(header).entries()[j],
            final(header).entries()[old(self).index()] == (FileMetadata {
                size: val,
                ..old(header).entries()[old(self).index()]
            }),
    {
        let entry = header.entries[self.index];
        header.entries[self.index] = FileMetadata { size: val, ..entry };
        header.dirty = true;
    }

    /// Closes the handle: the entry is no longer marked as opened, the
    /// handle is on no entry any more, and the header is to be written to
    /// disk. The handle must not have been closed before.
    pub fn close(&mut self, header: &mut Header)
        requires
            old(self).is_open(),
            old(header).wf(),
        ensures
            final(header).wf(),
            !final(self).is_open(),
            final(self).index() == MAX_FILES + 1,
            final(self).position() == old(self).position(),
            final(header).first_null() == old(header).first_null(),
            final(header).dirty(),
            final(header).entries().len() == MAX_FILES,
            forall|j: int|
                0 <= j < MAX_FILES && j != old(self).index() ==> final(header).entries()[j] == old(header).entries()[j],
            final(header).entries()[old(self).index()].path == old(header).entries()[old(self).index()].path,
            final(header).entries()[old(self).index()].sector == old(header).entries()[old(self).index()].sector,
            final(header).entries()[old(self).index()].size == old(header).entries()[old(self).index()].size,
            !final(header).entries()[old(self).index()].flags.opened(),
            final(header).entries()[old(self).index()].flags.deleted() == old(header).entries()[old(self).index()].flags.deleted(),
    {
        let mut entry = header.entries[self.index];
        entry.flags.set_opened(false);
        header.entries[self.index] = entry;
        self.index = MAX_FILES + 1;
        header.dirty = true;
    }
}

impl Seek for File {
    closed spec fn position(&self) -> usize {
        self.ptr
    }

    fn seek(&mut self, pos: usize)
        ensures
            final(self).index() == old(self).index(),
    {
        self.ptr = pos;
    }

    fn get_cursor_position(&self) -> (r: usize) {
        self.ptr
    }
}

/// A run of sectors on disk.
#[derive(Clone, Copy, Debug, PartialEq, Eq, Structural)]
pub struct SectorRun {
    /// The first sector, cut to 32 bits.
    pub lba: u32,
    /// The number of sectors.
    pub sectors: usize,
}

/// The run of sectors that holds `count` bytes from the byte `ptr` of a
/// file that begins at `sector`: from the sector of the first byte to the
/// sector of the byte behind the last, that one included only if the
/// bytes do not begin and end on sector boundaries.
pub open spec fn read_run_of(sector: u32, ptr: int, count: int) -> SectorRun {
    SectorRun {
        lba: ((sector + ptr / 512) % 0x100000000) as u32,
        sectors: ((ptr + count) / 512 - ptr / 512 + if ptr % 512 != 0 || count % 512 != 0 {
            1int
        } else {
            0int
        }) as usize,
    }
}

/// The run of sectors that is written for `len` bytes from the byte `ptr`
/// of a file that begins at `sector`: from the sector of the first byte to
/// the sector of the byte behind the last.
pub open spec fn write_run_of(sector: u32, ptr: int, len: int) -> SectorRun {
    SectorRun {
        lba: ((sector + ptr / 512) % 0x100000000) as u32,
        sectors: ((ptr + len) / 512 - ptr / 512 + 1) as usize,
    }
}

/// Bytes that a read into a buffer of `buffer_len` bytes gives: the whole
/// file, or as much as the buffer holds.
pub open spec fn read_count(size: u32, buffer_len: int) -> int {
    if size * 512 < buffer_len {
        size * 512
    } else {
        buffer_len
    }
}

impl File {
    /// The sector that holds the byte at the cursor, cut to 32 bits, and
    /// the place of the byte in it. To read the byte, the caller reads the
    /// sector; to write it, the caller reads the sector, sets the byte and
    /// writes the sector back. The handle must not have been closed.
    pub fn byte_place(&self, header: &Header) -> (r: (u32, usize))
        requires
            self.is_open(),
            header.wf(),
        ensures
            r.0 == (header.entries()[self.index()].sector + self.position() / 512) % 0x100000000,
            r.1 == self.position() % 512,
    {
        let md = self.get_metadata(header);
        let sector = (md.sector as u128 + (self.ptr / 512) as u128) % 0x100000000;
        (sector as u32, self.ptr % 512)
    }

    /// The sectors to read for a read into a buffer of `buffer_len` bytes
    /// from the cursor on, and the number of bytes the read gives. The
    /// handle must not have been closed.
    pub fn read_run(&self, header: &Header, buffer_len: usize) -> (r: (SectorRun, usize))
        requires
            self.is_open(),
            header.wf(),
        ensures
            r.1 == read_count(header.entries()[self.index()].size, buffer_len as int),
            r.0 == read_run_of(
                header.entries()[self.index()].sector,
                self.position() as int,
                r.1 as int,
            ),
    {
        let md = self.get_metadata(header);
        let whole = md.size as u64 * 512;
        let count: usize = if whole < buffer_len as u64 {
            whole as usize
        } else {
            buffer_len
        };
        let sector_a = (self.ptr / 512) as u128;
        let sector_b = (self.ptr as u128 + count as u128) / 512;
        let mut sector_count = sector_b - sector_a;
        if self.ptr % 512 != 0 || count % 512 != 0 {
            sector_count = sector_count + 1;
        }
        let lba = (md.sector as u128 + sector_a) % 0x100000000;
        (SectorRun { lba: lba as u32, sectors: sector_count as usize }, count)
    }

    /// The sectors to write for `len` bytes from the cursor on. The handle
    /// must not have been closed.
    pub fn write_run(&self, header: &Header, len: usize) -> (r: SectorRun)
        requires
            self.is_open(),
            header.wf(),
        ensures
            r == write_run_of(
                header.entries()[self.index()].sector,
                self.position() as int,
                len as int,
            ),
    {
        let md = self.get_metadata(header);
        let sector_a = (self.ptr / 512) as u128;
        let sector_b = (self.ptr as u128 + len as u128) / 512;
        let sector_count = sector_b - sector_a + 1;
        let lba = (md.sector as u128 + sector_a) % 0x100000000;
        SectorRun { lba: lba as u32, sectors: sector_count as usize }
    }
}

/// Whether the bytes at the place of entry `i` of a header on disk are the
/// entry `e`: the path, the first sector and the number of sectors with
/// the low byte first, and the flags.
pub open spec fn entry_matches(bytes: Seq<u8>, i: int, e: FileMetadata) -> bool {
    let at = 4 + ENTRY_BYTES * i;
    &&& at + ENTRY_BYTES <= bytes.len()
    &&& forall|k: int| 0 <= k < 32 ==> e.path@[k] == bytes[at + k]
    &&& e.sector == le_u32(bytes, at + 32)
    &&& e.size == le_u32(bytes, at + 36)
    &&& e.flags.bits == bytes[at + 40]
}

/// Whether `bytes` are the header `h` as it lies on disk: the number of
/// entries in use with the low byte first, and then the entries.
pub open spec fn decodes(bytes: Seq<u8>, h: &Header) -> bool {
    &&& bytes.len() >= HEADER_BYTES
    &&& h.first_null() == le_u32(bytes, 0)
    &&& forall|i: int| 0 <= i < MAX_FILES ==> entry_matches(bytes, i, #[trigger] h.entries()[i])
}

/// Reads the header from the bytes of its sectors, or gives `None` if the
/// bytes are fewer than the header takes.
pub fn read_header(bytes: &[u8]) -> (r: Option<Header>)
    ensures
        r is Some <==> bytes@.len() >= HEADER_BYTES,
        r matches Some(h) ==> h.wf() && !h.dirty() && decodes(bytes@, &h),
{
    if bytes.len() < HEADER_BYTES {
        return None;
    }
    let first_null = read_u32(bytes, 0);
    let mut entries: Vec<FileMetadata> = Vec::new();
    let mut i: usize = 0;
    while i < MAX_FILES
        invariant
            i <= MAX_FILES,
            bytes@.len() >= HEADER_BYTES,
            entries.len() == i,
            forall|j: int| 0 <= j < i ==> entry_matches(bytes@, j, #[trigger] entries@[j]),
        decreases MAX_FILES - i,
    {
        let at = 4 + ENTRY_BYTES * i;
        let mut path: [u8; 32] = [0u8; 32];
        let mut k: usize = 0;
        while k < 32
            invariant
                k <= 32,
                at + ENTRY_BYTES <= HEADER_BYTES <= bytes@.len(),
                forall|m: int| 0 <= m < k ==> path@[m] == bytes@[at + m],
            decreases 32 - k,
        {
            path[k] = bytes[at + k];
            k += 1;
        }
        let entry = FileMetadata {
            path,
            sector: read_u32(bytes, at + 32),
            size: read_u32(bytes, at + 36),
            flags: FileFlags { bits: bytes[at + 40] },
        };
        entries.push(entry);
        i += 1;
    }
    Some(Header { first_null, entries, dirty: false })
}

/// Appends the four bytes of `value`, low byte first.
fn push_u32(out: &mut Vec<u8>, value: u32)
    ensures
        final(out)@.len() == old(out)@.len() + 4,
        forall|k: int| 0 <= k < old(out)@.len() ==> final(out)@[k] == old(out)@[k],
        le_u32(final(out)@, old(out)@.len() as int) == value,
{
    out.push((value % 0x100) as u8);
    out.push((value / 0x100 % 0x100) as u8);
    out.push((value / 0x10000 % 0x100) as u8);
    out.push((value / 0x1000000) as u8);
}

/// An entry that some bytes hold is held by any longer run of bytes that
/// begins with them.
pub proof fn lemma_entry_stays(before: Seq<u8>, after: Seq<u8>, i: int, e: FileMetadata)
    requires
        0 <= i,
        entry_matches(before, i, e),
        before.len() <= after.len(),
        forall|k: int| 0 <= k < before.len() ==> after[k] == before[k],
    ensures
        entry_matches(after, i, e),
{
}

/// The bytes of the header as they are to lie on disk, the rest of the
/// two sectors filled with zero bytes. The header counts as written.
pub fn update_header(header: &mut Header) -> (r: Vec<u8>)
    requires
        old(header).wf(),
    ensures
        final(header).wf(),
        final(header).entries() == old(header).entries(),
        final(header).first_null() == old(header).first_null(),
        !final(header).dirty(),
        r@.len() == HEADER_BYTES,
        decodes(r@, final(header)),
        forall|k: int| 4 + ENTRY_BYTES * MAX_FILES <= k < HEADER_BYTES ==> r@[k] == 0,
{
    let mut out: Vec<u8> = Vec::new();
    push_u32(&mut out, header.first_null);
    let mut i: usize = 0;
    while i < MAX_FILES
        invariant
            i <= MAX_FILES,
            header.wf(),
            *header == *old(header),
            out@.len() == 4 + ENTRY_BYTES * i,
            le_u32(out@, 0) == header.first_null(),
            forall|j: int| 0 <= j < i ==> entry_matches(out@, j, #[trigger] header.entries()[j]),
        decreases MAX_FILES - i,
    {
        let entry = header.entries[i];
        let ghost start = out@;
        let mut k: usize = 0;
        while k < 32
            invariant
                k <= 32,
                out@.len() == start.len() + k,
                forall|m: int| 0 <= m < start.len() ==> out@[m] == start[m],
                forall|m: int| 0 <= m < k ==> out@[start.len() + m] == entry.path@[m],
            decreases 32 - k,
        {
            out.push(entry.path[k]);
            k += 1;
        }
        push_u32(&mut out, entry.sector);
        push_u32(&mut out, entry.size);
        out.push(entry.flags.bits);
        proof {
            assert forall|j: int| 0 <= j < i implies entry_matches(
                out@,
                j,
                #[trigger] header.entries()[j],
            ) by {
                lemma_entry_stays(start, out@, j, header.entries()[j]);
            }
            assert(entry_matches(out@, i as int, entry));
        }
        i += 1;
    }
    let ghost filled = out@;
    while out.len() < HEADER_BYTES
        invariant
            filled.len() == 4 + ENTRY_BYTES * MAX_FILES,
            filled.len() <= out@.len() <= HEADER_BYTES,
            forall|m: int| 0 <= m < filled.len() ==> out@[m] == filled[m],
            forall|m: int| filled.len() <= m < out@.len() ==> out@[m] == 0,
        decreases HEADER_BYTES - out@.len(),
    {
        out.push(0);
    }
    proof {
        assert forall|j: int| 0 <= j < MAX_FILES implies entry_matches(
            out@,
            j,
            #[trigger] header.entries()[j],
        ) by {
            lemma_entry_stays(filled, out@, j, header.entries()[j]);
        }
    }
    header.dirty = false;
    out
}

/// Whether the stored path `stored` begins with the bytes `root`.
pub open spec fn starts_with(stored: Seq<u8>, root: Seq<u8>) -> bool {
    root.len() <= stored.len() && forall|k: int| 0 <= k < root.len() ==> stored[k] == root[k]
}

/// The place of the first slash in `stored` at or behind `from`, or the
/// length of `stored` if there is none.
pub open spec fn first_slash(stored: Seq<u8>, from: int) -> int
    decreases stored.len() - from,
{
    if from >= stored.len() {
        stored.len() as int
    } else if stored[from] == 0x2F {
        from
    } else {
        first_slash(stored, from + 1)
    }
}

/// The listing after one more entry has been looked at. An entry whose
/// path does not begin with `root` changes nothing. One with no slash
/// behind `root` is a file of the directory. For any other, the bytes
/// between `root` and the first slash name a folder, which is noted if it
/// has not been noted before.
pub open spec fn listed(
    folders: Seq<Seq<u8>>,
    files: Seq<FileMetadata>,
    entry: FileMetadata,
    root: Seq<u8>,
) -> (Seq<Seq<u8>>, Seq<FileMetadata>) {
    if !starts_with(entry.path@, root) {
        (folders, files)
    } else {
        let slash = first_slash(entry.path@, root.len() as int);
        if slash >= entry.path@.len() {
            (folders, files.push(entry))
        } else {
            let name = entry.path@.subrange(root.len() as int, slash);
            if folders.contains(name) {
                (folders, files)
            } else {
                (folders.push(name), files)
            }
        }
    }
}

/// The listing after the first `n` entries have been looked at.
pub open spec fn listing(
    entries: Seq<FileMetadata>,
    root: Seq<u8>,
    folders: Seq<Seq<u8>>,
    files: Seq<FileMetadata>,
    n: int,
) -> (Seq<Seq<u8>>, Seq<FileMetadata>)
    decreases n,
{
    if n <= 0 {
        (folders, files)
    } else {
        let before = listing(entries, root, folders, files, n - 1);
        listed(before.0, before.1, entries[n - 1], root)
    }
}

/// The views of a list of byte strings.
pub open spec fn names_of(folders: Seq<Vec<u8>>) -> Seq<Seq<u8>> {
    folders.map_values(|f: Vec<u8>| f@)
}

/// Whether the stored path `stored` begins with the bytes `root`.
fn begins_with(stored: &[u8; 32], root: &[u8]) -> (r: bool)
    ensures
        r == starts_with(stored@, root@),
{
    if root.len() > MAX_PATH_LENGTH {
        return false;
    }
    let mut k: usize = 0;
    while k < root.len()
        invariant
            k <= root@.len() <= 32,
            forall|m: int| 0 <= m < k ==> stored@[m] == root@[m],
        decreases root@.len() - k,
    {
        if stored[k] != root[k] {
            return false;
        }
        k += 1;
    }
    true
}

/// The place of the first slash in `stored` at or behind `from`, or 32 if
/// there is none.
fn slash_from(stored: &[u8; 32], from: usize) -> (r: usize)
    requires
        from <= 32,
    ensures
        r == first_slash(stored@, from as int),
        from <= r <= 32,
{
    let mut slash: usize = from;
    while slash < MAX_PATH_LENGTH
        invariant
            from <= slash <= 32,
            first_slash(stored@, slash as int) == first_slash(stored@, from as int),
        decreases 32 - slash,
    {
        if stored[slash] == 0x2F {
            return slash;
        }
        slash += 1;
    }
    slash
}

/// The bytes of `stored` from `from` up to `to`.
fn take_name(stored: &[u8; 32], from: usize, to: usize) -> (r: Vec<u8>)
    requires
        from <= to <= 32,
    ensures
        r@ == stored@.subrange(from as int, to as int),
{
    let mut name: Vec<u8> = Vec::new();
    let mut k: usize = from;
    while k < to
        invariant
            from <= k <= to <= 32,
            name@ == stored@.subrange(from as int, k as int),
        decreases to - k,
    {
        name.push(stored[k]);
        proof {
            assert(name@ =~= stored@.subrange(from as int, k as int + 1));
        }
        k += 1;
    }
    name
}

/// Whether `folder` is the bytes of `stored` from `from` up to `to`.
fn same_name(folder: &Vec<u8>, stored: &[u8; 32], from: usize, to: usize) -> (r: bool)
    requires
        from <= to <= 32,
    ensures
        r == (folder@ == stored@.subrange(from as int, to as int)),
{
    if folder.len() != to - from {
        return false;
    }
    let mut k: usize = 0;
    while k < to - from
        invariant
            k <= to - from,
            from <= to <= 32,
            folder@.len() == to - from,
            forall|m: int| 0 <= m < k ==> folder@[m] == stored@[from + m],
        decreases to - from - k,
    {
        if folder[k] != stored[from + k] {
            proof {
                assert(stored@.subrange(from as int, to as int)[k as int] == stored@[from + k]);
            }
            return false;
        }
        k += 1;
    }
    proof {
        assert(folder@ =~= stored@.subrange(from as int, to as int));
    }
    true
}

/// Whether the bytes of `stored` from `from` up to `to` are one of
/// `folders`.
fn has_folder(folders: &Vec<Vec<u8>>, stored: &[u8; 32], from: usize, to: usize) -> (r: bool)
    requires
        from <= to <= 32,
    ensures
        r == names_of(folders@).contains(stored@.subrange(from as int, to as int)),
{
    let ghost name = stored@.subrange(from as int, to as int);
    let mut i: usize = 0;
    while i < folders.len()
        invariant
            i <= folders.len(),
            from <= to <= 32,
            name == stored@.subrange(from as int, to as int),
            forall|j: int| 0 <= j < i ==> names_of(folders@)[j] != name,
        decreases folders.len() - i,
    {
        if same_name(&folders[i], stored, from, to) {
            proof {
                assert(names_of(folders@)[i as int] == name);
            }
            return true;
        }
        i += 1;
    }
    false
}

/// Lists the directory `root`: the files whose paths begin with `root` and
/// have no slash behind it join `files`, and the names of the folders
/// that the other paths under `root` begin with join `folders`, each once.
pub fn dir(root: &[u8], folders: &mut Vec<Vec<u8>>, files: &mut Vec<FileMetadata>, header: &Header)
    requires
        header.wf(),
    ensures
        (names_of(final(folders)@), final(files)@) == listing(
            header.entries(),
            root@,
            names_of(old(folders)@),
            old(files)@,
            MAX_FILES as int,
        ),
{
    let mut i: usize = 0;
    while i < MAX_FILES
        invariant
            i <= MAX_FILES,
            header.wf(),
            (names_of(folders@), files@) == listing(
                header.entries(),
                root@,
                names_of(old(folders)@),
                old(files)@,
                i as int,
            ),
        decreases MAX_FILES - i,
    {
        let entry = header.entries[i];
        let ghost before_folders = names_of(folders@);
        if begins_with(&entry.path, root) {
            let slash = slash_from(&entry.path, root.len());
            if slash >= MAX_PATH_LENGTH {
                files.push(entry);
            } else if !has_folder(folders, &entry.path, root.len(), slash) {
                let name = take_name(&entry.path, root.len(), slash);
                folders.push(name);
                proof {
                    assert(names_of(folders@) =~= before_folders.push(name@));
                }
            }
        }
        i += 1;
    }
}

impl File {
    /// The index of the entry the handle is on.
    pub fn index_of(&self) -> (r: usize)
        ensures
            r == self.index(),
    {
        self.index
    }
}

} // verus!
