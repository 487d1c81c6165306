//! The kernel heap: a first-fit allocator over one contiguous arena, with a
//! header in front of every block and a zero header marking the tail.

use vstd::prelude::*;
use crate::interrupts::InterruptState;
use crate::paging::{PageDirectory, PageFlags, Paging, PagingError, RW, USER};

verus! {

/// Bytes of a block header: one byte for the used flag, four for the
/// payload length, low byte first.
pub const HEADER_SIZE: usize = 5;

/// A block of the heap as its header describes it.
pub struct Block {
    /// Where the header begins, counted from the start of the arena.
    pub offset: int,
    /// Whether the block is handed out.
    pub used: bool,
    /// Bytes of payload behind the header.
    pub size: int,
}

/// The used flag of the header that begins at `off`.
#[verifier::opaque]
pub open spec fn used_at(mem: Seq<u8>, off: int) -> bool {
    mem[off] != 0
}

/// The payload length of the header that begins at `off`.
#[verifier::opaque]
pub open spec fn size_at(mem: Seq<u8>, off: int) -> int {
    mem[off + 1] + mem[off + 2] * 0x100 + mem[off + 3] * 0x10000 + mem[off + 4] * 0x1000000
}

/// Whether the five bytes from `off` on are zero: the header that marks the
/// tail.
pub open spec fn zero_header(mem: Seq<u8>, off: int) -> bool {
    forall|k: int| off <= k < off + HEADER_SIZE ==> mem[k] == 0
}

/// The four bytes of a payload length, low byte first, give the length
/// back.
pub proof fn lemma_size_bytes(size: int)
    requires
        0 <= size <= u32::MAX,
    ensures
        size == size % 0x100 + (size / 0x100 % 0x100) * 0x100 + (size / 0x10000 % 0x100) * 0x10000
            + (size / 0x1000000 % 0x100) * 0x1000000,
{
}

/// A header reads as its five bytes say.
pub proof fn lemma_header_reads(mem: Seq<u8>, off: int, flag: u8, b0: u8, b1: u8, b2: u8, b3: u8)
    requires
        mem[off] == flag,
        mem[off + 1] == b0,
        mem[off + 2] == b1,
        mem[off + 3] == b2,
        mem[off + 4] == b3,
    ensures
        used_at(mem, off) == (flag != 0),
        size_at(mem, off) == b0 + b1 * 0x100 + b2 * 0x10000 + b3 * 0x1000000,
        flag == 0 && b0 == 0 && b1 == 0 && b2 == 0 && b3 == 0 ==> zero_header(mem, off),
{
    reveal(used_at);
    reveal(size_at);
}

/// A header reads the same wherever its five bytes are the same.
pub proof fn lemma_header_kept(before: Seq<u8>, after: Seq<u8>, off: int)
    requires
        forall|k: int| off <= k < off + HEADER_SIZE ==> after[k] == before[k],
    ensures
        used_at(after, off) == used_at(before, off),
        size_at(after, off) == size_at(before, off),
{
    reveal(used_at);
    reveal(size_at);
    assert(after[off] == before[off]);
    assert(after[off + 1] == before[off + 1]);
    assert(after[off + 2] == before[off + 2]);
    assert(after[off + 3] == before[off + 3]);
    assert(after[off + 4] == before[off + 4]);
}

/// A zero header reads as free with no payload.
pub proof fn lemma_zero_header(mem: Seq<u8>, off: int)
    requires
        zero_header(mem, off),
    ensures
        !used_at(mem, off),
        size_at(mem, off) == 0,
{
    reveal(used_at);
    reveal(size_at);
    assert(mem[off] == 0);
    assert(mem[off + 1] == 0);
    assert(mem[off + 2] == 0);
    assert(mem[off + 3] == 0);
    assert(mem[off + 4] == 0);
}

/// Bytes to skip from `addr` to the next multiple of `align`.
pub open spec fn pad_for(addr: int, align: int) -> int {
    if addr % align == 0 {
        0
    } else {
        align - addr % align
    }
}

/// The bytes skipped from an address reach the next multiple of the
/// alignment.
pub proof fn lemma_pad_aligns(addr: int, align: int)
    requires
        0 <= addr,
        0 < align,
    ensures
        0 <= pad_for(addr, align) < align,
        (addr + pad_for(addr, align)) % align == 0,
{
    vstd::arithmetic::div_mod::lemma_fundamental_div_mod(addr, align);
    if addr % align != 0 {
        let q = addr / align;
        assert(addr + (align - addr % align) == (q + 1) * align) by (nonlinear_arith)
            requires
                addr == align * q + addr % align,
        ;
        vstd::arithmetic::div_mod::lemma_mod_multiples_basic(q + 1, align);
    }
}

/// Where the search for a block ended.
pub enum Outcome {
    /// The free blocks from `index` up to `end`, taken together, are large
    /// enough.
    Fit { index: int, end: int },
    /// The walk reached the tail: the block begins at block `index`, or at
    /// the tail itself, and a new tail follows it.
    Grow { index: int },
    /// The arena has no room.
    OutOfMemory,
}

/// The kernel heap. The arena is an owned run of bytes that stands at the
/// address `memory`; the blocks are what the headers in it describe.
pub struct Heap {
    memory: usize,
    arena: Vec<u8>,
    blocks: Ghost<Seq<Block>>,
}

/// Where the block after the last one would begin.
pub open spec fn tail_of(blocks: Seq<Block>) -> int {
    if blocks.len() == 0 {
        0
    } else {
        blocks.last().offset + HEADER_SIZE + blocks.last().size
    }
}

/// Where block `i` begins, the tail counting as the block behind the last.
pub open spec fn offset_at(blocks: Seq<Block>, i: int) -> int {
    if 0 <= i < blocks.len() {
        blocks[i].offset
    } else {
        tail_of(blocks)
    }
}

/// The blocks lie one behind the other from the start of the arena, each
/// with a payload of at least one byte.
pub open spec fn chained(blocks: Seq<Block>) -> bool {
    &&& blocks.len() > 0 ==> blocks[0].offset == 0
    &&& forall|i: int| 0 <= i < blocks.len() ==> (#[trigger] blocks[i]).size > 0
    &&& forall|i: int|
        0 <= i < blocks.len() - 1 ==> (#[trigger] blocks[i + 1]).offset == blocks[i].offset
            + HEADER_SIZE + blocks[i].size
}

/// In a chain no block begins before the arena does.
pub proof fn lemma_chain_start(blocks: Seq<Block>, i: int)
    requires
        chained(blocks),
        0 <= i < blocks.len(),
    ensures
        0 <= blocks[i].offset,
    decreases i,
{
    if i > 0 {
        lemma_chain_start(blocks, i - 1);
        assert(blocks[i - 1].size > 0);
        assert(blocks[(i - 1) + 1].offset == blocks[i - 1].offset + HEADER_SIZE + blocks[i
            - 1].size);
    }
}

/// In a chain, a block ends where a later one begins, or before, and all
/// end at the tail, or before.
pub proof fn lemma_chain_order(blocks: Seq<Block>, i: int, j: int)
    requires
        chained(blocks),
        0 <= i < j <= blocks.len(),
    ensures
        0 <= blocks[i].offset,
        blocks[i].offset + HEADER_SIZE + blocks[i].size <= offset_at(blocks, j),
    decreases j - i,
{
    lemma_chain_start(blocks, i);
    if j > i + 1 {
        lemma_chain_order(blocks, i, j - 1);
        assert(blocks[j - 1].size > 0);
        if j < blocks.len() {
            assert(blocks[(j - 1) + 1].offset == blocks[j - 1].offset + HEADER_SIZE + blocks[j
                - 1].size);
        }
    } else {
        if j < blocks.len() {
            assert(blocks[i + 1].offset == blocks[i].offset + HEADER_SIZE + blocks[i].size);
        }
    }
}

impl View for Heap {
    type V = Seq<Block>;

    closed spec fn view(&self) -> Seq<Block> {
        self.blocks@
    }
}

impl Heap {
    /// The address of the arena's first byte.
    pub closed spec fn base(&self) -> int {
        self.memory as int
    }

    /// Bytes in the arena.
    pub closed spec fn capacity(&self) -> int {
        self.arena.len() as int
    }

    /// The bytes of the arena.
    pub closed spec fn bytes(&self) -> Seq<u8> {
        self.arena@
    }

    /// The headers in the arena describe the blocks, one behind the other,
    /// and a zero header follows the last.
    pub closed spec fn wf(&self) -> bool {
        &&& self.arena.len() <= u32::MAX
        &&& self.memory + self.arena.len() <= usize::MAX
        &&& chained(self.blocks@)
        &&& tail_of(self.blocks@) + HEADER_SIZE <= self.arena.len()
        &&& forall|i: int|
            0 <= i < self.blocks@.len() ==> used_at(self.arena@, (#[trigger] self.blocks@[i]).offset)
                == self.blocks@[i].used && size_at(self.arena@, self.blocks@[i].offset)
                == self.blocks@[i].size
        &&& zero_header(self.arena@, tail_of(self.blocks@))
    }

    /// Reads the header that begins at `off`.
    fn read_header(&self, off: usize) -> (r: (bool, usize))
        requires
            off + HEADER_SIZE <= self.arena.len(),
        ensures
            r.0 == used_at(self.arena@, off as int),
            r.1 == size_at(self.arena@, off as int),
    {
        proof {
            reveal(used_at);
            reveal(size_at);
        }
        let used = self.arena[off] != 0;
        let b0 = self.arena[off + 1] as u64;
        let b1 = self.arena[off + 2] as u64;
        let b2 = self.arena[off + 3] as u64;
        let b3 = self.arena[off + 4] as u64;
        let size = b0 + b1 * 0x100 + b2 * 0x10000 + b3 * 0x1000000;
        (used, size as usize)
    }

    /// Writes a header at `off` and touches no other byte.
    fn write_header(&mut self, off: usize, used: bool, size: usize)
        requires
            off + HEADER_SIZE <= old(self).arena.len(),
            size <= u32::MAX,
        ensures
            final(self).arena.len() == old(self).arena.len(),
            final(self).memory == old(self).memory,
            final(self).blocks == old(self).blocks,
            used_at(final(self).arena@, off as int) == used,
            size_at(final(self).arena@, off as int) == size,
            used || size != 0 || zero_header(final(self).arena@, off as int),
            forall|k: int|
                0 <= k < old(self).arena.len() && !(off <= k < off + HEADER_SIZE)
                    ==> final(self).arena@[k] == old(self).arena@[k],
    {
        let flag: u8 = if used {
            1
        } else {
            0
        };
        let b0 = (size % 0x100) as u8;
        let b1 = (size / 0x100 % 0x100) as u8;
        let b2 = (size / 0x10000 % 0x100) as u8;
        let b3 = (size / 0x1000000 % 0x100) as u8;
        self.arena[off] = flag;
        self.arena[off + 1] = b0;
        self.arena[off + 2] = b1;
        self.arena[off + 3] = b2;
        self.arena[off + 4] = b3;
        proof {
            lemma_size_bytes(size as int);
            lemma_header_reads(self.arena@, off as int, flag, b0, b1, b2, b3);
        }
    }
}

/// Bytes a request takes in a block that begins at `off`: the size asked
/// for and the bytes skipped to align the address handed out.
pub open spec fn need_at(base: int, off: int, size: int, align: int) -> int {
    size + pad_for(base + off + HEADER_SIZE, align)
}

/// Bytes of payload that the blocks from `i` up to `m`, taken together,
/// hold behind the first header.
pub open spec fn span(blocks: Seq<Block>, i: int, m: int) -> int {
    offset_at(blocks, m) - offset_at(blocks, i) - HEADER_SIZE
}

/// The first-fit search, from block `j` on, with the run of free blocks
/// that began at block `root` still open (`root == j` when none is).
///
/// At the tail the request is placed at the start of the open run, or at
/// the tail itself, if the block and a new tail header fit in the arena. A
/// used block closes the run and the search goes on behind it. A free block
/// joins the run, and the run is taken once it is large enough.
pub open spec fn search(
    blocks: Seq<Block>,
    base: int,
    capacity: int,
    size: int,
    align: int,
    root: int,
    j: int,
) -> Outcome
    decreases blocks.len() - j,
{
    if j >= blocks.len() {
        let start = offset_at(blocks, root);
        if start + HEADER_SIZE + need_at(base, start, size, align) + HEADER_SIZE <= capacity {
            Outcome::Grow { index: root }
        } else {
            Outcome::OutOfMemory
        }
    } else if blocks[j].used {
        search(blocks, base, capacity, size, align, j + 1, j + 1)
    } else if span(blocks, root, j + 1) >= need_at(base, offset_at(blocks, root), size, align) {
        Outcome::Fit { index: root, end: j + 1 }
    } else {
        search(blocks, base, capacity, size, align, root, j + 1)
    }
}

/// The blocks after a request has been placed as `outcome` says. A run
/// that is taken is split when more than a header's worth of bytes would be
/// left over, and the rest becomes a free block; otherwise the whole run is
/// handed out.
pub open spec fn placed(blocks: Seq<Block>, base: int, size: int, align: int, outcome: Outcome) -> Seq<
    Block,
> {
    match outcome {
        Outcome::OutOfMemory => blocks,
        Outcome::Grow { index } => {
            let start = offset_at(blocks, index);
            blocks.subrange(0, index).push(
                Block { offset: start, used: true, size: need_at(base, start, size, align) },
            )
        },
        Outcome::Fit { index, end } => {
            let start = offset_at(blocks, index);
            let need = need_at(base, start, size, align);
            let room = span(blocks, index, end);
            if room - need > HEADER_SIZE {
                blocks.subrange(0, index).push(Block { offset: start, used: true, size: need }).push(
                    Block {
                        offset: start + HEADER_SIZE + need,
                        used: false,
                        size: room - need - HEADER_SIZE,
                    },
                ) + blocks.subrange(end, blocks.len() as int)
            } else {
                blocks.subrange(0, index).push(Block { offset: start, used: true, size: room })
                    + blocks.subrange(end, blocks.len() as int)
            }
        },
    }
}

/// The address handed out for a request placed as `outcome` says: behind
/// the header of the block, at the next multiple of `align`.
pub open spec fn address_of(blocks: Seq<Block>, base: int, align: int, outcome: Outcome) -> Option<
    int,
> {
    match outcome {
        Outcome::OutOfMemory => None,
        Outcome::Grow { index } => Some(
            base + offset_at(blocks, index) + HEADER_SIZE + pad_for(
                base + offset_at(blocks, index) + HEADER_SIZE,
                align,
            ),
        ),
        Outcome::Fit { index, end } => Some(
            base + offset_at(blocks, index) + HEADER_SIZE + pad_for(
                base + offset_at(blocks, index) + HEADER_SIZE,
                align,
            ),
        ),
    }
}

impl Heap {
    /// Where the search for `size` bytes at a multiple of `align` ends.
    pub open spec fn outcome(&self, size: int, align: int) -> Outcome {
        search(self@, self.base(), self.capacity(), size, align, 0, 0)
    }

    /// A heap over `size` zero bytes that stand at the address `memory`,
    /// with no block yet.
    pub fn new(memory: usize, size: usize) -> (r: Heap)
        requires
            HEADER_SIZE <= size <= u32::MAX,
            memory + size <= usize::MAX,
        ensures
            r.wf(),
            r.base() == memory,
            r.capacity() == size,
            r@ == Seq::<Block>::empty(),
    {
        let mut arena: Vec<u8> = Vec::new();
        let mut i: usize = 0;
        while i < size
            invariant
                i <= size,
                arena.len() == i,
                forall|k: int| 0 <= k < i ==> arena[k] == 0,
            decreases size - i,
        {
            arena.push(0);
            i += 1;
        }
        Heap { memory, arena, blocks: Ghost(Seq::empty()) }
    }

    /// The address of the arena's first byte.
    pub fn memory(&self) -> (r: usize)
        ensures
            r == self.base(),
    {
        self.memory
    }

    /// Bytes in the arena.
    pub fn size(&self) -> (r: usize)
        ensures
            r == self.capacity(),
    {
        self.arena.len()
    }

    /// Bytes to skip behind the header at `off` to reach a multiple of
    /// `align`.
    fn pad(&self, off: usize, align: usize) -> (r: usize)
        requires
            self.memory + off + HEADER_SIZE <= usize::MAX,
            align > 0,
        ensures
            r == pad_for(self.memory + off + HEADER_SIZE, align as int),
            r < align,
            (self.memory + off + HEADER_SIZE + r) % (align as int) == 0,
    {
        let addr = self.memory + off + HEADER_SIZE;
        proof {
            lemma_pad_aligns(addr as int, align as int);
        }
        if addr % align == 0 {
            0
        } else {
            align - addr % align
        }
    }

    /// Writes the block that a request placed at the tail takes, and the
    /// new tail header behind it. The block begins at block `root`, or at
    /// the tail itself.
    fn place_at_tail(&mut self, start: usize, need: usize, Ghost(root): Ghost<int>)
        requires
            old(self).wf(),
            0 <= root <= old(self)@.len(),
            start == offset_at(old(self)@, root),
            need > 0,
            start + HEADER_SIZE + need + HEADER_SIZE <= old(self).capacity(),
        ensures
            final(self).wf(),
            final(self).base() == old(self).base(),
            final(self).capacity() == old(self).capacity(),
            final(self)@ == old(self)@.subrange(0, root).push(
                Block { offset: start as int, used: true, size: need as int },
            ),
    {
        let ghost bs = self.blocks@;
        let ghost mem = self.arena@;
        self.write_header(start, true, need);
        let ghost mid = self.arena@;
        self.write_header(start + HEADER_SIZE + need, false, 0);
        proof {
            let block = Block { offset: start as int, used: true, size: need as int };
            let after = bs.subrange(0, root).push(block);
            self.blocks = Ghost(after);
            lemma_prefix_chained(bs, root, block);
            assert(after.last() == block);
            lemma_header_kept(mid, self.arena@, start as int);
            assert forall|i: int| 0 <= i < after.len() implies used_at(
                self.arena@,
                (#[trigger] after[i]).offset,
            ) == after[i].used && size_at(self.arena@, after[i].offset) == after[i].size by {
                if i < root {
                    assert(after[i] == bs[i]);
                    lemma_chain_order(bs, i, root);
                    lemma_header_kept(mem, self.arena@, bs[i].offset);
                }
            }
        }
    }

    /// Writes the header of a block that takes the whole run of blocks
    /// from `root` up to `end`.
    fn take_whole(&mut self, start: usize, room: usize, Ghost(root): Ghost<int>, Ghost(end): Ghost<int>)
        requires
            old(self).wf(),
            0 <= root < end <= old(self)@.len(),
            start == offset_at(old(self)@, root),
            room == span(old(self)@, root, end),
        ensures
            final(self).wf(),
            final(self).base() == old(self).base(),
            final(self).capacity() == old(self).capacity(),
            final(self)@ == old(self)@.subrange(0, root).push(
                Block { offset: start as int, used: true, size: room as int },
            ) + old(self)@.subrange(end, old(self)@.len() as int),
    {
        let ghost bs = self.blocks@;
        let ghost mem = self.arena@;
        proof {
            lemma_chain_order(bs, root, end);
            if end < bs.len() {
                lemma_chain_order(bs, end, bs.len() as int);
            }
        }
        self.write_header(start, true, room);
        proof {
            let first = Block { offset: start as int, used: true, size: room as int };
            let front = bs.subrange(0, root).push(first);
            let after = front + bs.subrange(end, bs.len() as int);
            self.blocks = Ghost(after);
            lemma_prefix_chained(bs, root, first);
            assert(front.last() == first);
            lemma_suffix_chained(front, bs, end);
            assert forall|i: int| 0 <= i < after.len() implies used_at(
                self.arena@,
                (#[trigger] after[i]).offset,
            ) == after[i].used && size_at(self.arena@, after[i].offset) == after[i].size by {
                if i < root {
                    assert(after[i] == bs[i]);
                    lemma_chain_order(bs, i, root);
                    lemma_header_kept(mem, self.arena@, bs[i].offset);
                } else if i >= root + 1 {
                    let k = i - (root + 1) + end;
                    assert(after[i] == bs[k]);
                    if k > end {
                        lemma_chain_order(bs, end, k);
                    }
                    lemma_chain_order(bs, k, bs.len() as int);
                    lemma_header_kept(mem, self.arena@, bs[k].offset);
                } else {
                    assert(after[i] == first);
                }
            }
            assert(zero_header(self.arena@, tail_of(after)));
        }
    }

    /// Writes the header of a block of `need` bytes at the start of the run
    /// of blocks from `root` up to `end`, and behind it the header of a free
    /// block that takes the rest of the run.
    fn take_split(
        &mut self,
        start: usize,
        need: usize,
        room: usize,
        Ghost(root): Ghost<int>,
        Ghost(end): Ghost<int>,
    )
        requires
            old(self).wf(),
            0 <= root < end <= old(self)@.len(),
            start == offset_at(old(self)@, root),
            room == span(old(self)@, root, end),
            0 < need,
            need + HEADER_SIZE < room,
        ensures
            final(self).wf(),
            final(self).base() == old(self).base(),
            final(self).capacity() == old(self).capacity(),
            final(self)@ == old(self)@.subrange(0, root).push(
                Block { offset: start as int, used: true, size: need as int },
            ).push(
                Block {
                    offset: start + HEADER_SIZE + need,
                    used: false,
                    size: room - need - HEADER_SIZE,
                },
            ) + old(self)@.subrange(end, old(self)@.len() as int),
    {
        let ghost bs = self.blocks@;
        let ghost mem = self.arena@;
        proof {
            lemma_chain_order(bs, root, end);
            if end < bs.len() {
                lemma_chain_order(bs, end, bs.len() as int);
            }
        }
        self.write_header(start, true, need);
        let ghost mid = self.arena@;
        self.write_header(start + HEADER_SIZE + need, false, room - need - HEADER_SIZE);
        proof {
            let first = Block { offset: start as int, used: true, size: need as int };
            let rest = Block {
                offset: start + HEADER_SIZE + need,
                used: false,
                size: room - need - HEADER_SIZE,
            };
            let front = bs.subrange(0, root).push(first);
            let after = front.push(rest) + bs.subrange(end, bs.len() as int);
            self.blocks = Ghost(after);
            lemma_prefix_chained(bs, root, first);
            assert(front.last() == first);
            assert(front.subrange(0, root + 1) =~= front);
            lemma_prefix_chained(front, root + 1, rest);
            assert(front.push(rest).last() == rest);
            lemma_suffix_chained(front.push(rest), bs, end);
            lemma_header_kept(mid, self.arena@, start as int);
            assert forall|i: int| 0 <= i < after.len() implies used_at(
                self.arena@,
                (#[trigger] after[i]).offset,
            ) == after[i].used && size_at(self.arena@, after[i].offset) == after[i].size by {
                if i < root {
                    assert(after[i] == bs[i]);
                    lemma_chain_order(bs, i, root);
                    lemma_header_kept(mem, self.arena@, bs[i].offset);
                } else if i >= root + 2 {
                    let k = i - (root + 2) + end;
                    assert(after[i] == bs[k]);
                    if k > end {
                        lemma_chain_order(bs, end, k);
                    }
                    lemma_chain_order(bs, k, bs.len() as int);
                    lemma_header_kept(mem, self.arena@, bs[k].offset);
                } else if i == root {
                    assert(after[i] == first);
                } else {
                    assert(after[i] == rest);
                }
            }
            assert(zero_header(self.arena@, tail_of(after)));
        }
    }

    /// Writes the block that a request takes out of the run of blocks from
    /// `root` up to `end`: the whole run, or a part with the rest split off
    /// where more than a header's worth of bytes is left over.
    fn take_run(
        &mut self,
        start: usize,
        need: usize,
        room: usize,
        Ghost(root): Ghost<int>,
        Ghost(end): Ghost<int>,
    )
        requires
            old(self).wf(),
            0 <= root < end <= old(self)@.len(),
            start == offset_at(old(self)@, root),
            room == span(old(self)@, root, end),
            0 < need <= room,
        ensures
            final(self).wf(),
            final(self).base() == old(self).base(),
            final(self).capacity() == old(self).capacity(),
            final(self)@ == if room - need > HEADER_SIZE {
                old(self)@.subrange(0, root).push(
                    Block { offset: start as int, used: true, size: need as int },
                ).push(
                    Block {
                        offset: start + HEADER_SIZE + need,
                        used: false,
                        size: room - need - HEADER_SIZE,
                    },
                ) + old(self)@.subrange(end, old(self)@.len() as int)
            } else {
                old(self)@.subrange(0, root).push(
                    Block { offset: start as int, used: true, size: room as int },
                ) + old(self)@.subrange(end, old(self)@.len() as int)
            },
    {
        if room - need > HEADER_SIZE {
            self.take_split(start, need, room, Ghost(root), Ghost(end));
        } else {
            self.take_whole(start, room, Ghost(root), Ghost(end));
        }
    }

    /// Hands out `size` bytes at a multiple of `align`, or `None` when the
    /// arena has no room for them.
    ///
    /// The blocks are walked from the start of the arena. Used blocks are
    /// passed over. A free block that is too small is joined with the free
    /// blocks behind it until the run is large enough or a used block ends
    /// it; a run that reaches the tail is placed there if the arena has
    /// room behind it. A run that is taken is split when more than a
    /// header's worth of bytes would be left. Interrupts are off for the
    /// time of the walk and on after it.
    pub fn alloc_internal(&mut self, state: &mut InterruptState, size: usize, align: usize) -> (r:
        Option<usize>)
        requires
            old(self).wf(),
            size > 0,
            align > 0,
        ensures
            final(state).enabled,
            final(self).wf(),
            final(self).base() == old(self).base(),
            final(self).capacity() == old(self).capacity(),
            final(self)@ == placed(
                old(self)@,
                old(self).base(),
                size as int,
                align as int,
                old(self).outcome(size as int, align as int),
            ),
            match address_of(
                old(self)@,
                old(self).base(),
                align as int,
                old(self).outcome(size as int, align as int),
            ) {
                Some(addr) => r == Some(addr as usize) && 0 <= addr <= usize::MAX,
                None => r is None,
            },
            r matches Some(addr) ==> old(self).base() + HEADER_SIZE <= addr && addr + size
                + HEADER_SIZE <= old(self).base() + old(self).capacity() && addr % align
                == 0,
    {
        crate::interrupts::disable(state);
        let len = self.arena.len();
        let ghost bs = self.blocks@;
        let ghost base = self.memory as int;
        let mut p: usize = 0;
        let mut start: usize = 0;
        let ghost mut j: int = 0;
        let ghost mut root: int = 0;
        proof {
            if bs.len() > 0 {
                lemma_chain_order(bs, 0, bs.len() as int);
            }
        }
        loop
            invariant
                *self == *old(self),
                self.wf(),
                bs == self.blocks@,
                base == self.memory,
                len == self.arena.len(),
                size > 0,
                align > 0,
                0 <= root <= j <= bs.len(),
                p == offset_at(bs, j),
                start == offset_at(bs, root),
                start <= p,
                p + HEADER_SIZE <= len,
                search(bs, base, len as int, size as int, align as int, root, j) == search(
                    bs,
                    base,
                    len as int,
                    size as int,
                    align as int,
                    0,
                    0,
                ),
            decreases bs.len() - j,
        {
            let (used, sz) = self.read_header(p);
            let pad = self.pad(start, align);
            proof {
                if j < bs.len() {
                    assert(bs[j].size > 0);
                    lemma_chain_order(bs, j, j + 1);
                    lemma_chain_order(bs, j, bs.len() as int);
                } else {
                    lemma_zero_header(self.arena@, p as int);
                }
            }
            if !used && sz == 0 {
                crate::interrupts::enable(state);
                if len - start < 2 * HEADER_SIZE || size > len - start - 2 * HEADER_SIZE || pad > len
                    - start - 2 * HEADER_SIZE - size {
                    return None;
                }
                self.place_at_tail(start, size + pad, Ghost(root));
                return Some(self.memory + start + HEADER_SIZE + pad);
            }
            if used {
                p = p + HEADER_SIZE + sz;
                start = p;
                proof {
                    j = j + 1;
                    root = j;
                }
                continue ;
            }
            let room = p + sz - start;
            if size <= room && pad <= room - size {
                crate::interrupts::enable(state);
                self.take_run(start, size + pad, room, Ghost(root), Ghost(j + 1));
                return Some(self.memory + start + HEADER_SIZE + pad);
            }
            p = p + HEADER_SIZE + sz;
            proof {
                j = j + 1;
            }
        }
    }
}

/// The blocks before `root` of a chain, with a block pushed behind them
/// that begins where block `root` began, are a chain again.
pub proof fn lemma_prefix_chained(blocks: Seq<Block>, root: int, block: Block)
    requires
        chained(blocks),
        0 <= root <= blocks.len(),
        block.offset == offset_at(blocks, root),
        block.size > 0,
    ensures
        chained(blocks.subrange(0, root).push(block)),
{
    let after = blocks.subrange(0, root).push(block);
    assert forall|i: int| 0 <= i < after.len() implies (#[trigger] after[i]).size > 0 by {
        if i < root {
            assert(after[i] == blocks[i]);
        }
    }
    assert forall|i: int| 0 <= i < after.len() - 1 implies (#[trigger] after[i + 1]).offset
        == after[i].offset + HEADER_SIZE + after[i].size by {
        assert(after[i] == blocks[i]);
        assert(blocks[i + 1].offset == blocks[i].offset + HEADER_SIZE + blocks[i].size || i + 1
            == blocks.len());
        if i + 1 < root {
            assert(after[i + 1] == blocks[i + 1]);
        }
    }
    if root > 0 {
        assert(after[0] == blocks[0]);
    }
}

/// A chain `front` that ends where block `end` of the chain `blocks`
/// begins, followed by the blocks of `blocks` from `end` on, is a chain
/// with the tail of `blocks`.
pub proof fn lemma_suffix_chained(front: Seq<Block>, blocks: Seq<Block>, end: int)
    requires
        chained(front),
        chained(blocks),
        front.len() > 0,
        0 <= end <= blocks.len(),
        tail_of(front) == offset_at(blocks, end),
    ensures
        chained(front + blocks.subrange(end, blocks.len() as int)),
        tail_of(front + blocks.subrange(end, blocks.len() as int)) == tail_of(blocks),
{
    let back = blocks.subrange(end, blocks.len() as int);
    let after = front + back;
    assert forall|i: int| 0 <= i < after.len() implies (#[trigger] after[i]).size > 0 by {
        if i < front.len() {
            assert(after[i] == front[i]);
        } else {
            assert(after[i] == blocks[i - front.len() + end]);
        }
    }
    assert forall|i: int| 0 <= i < after.len() - 1 implies (#[trigger] after[i + 1]).offset
        == after[i].offset + HEADER_SIZE + after[i].size by {
        if i + 1 < front.len() {
            assert(after[i] == front[i] && after[i + 1] == front[i + 1]);
            assert(front[i + 1].offset == front[i].offset + HEADER_SIZE + front[i].size);
        } else if i + 1 == front.len() {
            assert(after[i] == front.last());
            assert(after[i + 1] == blocks[end]);
        } else {
            let k = i - front.len() + end;
            assert(after[i] == blocks[k] && after[i + 1] == blocks[k + 1]);
            assert(blocks[k + 1].offset == blocks[k].offset + HEADER_SIZE + blocks[k].size);
        }
    }
    assert(after[0] == front[0]);
    if end < blocks.len() {
        assert(after.last() == blocks.last());
    } else {
        assert(after =~= front);
    }
}

/// Whether the address `ptr` lies in the payload of `block`.
pub open spec fn holds(block: Block, base: int, ptr: int) -> bool {
    base + block.offset + HEADER_SIZE <= ptr < base + block.offset + HEADER_SIZE + block.size
}

/// The blocks after the one that holds `ptr`, if there is one, has been
/// marked free.
pub open spec fn freed(blocks: Seq<Block>, base: int, ptr: int) -> Seq<Block> {
    Seq::new(
        blocks.len(),
        |i: int|
            if holds(blocks[i], base, ptr) {
                Block { used: false, ..blocks[i] }
            } else {
                blocks[i]
            },
    )
}

impl Heap {
    /// Clears the used flag of the header at `off` and touches nothing else.
    fn clear_used(&mut self, off: usize)
        requires
            off + HEADER_SIZE <= old(self).arena.len(),
        ensures
            final(self).arena.len() == old(self).arena.len(),
            final(self).memory == old(self).memory,
            final(self).blocks == old(self).blocks,
            !used_at(final(self).arena@, off as int),
            size_at(final(self).arena@, off as int) == size_at(old(self).arena@, off as int),
            forall|k: int|
                0 <= k < old(self).arena.len() && k != off ==> final(self).arena@[k] == old(self).arena@[k],
    {
        proof {
            reveal(used_at);
            reveal(size_at);
        }
        self.arena[off] = 0;
    }

    /// Gives back the block whose payload holds the address `ptr`: the used
    /// flag of the header in front of it is cleared. Blocks are not joined
    /// here; `alloc_internal` joins free blocks when it needs to. An address
    /// that lies in no block changes nothing. Interrupts are off for the
    /// time of the walk and on after it.
    pub fn dealloc_internal(&mut self, state: &mut InterruptState, ptr: usize)
        requires
            old(self).wf(),
        ensures
            final(state).enabled,
            final(self).wf(),
            final(self).base() == old(self).base(),
            final(self).capacity() == old(self).capacity(),
            final(self)@ == freed(old(self)@, old(self).base(), ptr as int),
    {
        crate::interrupts::disable(state);
        let ghost bs = self.blocks@;
        let ghost mem = self.arena@;
        let mut p: usize = 0;
        let ghost mut j: int = 0;
        proof {
            if bs.len() > 0 {
                lemma_chain_order(bs, 0, bs.len() as int);
            }
        }
        loop
            invariant
                *self == *old(self),
                self.wf(),
                bs == self.blocks@,
                mem == self.arena@,
                0 <= j <= bs.len(),
                p == offset_at(bs, j),
                p + HEADER_SIZE <= self.arena.len(),
                forall|i: int| 0 <= i < j ==> !holds(#[trigger] bs[i], self.memory as int, ptr as int),
            decreases bs.len() - j,
        {
            let (used, sz) = self.read_header(p);
            proof {
                if j < bs.len() {
                    assert(bs[j].size > 0);
                    lemma_chain_order(bs, j, j + 1);
                    lemma_chain_order(bs, j, bs.len() as int);
                } else {
                    lemma_zero_header(self.arena@, p as int);
                }
            }
            if !used && sz == 0 {
                proof {
                    assert(bs =~= freed(bs, self.memory as int, ptr as int));
                }
                crate::interrupts::enable(state);
                return ;
            }
            let payload = self.memory + p + HEADER_SIZE;
            if payload <= ptr && ptr - payload < sz {
                crate::interrupts::enable(state);
                self.clear_used(p);
                proof {
                    let after = bs.update(j, Block { used: false, ..bs[j] });
                    self.blocks = Ghost(after);
                    assert forall|i: int| 0 <= i < bs.len() && i != j implies !holds(
                        #[trigger] bs[i],
                        self.memory as int,
                        ptr as int,
                    ) by {
                        if i > j {
                            lemma_chain_order(bs, j, i);
                        }
                    }
                    assert(after =~= freed(bs, self.memory as int, ptr as int));
                    assert(tail_of(after) == tail_of(bs));
                    assert forall|i: int| 0 <= i < after.len() implies used_at(
                        self.arena@,
                        (#[trigger] after[i]).offset,
                    ) == after[i].used && size_at(self.arena@, after[i].offset)
                        == after[i].size by {
                        if i != j {
                            assert(after[i] == bs[i]);
                            if i < j {
                                lemma_chain_order(bs, i, j);
                            } else {
                                lemma_chain_order(bs, j, i);
                            }
                            lemma_chain_order(bs, i, bs.len() as int);
                            lemma_header_kept(mem, self.arena@, bs[i].offset);
                        }
                    }
                    assert forall|i: int| 0 <= i < after.len() - 1 implies (#[trigger] after[i
                        + 1]).offset == after[i].offset + HEADER_SIZE + after[i].size by {
                        assert(bs[i + 1].offset == bs[i].offset + HEADER_SIZE + bs[i].size);
                    }
                    assert forall|i: int| 0 <= i < after.len() implies (#[trigger] after[i]).size
                        > 0 by {
                        assert(bs[i].size > 0);
                    }
                }
                return ;
            }
            p = p + HEADER_SIZE + sz;
            proof {
                j = j + 1;
            }
        }
    }
}

/// Why the heap could not be set up.
#[derive(Clone, Copy, Debug, PartialEq, Eq, Structural)]
pub enum HeapError {
    /// The bytes offered do not reach past the start of the heap, or they
    /// reach past the top of the address space.
    BadExtent,
    /// A page of the heap could not be mapped.
    Mapping(PagingError),
}

/// Bytes the heap spans when `size` bytes are on offer above
/// `ARENA_START` and the heap begins at `space_start`.
pub open spec fn heap_extent(space_start: u32, size: u32) -> int {
    size - (space_start - crate::paging::ARENA_START)
}

/// Whether a heap can begin at `space_start` with `size` bytes on offer.
pub open spec fn extent_ok(space_start: u32, size: u32) -> bool {
    &&& space_start >= crate::paging::ARENA_START
    &&& heap_extent(space_start, size) >= HEADER_SIZE
    &&& space_start + heap_extent(space_start, size) <= u32::MAX
}

/// Pages that the heap takes when `size` bytes are on offer above
/// `ARENA_START` and the heap begins at `space_start`.
pub open spec fn heap_pages(space_start: u32, size: u32) -> int {
    crate::paging::pages_between(
        space_start,
        (space_start + heap_extent(space_start, size)) as u32,
    )
}

/// The flags of the heap's pages: writable, and open to ring 3.
pub open spec fn heap_flags() -> PageFlags {
    PageFlags { bits: RW | USER }
}

/// Sets the heap up at `space_start`: its bytes are mapped onto themselves
/// in `dir`, writable and open to ring 3, the arena is all zero, and the
/// heap is marked live in `paging`. Of the `size` bytes on offer above
/// `ARENA_START`, those below `space_start` are not the heap's.
pub fn init(dir: &mut PageDirectory, paging: &mut Paging, space_start: u32, size: u32) -> (r: Result<
    Heap,
    HeapError,
>)
    requires
        old(dir).wf(),
        old(paging).wf(),
    ensures
        final(dir).wf(),
        final(paging).wf(),
        final(dir).base() == old(dir).base(),
        r == Err::<Heap, HeapError>(HeapError::BadExtent) <==> !extent_ok(space_start, size),
        r == Err::<Heap, HeapError>(HeapError::BadExtent) ==> *final(dir) == *old(dir) && *final(paging) == *old(paging),
        r matches Err(HeapError::Mapping(e)) ==> {
            &&& PageDirectory::shared_kept(final(paging), old(paging))
            &&& final(dir).run_stopped(
                old(dir),
                final(paging),
                old(paging),
                (space_start / 4096) as int,
                (space_start / 4096) as int,
                crate::paging::pages_between(
                    space_start,
                    (space_start + heap_extent(space_start, size)) as u32,
                ),
                heap_flags(),
                Err(e),
            )
        },
        r matches Err(HeapError::Mapping(e)) ==> crate::paging::run_step(
            old(dir).space(old(paging)),
            old(paging).supply(),
            (space_start / 4096) as int,
            (space_start / 4096) as int,
            heap_pages(space_start, size),
        ) == Err::<crate::paging::Space, PagingError>(e),
        r is Ok ==> crate::paging::run_step(
            old(dir).space(old(paging)),
            old(paging).supply(),
            (space_start / 4096) as int,
            (space_start / 4096) as int,
            heap_pages(space_start, size),
        ) == Ok::<crate::paging::Space, PagingError>(final(dir).space(final(paging))),
        r matches Ok(heap) ==> {
            &&& heap.wf()
            &&& heap.base() == space_start
            &&& heap.capacity() == heap_extent(space_start, size)
            &&& heap@ == Seq::<Block>::empty()
            &&& final(paging).heap_ready
            &&& final(paging).current == old(paging).current
            &&& final(paging).enabled == old(paging).enabled
            &&& final(paging).frames.reserved() == old(paging).frames.reserved()
            &&& final(paging).arena.limit() == old(paging).arena.limit()
            &&& exists|mid: Paging|
                {
                    &&& #[trigger] final(dir).run_state(
                        old(dir),
                        &mid,
                        old(paging),
                        (space_start / 4096) as int,
                        (space_start / 4096) as int,
                        crate::paging::pages_between(
                            space_start,
                            (space_start + heap_extent(space_start, size)) as u32,
                        ),
                        heap_flags(),
                    )
                    &&& final(paging).frames == mid.frames
                    &&& final(paging).arena == mid.arena
                    &&& final(paging).invalidated == mid.invalidated
                }
        },
{
    if space_start < crate::paging::ARENA_START {
        return Err(HeapError::BadExtent);
    }
    let below = space_start - crate::paging::ARENA_START;
    if size < below || size - below < HEADER_SIZE as u32 || size - below > u32::MAX - space_start {
        return Err(HeapError::BadExtent);
    }
    let actual_size = size - below;
    let flags = PageFlags::from_bits_retain(RW | USER);
    match dir.identity_map(paging, space_start, space_start + actual_size, flags) {
        Err(e) => {
            return Err(HeapError::Mapping(e));
        },
        Ok(()) => {},
    }
    let ghost mid = *paging;
    let heap = Heap::new(space_start as usize, actual_size as usize);
    paging.heap_ready = true;
    proof {
        assert(flags == heap_flags());
        assert(dir.run_state(
            old(dir),
            &mid,
            old(paging),
            (space_start / 4096) as int,
            (space_start / 4096) as int,
            crate::paging::pages_between(
                space_start,
                (space_start + heap_extent(space_start, size)) as u32,
            ),
            heap_flags(),
        ));
    }
    Ok(heap)
}

/// Whether the heap is live.
pub fn has_init(paging: &Paging) -> (r: bool)
    ensures
        r == paging.heap_ready,
{
    paging.heap_ready
}

/// Whatever a search finds has room in the arena: the block it places
/// ends inside the arena, on the size asked for at the least.
pub proof fn lemma_search_needs_room(
    blocks: Seq<Block>,
    base: int,
    capacity: int,
    size: int,
    align: int,
    root: int,
    j: int,
)
    requires
        chained(blocks),
        tail_of(blocks) + HEADER_SIZE <= capacity,
        0 <= root <= j <= blocks.len(),
        size > 0,
        align > 0,
    ensures
        search(blocks, base, capacity, size, align, root, j) != Outcome::OutOfMemory ==> size
            + 2 * HEADER_SIZE <= capacity,
    decreases blocks.len() - j,
{
    if blocks.len() > 0 {
        lemma_chain_order(blocks, 0, blocks.len() as int);
    }
    if root < blocks.len() {
        lemma_chain_order(blocks, root, blocks.len() as int);
    }
    if j >= blocks.len() {
    } else if blocks[j].used {
        lemma_search_needs_room(blocks, base, capacity, size, align, j + 1, j + 1);
    } else if span(blocks, root, j + 1) >= need_at(base, offset_at(blocks, root), size, align) {
        if j + 1 < blocks.len() {
            lemma_chain_order(blocks, j + 1, blocks.len() as int);
        }
    } else {
        lemma_search_needs_room(blocks, base, capacity, size, align, root, j + 1);
    }
}

impl Heap {
    /// The arena of a heap is no longer than 32 bits can count, and its
    /// blocks lie inside it.
    pub proof fn lemma_capacity(&self)
        requires
            self.wf(),
        ensures
            self.capacity() <= u32::MAX,
            chained(self@),
            tail_of(self@) + HEADER_SIZE <= self.capacity(),
    {
    }
}

/// The block index at which a search placed its request.
pub open spec fn placed_at(outcome: Outcome) -> int {
    match outcome {
        Outcome::Fit { index, end } => index,
        Outcome::Grow { index } => index,
        Outcome::OutOfMemory => -1,
    }
}

/// What a search that found room says of the place: it begins at the open
/// run or behind the cursor, and the blocks it takes are large enough.
pub proof fn lemma_search_shape(
    blocks: Seq<Block>,
    base: int,
    capacity: int,
    size: int,
    align: int,
    root: int,
    j: int,
)
    requires
        0 <= root <= j <= blocks.len(),
    ensures
        match search(blocks, base, capacity, size, align, root, j) {
            Outcome::Fit { index, end } => {
                &&& index == root || index > j
                &&& root <= index < end <= blocks.len()
                &&& span(blocks, index, end) >= need_at(
                    base,
                    offset_at(blocks, index),
                    size,
                    align,
                )
            },
            Outcome::Grow { index } => {
                &&& index == root || index > j
                &&& root <= index <= blocks.len()
                &&& offset_at(blocks, index) + HEADER_SIZE + need_at(
                    base,
                    offset_at(blocks, index),
                    size,
                    align,
                ) + HEADER_SIZE <= capacity
            },
            Outcome::OutOfMemory => true,
        },
    decreases blocks.len() - j,
{
    if j >= blocks.len() {
    } else if blocks[j].used {
        lemma_search_shape(blocks, base, capacity, size, align, j + 1, j + 1);
    } else if span(blocks, root, j + 1) >= need_at(base, offset_at(blocks, root), size, align) {
    } else {
        lemma_search_shape(blocks, base, capacity, size, align, root, j + 1);
    }
}

/// The blocks after a request has been placed: a chain again, as before in
/// front of the place, and at the place a used block that begins where
/// the place was and holds what the request needs.
pub proof fn lemma_placed_shape(
    blocks: Seq<Block>,
    base: int,
    capacity: int,
    size: int,
    align: int,
    outcome: Outcome,
)
    requires
        chained(blocks),
        0 <= base,
        size > 0,
        align > 0,
        outcome == search(blocks, base, capacity, size, align, 0, 0),
        outcome != Outcome::OutOfMemory,
    ensures
        ({
            let after = placed(blocks, base, size, align, outcome);
            let index = placed_at(outcome);
            &&& chained(after)
            &&& 0 <= index < after.len()
            &&& index <= blocks.len()
            &&& forall|k: int| 0 <= k < index ==> after[k] == blocks[k]
            &&& after[index].offset == offset_at(blocks, index)
            &&& after[index].used
            &&& after[index].size >= need_at(base, offset_at(blocks, index), size, align)
        }),
{
    lemma_search_shape(blocks, base, capacity, size, align, 0, 0);
    let after = placed(blocks, base, size, align, outcome);
    let index = placed_at(outcome);
    let start = offset_at(blocks, index);
    if index < blocks.len() {
        lemma_chain_start(blocks, index);
    } else if blocks.len() > 0 {
        lemma_chain_order(blocks, 0, blocks.len() as int);
    }
    lemma_pad_aligns(base + start + HEADER_SIZE, align);
    let need = need_at(base, start, size, align);
    match outcome {
        Outcome::Grow { index } => {
            let block = Block { offset: start, used: true, size: need };
            lemma_prefix_chained(blocks, index, block);
            assert(after[index] == block);
            assert forall|k: int| 0 <= k < index implies after[k] == blocks[k] by {}
        },
        Outcome::Fit { index, end } => {
            let room = span(blocks, index, end);
            if room - need > HEADER_SIZE {
                let first = Block { offset: start, used: true, size: need };
                let rest = Block {
                    offset: start + HEADER_SIZE + need,
                    used: false,
                    size: room - need - HEADER_SIZE,
                };
                let front = blocks.subrange(0, index).push(first);
                lemma_prefix_chained(blocks, index, first);
                assert(front.last() == first);
                assert(front.subrange(0, index + 1) =~= front);
                lemma_prefix_chained(front, index + 1, rest);
                assert(front.push(rest).last() == rest);
                lemma_suffix_chained(front.push(rest), blocks, end);
                assert(after[index] == first);
                assert forall|k: int| 0 <= k < index implies after[k] == blocks[k] by {}
            } else {
                let first = Block { offset: start, used: true, size: room };
                let front = blocks.subrange(0, index).push(first);
                lemma_prefix_chained(blocks, index, first);
                assert(front.last() == first);
                lemma_suffix_chained(front, blocks, end);
                assert(after[index] == first);
                assert forall|k: int| 0 <= k < index implies after[k] == blocks[k] by {}
            }
        },
        Outcome::OutOfMemory => {},
    }
}

/// A search that places its request at block `index` goes the same way on
/// any blocks that are the same in front of `index` and have a block
/// there that begins at the same place.
pub proof fn lemma_search_replays(
    blocks: Seq<Block>,
    other: Seq<Block>,
    base: int,
    capacity: int,
    size: int,
    align: int,
    root: int,
    j: int,
    index: int,
)
    requires
        0 <= root <= j <= index,
        index <= blocks.len(),
        index < other.len(),
        forall|k: int| 0 <= k < index ==> other[k] == blocks[k],
        other[index].offset == offset_at(blocks, index),
        placed_at(search(blocks, base, capacity, size, align, root, j)) == index,
    ensures
        search(other, base, capacity, size, align, root, j) == search(
            other,
            base,
            capacity,
            size,
            align,
            index,
            index,
        ),
        j == index ==> root == index,
    decreases index - j,
{
    lemma_search_shape(blocks, base, capacity, size, align, root, j);
    if j < index {
        assert(other[j] == blocks[j]);
        assert(offset_at(other, j + 1) == offset_at(blocks, j + 1));
        assert(offset_at(other, root) == offset_at(blocks, root));
        if blocks[j].used {
            lemma_search_replays(blocks, other, base, capacity, size, align, j + 1, j + 1, index);
        } else if span(blocks, root, j + 1) >= need_at(
            base,
            offset_at(blocks, root),
            size,
            align,
        ) {
        } else {
            lemma_search_replays(blocks, other, base, capacity, size, align, root, j + 1, index);
        }
    }
}

/// Heap round-trip: when bytes that were handed out are given back and
/// the same request is made again, with nothing else done to the heap in
/// between, the same address is handed out.
pub proof fn lemma_heap_round_trip(
    blocks: Seq<Block>,
    base: int,
    capacity: int,
    size: int,
    align: int,
)
    requires
        chained(blocks),
        tail_of(blocks) + HEADER_SIZE <= capacity,
        0 <= base,
        size > 0,
        align > 0,
        search(blocks, base, capacity, size, align, 0, 0) != Outcome::OutOfMemory,
    ensures
        ({
            let first = search(blocks, base, capacity, size, align, 0, 0);
            let handed = placed(blocks, base, size, align, first);
            let addr = address_of(blocks, base, align, first);
            let given_back = freed(handed, base, addr->0);
            let second = search(given_back, base, capacity, size, align, 0, 0);
            &&& addr is Some
            &&& address_of(given_back, base, align, second) == addr
        }),
{
    let first = search(blocks, base, capacity, size, align, 0, 0);
    let handed = placed(blocks, base, size, align, first);
    let index = placed_at(first);
    let start = offset_at(blocks, index);
    let addr = address_of(blocks, base, align, first)->0;
    let given_back = freed(handed, base, addr);
    lemma_search_shape(blocks, base, capacity, size, align, 0, 0);
    lemma_placed_shape(blocks, base, capacity, size, align, first);
    lemma_chain_start(handed, index);
    lemma_pad_aligns(base + start + HEADER_SIZE, align);
    assert(addr == base + start + HEADER_SIZE + pad_for(base + start + HEADER_SIZE, align));
    assert(holds(handed[index], base, addr));
    assert forall|k: int| 0 <= k < index implies given_back[k] == blocks[k] by {
        lemma_chain_order(handed, k, index);
        assert(!holds(handed[k], base, addr));
    }
    assert(given_back[index] == (Block { used: false, ..handed[index] }));
    lemma_search_replays(blocks, given_back, base, capacity, size, align, 0, 0, index);
    // At the place itself the block is free and large enough.
    assert(offset_at(given_back, index) == start);
    if index + 1 < given_back.len() {
        assert(handed[index + 1].offset == handed[index].offset + HEADER_SIZE + handed[index].size);
        assert(given_back[index + 1].offset == handed[index + 1].offset);
    } else {
        assert(given_back.last() == given_back[index]);
    }
    assert(span(given_back, index, index + 1) == handed[index].size);
    assert(search(given_back, base, capacity, size, align, index, index) == (Outcome::Fit {
        index,
        end: index + 1,
    }));
}

} // verus!
