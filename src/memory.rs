//! The kernel's free-list allocator.
//!
//! The managed region is held as a byte arena: block headers are written into
//! it at their blocks' offsets with the same bit packing as on the machine
//! (the length shifted left by one, the occupied flag in bit 0, then the
//! absolute address of the next header or zero).
use vstd::prelude::*;
use crate::bytes::{u32_at, read_u32, write_u32};
use crate::memory_map::{
    entries_of, first_largest, has_available, largest_available, parse_memory_map, region_usable,
};

verus! {

/// Size in bytes of a block header: the packed length and the next address.
pub const HEADER_SIZE: u32 = 8;

/// The in-place record at the start of every block.
#[derive(Clone, Copy, Debug)]
pub struct AllocHeader {
    /// The block's length, header included, shifted left by one; bit 0 is
    /// the occupied flag.
    pub len: u32,
    /// Absolute address of the next header, or zero for the last block.
    pub next_header_addr: u32,
}

impl AllocHeader {
    /// The block length that the packed field holds.
    pub open spec fn length(self) -> int {
        self.len as int / 2
    }

    /// Whether the packed field marks the block occupied.
    pub open spec fn occupied(self) -> bool {
        self.len as int % 2 == 1
    }

    /// A vacant header of length `len` (kept modulo 2^31, the width of the
    /// packed field) with no successor.
    pub fn new(len: u32) -> (r: Self)
        ensures
            r.length() == len as int % 0x8000_0000,
            !r.occupied(),
            r.next_header_addr == 0,
    {
        let packed = len << 1;
        assert(packed as int / 2 == len as int % 0x8000_0000 && packed as int % 2 == 0) by (bit_vector)
            requires
                packed == len << 1,
        ;
        AllocHeader { len: packed, next_header_addr: 0 }
    }

    pub fn is_occupied(&self) -> (r: bool)
        ensures
            r == self.occupied(),
    {
        let x = self.len;
        assert((x & 1 > 0) == (x as int % 2 == 1)) by (bit_vector);
        x & 1 > 0
    }

    pub fn set_occupied(&mut self)
        ensures
            final(self).occupied(),
            final(self).length() == old(self).length(),
            final(self).next_header_addr == old(self).next_header_addr,
    {
        let x = self.len;
        assert((x | 1) as int / 2 == x as int / 2 && (x | 1) as int % 2 == 1) by (bit_vector);
        self.len = x | 1;
    }

    pub fn set_vacant(&mut self)
        ensures
            !final(self).occupied(),
            final(self).length() == old(self).length(),
            final(self).next_header_addr == old(self).next_header_addr,
    {
        let x = self.len;
        assert((x & !1u32) as int / 2 == x as int / 2 && (x & !1u32) as int % 2 == 0) by (bit_vector);
        self.len = x & !1u32;
    }

    /// The block's length, header included.
    pub fn len(&self) -> (r: u32)
        ensures
            r as int == self.length(),
    {
        let x = self.len;
        assert((x >> 1) as int == x as int / 2) by (bit_vector);
        x >> 1
    }

    /// Replaces the length and keeps the occupied flag; the length must fit
    /// the 31 bits of the packed field.
    pub fn set_len(&mut self, len: u32)
        requires
            len < 0x8000_0000,
        ensures
            final(self).length() == len,
            final(self).occupied() == old(self).occupied(),
            final(self).next_header_addr == old(self).next_header_addr,
    {
        let x = self.len;
        let packed = (x & 1) | (len << 1);
        assert(packed as int / 2 == len as int && packed as int % 2 == x as int % 2) by (bit_vector)
            requires
                packed == (x & 1) | (len << 1),
                len < 0x8000_0000,
        ;
        self.len = packed;
    }

    pub fn next_header_is_valid(&self) -> (r: bool)
        ensures
            r == (self.next_header_addr != 0),
    {
        self.next_header_addr != 0
    }

    pub fn next_header_addr(&self) -> (r: u32)
        ensures
            r == self.next_header_addr,
    {
        self.next_header_addr
    }
}

/// The header that the eight bytes at `off` of `m` hold.
pub open spec fn header_at(m: Seq<u8>, off: int) -> AllocHeader {
    AllocHeader { len: u32_at(m, off) as u32, next_header_addr: u32_at(m, off + 4) as u32 }
}

fn read_header(m: &Vec<u8>, off: u32) -> (r: AllocHeader)
    requires
        off + HEADER_SIZE <= m@.len(),
    ensures
        r == header_at(m@, off as int),
{
    let _n = m.len();
    let len = read_u32(m.as_slice(), off as usize);
    let next_header_addr = read_u32(m.as_slice(), off as usize + 4);
    AllocHeader { len, next_header_addr }
}

fn write_header(m: &mut Vec<u8>, off: u32, h: AllocHeader)
    requires
        off + HEADER_SIZE <= old(m)@.len(),
    ensures
        final(m)@.len() == old(m)@.len(),
        header_at(final(m)@, off as int) == h,
        forall|i: int|
            0 <= i < old(m)@.len() && !(off <= i < off + HEADER_SIZE) ==> #[trigger] final(m)@[i]
                == old(m)@[i],
{
    let _n = m.len();
    write_u32(m, off as usize, h.len);
    write_u32(m, off as usize + 4, h.next_header_addr);
}

/// One block of the chain as the allocator's contracts see it: its offset
/// from the start of the managed region, its length (header included) and
/// whether it is handed out.
pub struct BlockView {
    pub start: int,
    pub len: int,
    pub occupied: bool,
}

/// The chain covers `[0, total)` without gaps, in address order, with
/// 4-aligned block starts and no block shorter than a header.
pub open spec fn chain_wf(bs: Seq<BlockView>, total: int) -> bool {
    &&& bs.len() > 0
    &&& bs[0].start == 0
    &&& forall|k: int| 0 <= k < bs.len() - 1 ==> #[trigger] bs[k + 1].start == bs[k].start + bs[k].len
    &&& bs.last().start + bs.last().len == total
    &&& forall|k: int|
        0 <= k < bs.len() ==> #[trigger] bs[k].len >= HEADER_SIZE && bs[k].start % 4 == 0
}

/// Padding between a block's header and the memory handed out.
pub open spec fn header_padding(align: int) -> int {
    HEADER_SIZE as int % align
}

pub open spec fn round_up4(x: int) -> int {
    if x % 4 == 0 {
        x
    } else {
        x + 4 - x % 4
    }
}

/// Length of the block that a request of `size` bytes aligned to `align`
/// takes: the size, the padding and the header, rounded up to 4 bytes.
pub open spec fn target_len(size: int, align: int) -> int {
    round_up4(size + header_padding(align) + HEADER_SIZE)
}

/// A block that can serve a request whose block length is `target`.
pub open spec fn fits(b: BlockView, target: int) -> bool {
    !b.occupied && b.len >= target
}

/// `i` is the first block of the chain that fits.
pub open spec fn is_first_fit(bs: Seq<BlockView>, target: int, i: int) -> bool {
    &&& 0 <= i < bs.len()
    &&& fits(bs[i], target)
    &&& forall|j: int| 0 <= j < i ==> !fits(#[trigger] bs[j], target)
}

/// Some block of the chain fits.
pub open spec fn has_fit(bs: Seq<BlockView>, target: int) -> bool {
    exists|i: int| 0 <= i < bs.len() && fits(#[trigger] bs[i], target)
}

/// The first block that fits (meaningful where one does).
pub open spec fn first_fit(bs: Seq<BlockView>, target: int) -> int {
    choose|i: int| is_first_fit(bs, target, i)
}

/// The chain after block `i` is handed out for a block length of `target`:
/// the last block is split when what remains can hold a header; any other
/// block is taken whole.
pub open spec fn allocated(bs: Seq<BlockView>, i: int, target: int) -> Seq<BlockView> {
    let b = bs[i];
    if i == bs.len() - 1 && b.len - target >= HEADER_SIZE {
        bs.update(i, BlockView { start: b.start, len: target, occupied: true }).push(
            BlockView { start: b.start + target, len: b.len - target, occupied: false },
        )
    } else {
        bs.update(i, BlockView { start: b.start, len: b.len, occupied: true })
    }
}

/// The address handed out from block `i` for alignment `align`.
pub open spec fn alloc_addr(base: int, bs: Seq<BlockView>, i: int, align: int) -> int {
    base + bs[i].start + header_padding(align) + HEADER_SIZE
}

/// Block `b` holds the region offset `off`.
pub open spec fn holds(b: BlockView, off: int) -> bool {
    b.start <= off < b.start + b.len
}

/// The chain after block `k` is marked vacant.
pub open spec fn freed(bs: Seq<BlockView>, k: int) -> Seq<BlockView> {
    bs.update(k, BlockView { start: bs[k].start, len: bs[k].len, occupied: false })
}

/// What the eight bytes at block `k`'s start must hold: its length and flag,
/// then the absolute address of block `k + 1`, or zero after the last.
pub open spec fn header_matches(m: Seq<u8>, base: int, bs: Seq<BlockView>, k: int) -> bool {
    let h = header_at(m, bs[k].start);
    &&& h.length() == bs[k].len
    &&& h.occupied() == bs[k].occupied
    &&& h.next_header_addr == (if k + 1 < bs.len() {
        base + bs[k + 1].start
    } else {
        0
    })
}

proof fn lemma_chain_ordered(bs: Seq<BlockView>, total: int)
    requires
        chain_wf(bs, total),
    ensures
        forall|j: int, k: int|
            0 <= j < k < bs.len() ==> #[trigger] bs[j].start + bs[j].len <= #[trigger] bs[k].start,
        forall|k: int| 0 <= k < bs.len() ==> #[trigger] bs[k].start + bs[k].len <= total,
        forall|k: int| 0 <= k < bs.len() ==> #[trigger] bs[k].start >= 0,
{
    assert forall|j: int, k: int| 0 <= j < k < bs.len() implies #[trigger] bs[j].start + bs[j].len
        <= #[trigger] bs[k].start by {
        lemma_chain_step(bs, total, j, k);
    }
    assert forall|k: int| 0 <= k < bs.len() implies #[trigger] bs[k].start + bs[k].len <= total by {
        if k < bs.len() - 1 {
            lemma_chain_step(bs, total, k, bs.len() - 1);
        }
    }
    assert forall|k: int| 0 <= k < bs.len() implies #[trigger] bs[k].start >= 0 by {
        if k > 0 {
            lemma_chain_step(bs, total, 0, k);
        }
    }
}

proof fn lemma_chain_step(bs: Seq<BlockView>, total: int, j: int, k: int)
    requires
        chain_wf(bs, total),
        0 <= j < k < bs.len(),
    ensures
        bs[j].start + bs[j].len <= bs[k].start,
    decreases k - j,
{
    assert(bs[k - 1 + 1].start == bs[k - 1].start + bs[k - 1].len);
    if j < k - 1 {
        lemma_chain_step(bs, total, j, k - 1);
    }
}

proof fn lemma_header_unchanged(m1: Seq<u8>, m2: Seq<u8>, off: int)
    requires
        0 <= off,
        off + HEADER_SIZE <= m1.len(),
        m1.len() == m2.len(),
        forall|i: int| off <= i < off + HEADER_SIZE ==> m1[i] == m2[i],
    ensures
        header_at(m1, off) == header_at(m2, off),
{
    assert(m1[off] == m2[off]);
    assert(m1[off + 1] == m2[off + 1]);
    assert(m1[off + 2] == m2[off + 2]);
    assert(m1[off + 3] == m2[off + 3]);
    assert(m1[off + 4] == m2[off + 4]);
    assert(m1[off + 5] == m2[off + 5]);
    assert(m1[off + 6] == m2[off + 6]);
    assert(m1[off + 7] == m2[off + 7]);
}

proof fn lemma_allocated_wf(bs: Seq<BlockView>, total: int, k: int, target: int)
    requires
        chain_wf(bs, total),
        0 <= k < bs.len(),
        fits(bs[k], target),
        target >= HEADER_SIZE,
        target % 4 == 0,
    ensures
        chain_wf(allocated(bs, k, target), total),
{
    let nb = allocated(bs, k, target);
    if k == bs.len() - 1 && bs[k].len - target >= HEADER_SIZE {
        assert forall|j: int| 0 <= j < nb.len() - 1 implies #[trigger] nb[j + 1].start == nb[j].start
            + nb[j].len by {
            if j < k {
                assert(bs[j + 1].start == bs[j].start + bs[j].len);
            }
        }
    } else {
        assert forall|j: int| 0 <= j < nb.len() - 1 implies #[trigger] nb[j + 1].start == nb[j].start
            + nb[j].len by {
            assert(bs[j + 1].start == bs[j].start + bs[j].len);
        }
    }
}

/// Why a request to the allocator could not be served.
#[derive(PartialEq, Eq, Structural, Clone, Copy, Debug)]
pub enum AllocError {
    /// The memory map holds no available region.
    NoAvailableMemory,
    /// The largest available region cannot be managed with 32-bit
    /// addresses and lengths.
    UnusableRegion,
    /// No block of the chain can hold the request.
    OutOfMemory,
    /// The pointer lies in no block of the chain.
    UnknownPointer,
}

/// The kernel's allocation authority: a chain of headers written into the
/// managed region, rooted at the region's base address.
pub struct Allocator {
    /// Address of the first header (the start of the managed region),
    /// written once by `init`.
    first_header: u32,
    memory: Vec<u8>,
    chain: Ghost<Seq<BlockView>>,
}

impl Allocator {
    /// Absolute address of the managed region's first byte.
    pub closed spec fn base(&self) -> int {
        self.first_header as int
    }

    /// The chain of blocks, in address order.
    pub closed spec fn blocks(&self) -> Seq<BlockView> {
        self.chain@
    }

    /// Length of the managed region; zero before `init`.
    pub closed spec fn region_len(&self) -> int {
        self.memory@.len() as int
    }

    pub closed spec fn is_initialized(&self) -> bool {
        self.region_len() > 0
    }

    pub closed spec fn wf(&self) -> bool {
        if self.memory@.len() == 0 {
            self.chain@.len() == 0
        } else {
            &&& self.memory@.len() < 0x8000_0000
            &&& self.first_header + self.memory@.len() < 0x1_0000_0000
            &&& chain_wf(self.chain@, self.memory@.len() as int)
            &&& forall|k: int|
                0 <= k < self.chain@.len() ==> #[trigger] header_matches(
                    self.memory@,
                    self.first_header as int,
                    self.chain@,
                    k,
                )
        }
    }

    /// The heap root: address of the first header, zero before `init`.
    pub fn heap_root(&self) -> (r: u32)
        ensures
            r == self.base(),
    {
        self.first_header
    }

    /// An allocator that manages nothing yet.
    pub fn new() -> (r: Self)
        ensures
            r.wf(),
            !r.is_initialized(),
            r.base() == 0,
            r.blocks().len() == 0,
    {
        Allocator { first_header: 0, memory: Vec::new(), chain: Ghost(Seq::empty()) }
    }

    /// Marks block `k`, whose header `h` was read at offset `cur`, occupied;
    /// the last block is split when what remains can hold a header.
    #[verifier::rlimit(50)]
    fn claim(&mut self, cur: u32, h: AllocHeader, target: u32, Ghost(k): Ghost<int>)
        requires
            old(self).wf(),
            old(self).memory@.len() > 0,
            0 <= k < old(self).chain@.len(),
            cur == old(self).chain@[k].start,
            h == header_at(old(self).memory@, cur as int),
            fits(old(self).chain@[k], target as int),
            target >= HEADER_SIZE,
            target % 4 == 0,
        ensures
            final(self).wf(),
            final(self).first_header == old(self).first_header,
            final(self).memory@.len() == old(self).memory@.len(),
            final(self).chain@ == allocated(old(self).chain@, k, target as int),
    {
        let ghost bs = self.chain@;
        let ghost total = self.memory@.len() as int;
        let base = self.first_header;
        proof {
            lemma_chain_ordered(bs, total);
        }
        assert(header_matches(self.memory@, base as int, bs, k));
        let ghost m0 = self.memory@;
        let mut h = h;
        let prev_len = h.len();
        h.set_occupied();
        if !h.next_header_is_valid() && prev_len - target >= HEADER_SIZE {
            assert(k == bs.len() - 1);
            h.set_len(target);
            let rest = AllocHeader::new(prev_len - target);
            h.next_header_addr = base + cur + target;
            write_header(&mut self.memory, cur + target, rest);
            let ghost m1 = self.memory@;
            write_header(&mut self.memory, cur, h);
            let ghost m2 = self.memory@;
            assert(header_at(m2, cur + target) == rest) by {
                lemma_header_unchanged(m1, m2, cur + target);
            }
            self.chain = Ghost(allocated(bs, k, target as int));
            proof {
                lemma_allocated_wf(bs, total, k, target as int);
            }
            assert forall|j: int| 0 <= j < self.chain@.len() implies #[trigger] header_matches(
                self.memory@,
                base as int,
                self.chain@,
                j,
            ) by {
                if j < k {
                    assert(header_matches(m0, base as int, bs, j));
                    lemma_header_unchanged(m0, m2, bs[j].start);
                }
            }
        } else {
            write_header(&mut self.memory, cur, h);
            let ghost m2 = self.memory@;
            self.chain = Ghost(allocated(bs, k, target as int));
            proof {
                lemma_allocated_wf(bs, total, k, target as int);
            }
            assert forall|j: int| 0 <= j < self.chain@.len() implies #[trigger] header_matches(
                self.memory@,
                base as int,
                self.chain@,
                j,
            ) by {
                if j != k {
                    assert(header_matches(m0, base as int, bs, j));
                    lemma_header_unchanged(m0, m2, bs[j].start);
                }
            }
        }
    }

    /// Hands out `size` bytes aligned as the header padding allows, from the
    /// first block of the chain that is vacant and long enough.
    pub fn allocate(&mut self, size: u32, align: u32) -> (r: Result<u32, AllocError>)
        requires
            old(self).wf(),
            old(self).is_initialized(),
            align > 0,
        ensures
            final(self).wf(),
            final(self).is_initialized(),
            final(self).base() == old(self).base(),
            final(self).region_len() == old(self).region_len(),
            ({
                let bs = old(self).blocks();
                let t = target_len(size as int, align as int);
                match r {
                    Ok(p) => {
                        &&& has_fit(bs, t)
                        &&& p == alloc_addr(old(self).base(), bs, first_fit(bs, t), align as int)
                        &&& final(self).blocks() == allocated(bs, first_fit(bs, t), t)
                    },
                    Err(e) => {
                        &&& e == AllocError::OutOfMemory
                        &&& !has_fit(bs, t)
                        &&& final(self).blocks() == bs
                    },
                }
            }),
    {
        let ghost bs = self.chain@;
        let ghost total = self.memory@.len() as int;
        let base = self.first_header;
        let pad: u32 = HEADER_SIZE % align;
        let raw: u64 = size as u64 + pad as u64 + HEADER_SIZE as u64;
        let target: u64 = if raw % 4 == 0 {
            raw
        } else {
            raw + 4 - raw % 4
        };
        assert(target == target_len(size as int, align as int));
        assert(target >= raw && target % 4 == 0);
        proof {
            lemma_chain_ordered(bs, total);
        }
        let mut cur: u32 = 0;
        let ghost mut k: int = 0;
        loop
            invariant
                self.wf(),
                self.chain@ == bs,
                self.memory@.len() == total,
                self.first_header == base,
                old(self).first_header == base,
                old(self).memory@.len() == total,
                old(self).chain@ == bs,
                total > 0,
                0 <= k < bs.len(),
                cur == bs[k].start,
                forall|j: int| 0 <= j < k ==> !fits(#[trigger] bs[j], target as int),
                target == target_len(size as int, align as int),
                target >= raw,
                target % 4 == 0,
                raw == size + pad + HEADER_SIZE,
                pad == HEADER_SIZE % align,
            decreases bs.len() - k,
        {
            proof {
                lemma_chain_ordered(bs, total);
            }
            assert(header_matches(self.memory@, base as int, bs, k));
            let h = read_header(&self.memory, cur);
            if !h.is_occupied() && h.len() as u64 >= target {
                assert(is_first_fit(bs, target as int, k));
                assert(first_fit(bs, target as int) == k) by {
                    let i = first_fit(bs, target as int);
                    if i < k {
                    } else if i > k {
                    }
                }
                self.claim(cur, h, target as u32, Ghost(k));
                return Ok(base + cur + pad + HEADER_SIZE);
            }
            if !h.next_header_is_valid() {
                assert(k == bs.len() - 1);
                return Err(AllocError::OutOfMemory);
            }
            cur = h.next_header_addr - base;
            proof {
                k = k + 1;
            }
        }
    }

    /// Walks the chain from the heap root and returns each header with its
    /// absolute address, in address order.
    pub fn headers(&self) -> (r: Vec<(u32, AllocHeader)>)
        requires
            self.wf(),
        ensures
            r@.len() == self.blocks().len(),
            forall|k: int|
                0 <= k < r@.len() ==> {
                    &&& (#[trigger] r@[k]).0 == self.base() + self.blocks()[k].start
                    &&& r@[k].1.length() == self.blocks()[k].len
                    &&& r@[k].1.occupied() == self.blocks()[k].occupied
                    &&& r@[k].1.next_header_addr == if k + 1 < r@.len() {
                        self.base() + self.blocks()[k + 1].start
                    } else {
                        0
                    }
                },
    {
        let mut r: Vec<(u32, AllocHeader)> = Vec::new();
        if self.memory.len() == 0 {
            return r;
        }
        let ghost bs = self.chain@;
        let ghost total = self.memory@.len() as int;
        let base = self.first_header;
        let mut cur: u32 = 0;
        let ghost mut k: int = 0;
        loop
            invariant
                self.wf(),
                bs == self.chain@,
                total == self.memory@.len(),
                total > 0,
                base == self.first_header,
                0 <= k < bs.len(),
                cur == bs[k].start,
                r@.len() == k,
                forall|j: int|
                    0 <= j < k ==> {
                        &&& (#[trigger] r@[j]).0 == base + bs[j].start
                        &&& r@[j].1.length() == bs[j].len
                        &&& r@[j].1.occupied() == bs[j].occupied
                        &&& r@[j].1.next_header_addr == if j + 1 < bs.len() {
                            base + bs[j + 1].start
                        } else {
                            0
                        }
                    },
            decreases bs.len() - k,
        {
            proof {
                lemma_chain_ordered(bs, total);
            }
            assert(header_matches(self.memory@, base as int, bs, k));
            let h = read_header(&self.memory, cur);
            r.push((base + cur, h));
            if !h.next_header_is_valid() {
                assert(k == bs.len() - 1);
                return r;
            }
            cur = h.next_header_addr - base;
            proof {
                k = k + 1;
            }
        }
    }

    /// Marks vacant the block that holds `ptr`. Freed blocks are never
    /// merged with their neighbours. The size and alignment the memory was
    /// requested with are not needed to find it.
    pub fn deallocate(&mut self, ptr: u32, size: u32, align: u32) -> (r: Result<(), AllocError>)
        requires
            old(self).wf(),
            old(self).is_initialized(),
        ensures
            final(self).wf(),
            final(self).is_initialized(),
            final(self).base() == old(self).base(),
            final(self).region_len() == old(self).region_len(),
            ({
                let bs = old(self).blocks();
                let off = ptr - old(self).base();
                match r {
                    Ok(()) => {
                        &&& holds_somewhere(bs, off)
                        &&& final(self).blocks() == freed(bs, block_holding(bs, off))
                    },
                    Err(e) => {
                        &&& e == AllocError::UnknownPointer
                        &&& !holds_somewhere(bs, off)
                        &&& final(self).blocks() == bs
                    },
                }
            }),
    {
        let ghost bs = self.chain@;
        let ghost total = self.memory@.len() as int;
        let ghost off = ptr - self.first_header;
        let base = self.first_header;
        let mut cur: u32 = 0;
        let ghost mut k: int = 0;
        loop
            invariant
                self.wf(),
                self.chain@ == bs,
                self.memory@.len() == total,
                self.first_header == base,
                old(self).first_header == base,
                old(self).memory@.len() == total,
                old(self).chain@ == bs,
                off == ptr - base,
                total > 0,
                0 <= k < bs.len(),
                cur == bs[k].start,
                forall|j: int| 0 <= j < k ==> !holds(#[trigger] bs[j], off),
            decreases bs.len() - k,
        {
            proof {
                lemma_chain_ordered(bs, total);
            }
            assert(header_matches(self.memory@, base as int, bs, k));
            let mut h = read_header(&self.memory, cur);
            if base as u64 + cur as u64 <= ptr as u64 && (ptr as u64) < base as u64 + cur as u64
                + h.len() as u64 {
                assert(holds(bs[k], off));
                assert(block_holding(bs, off) == k) by {
                    let i = block_holding(bs, off);
                    assert(holds(bs[i], off));
                    if i < k {
                    } else if i > k {
                    }
                }
                let ghost m0 = self.memory@;
                h.set_vacant();
                write_header(&mut self.memory, cur, h);
                let ghost m1 = self.memory@;
                self.chain = Ghost(freed(bs, k));
                assert(chain_wf(self.chain@, total)) by {
                    assert forall|j: int| 0 <= j < bs.len() - 1 implies #[trigger] self.chain@[j
                        + 1].start == self.chain@[j].start + self.chain@[j].len by {
                        assert(bs[j + 1].start == bs[j].start + bs[j].len);
                    }
                }
                assert forall|j: int| 0 <= j < self.chain@.len() implies #[trigger] header_matches(
                    self.memory@,
                    base as int,
                    self.chain@,
                    j,
                ) by {
                    if j != k {
                        assert(header_matches(m0, base as int, bs, j));
                        lemma_header_unchanged(m0, m1, bs[j].start);
                    }
                }
                return Ok(());
            }
            if !h.next_header_is_valid() {
                assert(k == bs.len() - 1);
                assert(!holds_somewhere(bs, off)) by {
                    if holds_somewhere(bs, off) {
                        let i = choose|i: int| 0 <= i < bs.len() && holds(#[trigger] bs[i], off);
                        assert(i <= k);
                    }
                }
                return Err(AllocError::UnknownPointer);
            }
            cur = h.next_header_addr - base;
            proof {
                k = k + 1;
            }
        }
    }

    /// Takes the largest available region of the memory map `mmap` (raw
    /// records, see [`parse_memory_map`]) as the managed region, the first
    /// one on ties, and writes one vacant header over all of it.
    pub fn init(&mut self, mmap: &[u8]) -> (r: Result<(), AllocError>)
        requires
            old(self).wf(),
            !old(self).is_initialized(),
        ensures
            final(self).wf(),
            ({
                let es = entries_of(mmap@);
                match r {
                    Ok(()) => {
                        let e = es[first_largest(es)];
                        &&& has_available(es)
                        &&& region_usable(e)
                        &&& final(self).is_initialized()
                        &&& final(self).base() == e.addr
                        &&& final(self).region_len() == e.len
                        &&& final(self).blocks() == Seq::empty().push(
                            BlockView { start: 0, len: e.len as int, occupied: false },
                        )
                    },
                    Err(AllocError::NoAvailableMemory) => {
                        &&& !has_available(es)
                        &&& *final(self) == *old(self)
                    },
                    Err(AllocError::UnusableRegion) => {
                        &&& has_available(es)
                        &&& !region_usable(es[first_largest(es)])
                        &&& *final(self) == *old(self)
                    },
                    Err(_) => false,
                }
            }),
    {
        let entries = parse_memory_map(mmap);
        let best = largest_available(entries.as_slice());
        match best {
            None => Err(AllocError::NoAvailableMemory),
            Some(i) => {
                let e = entries[i];
                if e.len < HEADER_SIZE as u64 || e.len >= 0x8000_0000 || e.addr >= 0x1_0000_0000
                    || e.addr + e.len
                    >= 0x1_0000_0000 {
                    return Err(AllocError::UnusableRegion);
                }
                let len = e.len as u32;
                let mut memory: Vec<u8> = vec![0u8; len as usize];
                let h = AllocHeader::new(len);
                write_header(&mut memory, 0, h);
                self.first_header = e.addr as u32;
                self.memory = memory;
                self.chain = Ghost(
                    Seq::empty().push(BlockView { start: 0, len: len as int, occupied: false }),
                );
                assert(header_matches(self.memory@, self.first_header as int, self.chain@, 0));
                Ok(())
            },
        }
    }
}

/// Some block of the chain holds the region offset `off`.
pub open spec fn holds_somewhere(bs: Seq<BlockView>, off: int) -> bool {
    exists|i: int| 0 <= i < bs.len() && holds(#[trigger] bs[i], off)
}

/// The block that holds `off` (meaningful where one does).
pub open spec fn block_holding(bs: Seq<BlockView>, off: int) -> int {
    choose|i: int| 0 <= i < bs.len() && holds(#[trigger] bs[i], off)
}

proof fn lemma_first_fit_unique(bs: Seq<BlockView>, target: int, a: int, b: int)
    requires
        is_first_fit(bs, target, a),
        is_first_fit(bs, target, b),
    ensures
        a == b,
{
    if a < b {
        assert(!fits(bs[a], target));
    } else if b < a {
        assert(!fits(bs[b], target));
    }
}

proof fn lemma_first_fit_exists(bs: Seq<BlockView>, target: int, w: int)
    requires
        0 <= w < bs.len(),
        fits(bs[w], target),
    ensures
        is_first_fit(bs, target, first_fit(bs, target)),
        first_fit(bs, target) <= w,
    decreases w,
{
    if exists|j: int| 0 <= j < w && fits(#[trigger] bs[j], target) {
        let j = choose|j: int| 0 <= j < w && fits(#[trigger] bs[j], target);
        lemma_first_fit_exists(bs, target, j);
    } else {
        assert(is_first_fit(bs, target, w));
        lemma_first_fit_unique(bs, target, w, first_fit(bs, target));
    }
}

proof fn lemma_has_first_fit(bs: Seq<BlockView>, target: int)
    requires
        has_fit(bs, target),
    ensures
        is_first_fit(bs, target, first_fit(bs, target)),
{
    let w = choose|i: int| 0 <= i < bs.len() && fits(#[trigger] bs[i], target);
    lemma_first_fit_exists(bs, target, w);
}

/// Round trip: allocating and then freeing the address handed out leaves
/// the block vacant again, and the next request of the same size and
/// alignment gets the same address back (first fit meets the freed block
/// first); a smaller request is served at that block or an earlier one.
pub proof fn lemma_round_trip(
    bs: Seq<BlockView>,
    total: int,
    base: int,
    size: int,
    align: int,
    smaller: int,
)
    requires
        chain_wf(bs, total),
        align > 0,
        0 < size,
        0 < smaller <= size,
        has_fit(bs, target_len(size, align)),
    ensures
        ({
            let t = target_len(size, align);
            let i = first_fit(bs, t);
            let p = alloc_addr(base, bs, i, align);
            let after = allocated(bs, i, t);
            let back = freed(after, block_holding(after, p - base));
            &&& holds_somewhere(after, p - base)
            &&& block_holding(after, p - base) == i
            &&& !back[i].occupied
            &&& has_fit(back, t)
            &&& first_fit(back, t) == i
            &&& alloc_addr(base, back, first_fit(back, t), align) == p
            &&& has_fit(back, target_len(smaller, align))
            &&& first_fit(back, target_len(smaller, align)) <= i
        }),
{
    let t = target_len(size, align);
    let ts = target_len(smaller, align);
    lemma_has_first_fit(bs, t);
    let i = first_fit(bs, t);
    let p = alloc_addr(base, bs, i, align);
    let after = allocated(bs, i, t);
    assert(t >= HEADER_SIZE && t % 4 == 0);
    lemma_allocated_wf(bs, total, i, t);
    lemma_chain_ordered(after, total);
    assert(holds(after[i], p - base));
    assert(block_holding(after, p - base) == i) by {
        let h = block_holding(after, p - base);
        assert(holds(after[h], p - base));
        if h < i {
        } else if h > i {
        }
    }
    let back = freed(after, i);
    assert(fits(back[i], t));
    assert(is_first_fit(back, t, i)) by {
        assert forall|j: int| 0 <= j < i implies !fits(#[trigger] back[j], t) by {
            assert(back[j] == bs[j]);
        }
    }
    lemma_has_first_fit(back, t);
    lemma_first_fit_unique(back, t, i, first_fit(back, t));
    assert(ts <= t);
    assert(fits(back[i], ts));
    lemma_first_fit_exists(back, ts, i);
}

/// Every initialised allocator's chain is well formed over its region, so
/// the laws below, stated of well-formed chains, hold of it.
pub proof fn lemma_allocator_chain(a: &Allocator)
    requires
        a.wf(),
        a.is_initialized(),
    ensures
        chain_wf(a.blocks(), a.region_len()),
{
}

/// Alignment: with a region base that is a multiple of 4, every address
/// handed out for an alignment of 1, 2 or 4 is a multiple of it.
pub proof fn lemma_alignment(bs: Seq<BlockView>, total: int, base: int, size: int, align: int)
    requires
        chain_wf(bs, total),
        base % 4 == 0,
        align == 1 || align == 2 || align == 4,
        has_fit(bs, target_len(size, align)),
    ensures
        alloc_addr(base, bs, first_fit(bs, target_len(size, align)), align) % align == 0,
{
    let t = target_len(size, align);
    lemma_has_first_fit(bs, t);
    let i = first_fit(bs, t);
    assert(bs[i].start % 4 == 0);
    assert(header_padding(align) == 0);
}

/// Bytes of the chain's occupied blocks.
pub open spec fn used_len(bs: Seq<BlockView>) -> int
    decreases bs.len(),
{
    if bs.len() == 0 {
        0
    } else {
        used_len(bs.drop_last()) + if bs.last().occupied {
            bs.last().len
        } else {
            0
        }
    }
}

/// Bytes of all the chain's blocks.
pub open spec fn total_len(bs: Seq<BlockView>) -> int
    decreases bs.len(),
{
    if bs.len() == 0 {
        0
    } else {
        total_len(bs.drop_last()) + bs.last().len
    }
}

proof fn lemma_total_prefix(bs: Seq<BlockView>, total: int, k: int)
    requires
        chain_wf(bs, total),
        0 <= k < bs.len(),
    ensures
        total_len(bs.subrange(0, k)) == bs[k].start,
    decreases k,
{
    if k > 0 {
        lemma_total_prefix(bs, total, k - 1);
        assert(bs.subrange(0, k).drop_last() =~= bs.subrange(0, k - 1));
        assert(bs[k - 1 + 1].start == bs[k - 1].start + bs[k - 1].len);
    }
}

proof fn lemma_total(bs: Seq<BlockView>, total: int)
    requires
        chain_wf(bs, total),
    ensures
        total_len(bs) == total,
{
    let n = bs.len() - 1;
    lemma_total_prefix(bs, total, n);
    assert(bs.drop_last() =~= bs.subrange(0, n));
}

proof fn lemma_vacant_within(bs: Seq<BlockView>, i: int)
    requires
        0 <= i < bs.len(),
        !bs[i].occupied,
        forall|k: int| 0 <= k < bs.len() ==> #[trigger] bs[k].len >= 0,
    ensures
        used_len(bs) + bs[i].len <= total_len(bs),
    decreases bs.len(),
{
    lemma_used_within(bs.drop_last());
    if i < bs.len() - 1 {
        lemma_vacant_within(bs.drop_last(), i);
    }
}

proof fn lemma_used_within(bs: Seq<BlockView>)
    requires
        forall|k: int| 0 <= k < bs.len() ==> #[trigger] bs[k].len >= 0,
    ensures
        used_len(bs) <= total_len(bs),
    decreases bs.len(),
{
    if bs.len() > 0 {
        lemma_used_within(bs.drop_last());
    }
}

proof fn lemma_used_update(bs: Seq<BlockView>, i: int, b: BlockView)
    requires
        0 <= i < bs.len(),
    ensures
        used_len(bs.update(i, b)) == used_len(bs) - (if bs[i].occupied {
            bs[i].len
        } else {
            0
        }) + (if b.occupied {
            b.len
        } else {
            0
        }),
    decreases bs.len(),
{
    let nb = bs.update(i, b);
    if i < bs.len() - 1 {
        assert(nb.drop_last() =~= bs.drop_last().update(i, b));
        lemma_used_update(bs.drop_last(), i, b);
    } else {
        assert(nb.drop_last() =~= bs.drop_last());
    }
}

/// Exhaustion: the occupied blocks never hold more than the region; each
/// grant occupies more bytes than were asked for (the header comes on top);
/// so a request for more than the region has left over is refused.
pub proof fn lemma_exhaustion(bs: Seq<BlockView>, total: int, size: int, align: int)
    requires
        chain_wf(bs, total),
        align > 0,
        size >= 0,
    ensures
        0 <= used_len(bs) <= total,
        ({
            let t = target_len(size, align);
            has_fit(bs, t) ==> used_len(allocated(bs, first_fit(bs, t), t)) >= used_len(bs) + size
                + HEADER_SIZE
        }),
        used_len(bs) + size + HEADER_SIZE > total ==> !has_fit(bs, target_len(size, align)),
{
    let t = target_len(size, align);
    lemma_total(bs, total);
    lemma_used_within(bs);
    lemma_used_nonneg(bs);
    if has_fit(bs, t) {
        lemma_has_first_fit(bs, t);
        let i = first_fit(bs, t);
        lemma_vacant_within(bs, i);
        let b = bs[i];
        if i == bs.len() - 1 && b.len - t >= HEADER_SIZE {
            let nb = BlockView { start: b.start, len: t, occupied: true };
            lemma_used_update(bs, i, nb);
            let up = bs.update(i, nb);
            let rest = BlockView { start: b.start + t, len: b.len - t, occupied: false };
            assert(up.push(rest).drop_last() =~= up);
        } else {
            lemma_used_update(bs, i, BlockView { start: b.start, len: b.len, occupied: true });
        }
    }
}

proof fn lemma_used_nonneg(bs: Seq<BlockView>)
    requires
        forall|k: int| 0 <= k < bs.len() ==> #[trigger] bs[k].len >= 0,
    ensures
        used_len(bs) >= 0,
    decreases bs.len(),
{
    if bs.len() > 0 {
        lemma_used_nonneg(bs.drop_last());
    }
}

} // verus!
