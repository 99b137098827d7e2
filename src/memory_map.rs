//! The physical memory map that firmware reports, and the choice of the
//! region the allocator manages.
use vstd::prelude::*;
use crate::bytes::{u32_at, u64_at, read_u32, read_u64};
use crate::memory::HEADER_SIZE;

verus! {

/// Kinds of region that firmware reports in the memory map.
#[derive(PartialEq, Eq, Structural, Clone, Copy, Debug)]
pub enum MmapType {
    Unknown,
    Available,
    Reserved,
    AcpiReclaimable,
    Nvs,
    BadRam,
}

/// The region kind that the map's numeric code stands for; codes without a
/// kind of their own read as `Unknown`.
pub open spec fn mmap_type_of(code: u32) -> MmapType {
    if code == 1 {
        MmapType::Available
    } else if code == 2 {
        MmapType::Reserved
    } else if code == 3 {
        MmapType::AcpiReclaimable
    } else if code == 4 {
        MmapType::Nvs
    } else if code == 5 {
        MmapType::BadRam
    } else {
        MmapType::Unknown
    }
}

impl MmapType {
    pub fn from_code(code: u32) -> (r: Self)
        ensures
            r == mmap_type_of(code),
    {
        if code == 1 {
            MmapType::Available
        } else if code == 2 {
            MmapType::Reserved
        } else if code == 3 {
            MmapType::AcpiReclaimable
        } else if code == 4 {
            MmapType::Nvs
        } else if code == 5 {
            MmapType::BadRam
        } else {
            MmapType::Unknown
        }
    }
}

/// One record of the physical memory map.
#[derive(PartialEq, Eq, Structural, Clone, Copy, Debug)]
pub struct MmapEntry {
    pub size: u32,
    pub addr: u64,
    pub len: u64,
    pub ty: MmapType,
}

/// Bytes of one raw record: `size: u32, base: u64, length: u64, kind: u32`,
/// little-endian and packed.
pub const MMAP_ENTRY_SIZE: usize = 24;

/// The record whose bytes start at `off`.
pub open spec fn entry_at(m: Seq<u8>, off: int) -> MmapEntry {
    MmapEntry {
        size: u32_at(m, off) as u32,
        addr: u64_at(m, off + 4) as u64,
        len: u64_at(m, off + 12) as u64,
        ty: mmap_type_of(u32_at(m, off + 20) as u32),
    }
}

/// The records of a raw memory map: as many as whole records fit.
pub open spec fn entries_of(m: Seq<u8>) -> Seq<MmapEntry> {
    Seq::new(m.len() / MMAP_ENTRY_SIZE as nat, |i: int| entry_at(m, i * MMAP_ENTRY_SIZE))
}

/// Decodes the records of a raw memory map; trailing bytes that make no
/// whole record are ignored.
pub fn parse_memory_map(bytes: &[u8]) -> (r: Vec<MmapEntry>)
    ensures
        r@ == entries_of(bytes@),
{
    let blen = bytes.len();
    let n = blen / MMAP_ENTRY_SIZE;
    let mut r: Vec<MmapEntry> = Vec::new();
    let mut i: usize = 0;
    while i < n
        invariant
            n == bytes@.len() / MMAP_ENTRY_SIZE as nat,
            blen == bytes@.len(),
            i <= n,
            r@.len() == i,
            forall|j: int| 0 <= j < i ==> #[trigger] r@[j] == entry_at(bytes@, j * MMAP_ENTRY_SIZE),
        decreases n - i,
    {
        assert(i * MMAP_ENTRY_SIZE + MMAP_ENTRY_SIZE <= bytes@.len()) by (nonlinear_arith)
            requires
                i < n,
                n == bytes@.len() / MMAP_ENTRY_SIZE as nat,
        ;
        let off = i * MMAP_ENTRY_SIZE;
        let e = MmapEntry {
            size: read_u32(bytes, off),
            addr: read_u64(bytes, off + 4),
            len: read_u64(bytes, off + 12),
            ty: MmapType::from_code(read_u32(bytes, off + 20)),
        };
        r.push(e);
        i = i + 1;
    }
    assert(r@ =~= entries_of(bytes@));
    r
}

/// The region is available and not empty.
pub open spec fn usable_candidate(e: MmapEntry) -> bool {
    e.ty == MmapType::Available && e.len > 0
}

pub open spec fn has_available(es: Seq<MmapEntry>) -> bool {
    exists|i: int| 0 <= i < es.len() && usable_candidate(#[trigger] es[i])
}

/// `i` is the first of the longest available regions.
pub open spec fn is_first_largest(es: Seq<MmapEntry>, i: int) -> bool {
    &&& 0 <= i < es.len()
    &&& usable_candidate(es[i])
    &&& forall|j: int|
        0 <= j < i ==> !(usable_candidate(#[trigger] es[j]) && es[j].len >= es[i].len)
    &&& forall|j: int|
        i < j < es.len() ==> !(usable_candidate(#[trigger] es[j]) && es[j].len > es[i].len)
}

pub open spec fn first_largest(es: Seq<MmapEntry>) -> int {
    choose|i: int| is_first_largest(es, i)
}

/// The region can be managed with 32-bit addresses and the 31-bit packed
/// length, and can hold a header.
pub open spec fn region_usable(e: MmapEntry) -> bool {
    &&& e.len >= HEADER_SIZE
    &&& e.len < 0x8000_0000
    &&& e.addr + e.len < 0x1_0000_0000
}

/// Index of the first of the longest available regions, if any.
pub fn largest_available(entries: &[MmapEntry]) -> (r: Option<usize>)
    ensures
        match r {
            Some(i) => is_first_largest(entries@, i as int) && first_largest(entries@) == i,
            None => !has_available(entries@),
        },
{
    let mut best: Option<usize> = None;
    let mut best_len: u64 = 0;
    let mut i: usize = 0;
    while i < entries.len()
        invariant
            i <= entries@.len(),
            match best {
                Some(b) => {
                    &&& b < i
                    &&& usable_candidate(entries@[b as int])
                    &&& best_len == entries@[b as int].len
                    &&& forall|j: int|
                        0 <= j < b ==> !(usable_candidate(#[trigger] entries@[j])
                            && entries@[j].len >= best_len)
                    &&& forall|j: int|
                        b < j < i ==> !(usable_candidate(#[trigger] entries@[j])
                            && entries@[j].len > best_len)
                },
                None => best_len == 0 && forall|j: int|
                    0 <= j < i ==> !usable_candidate(#[trigger] entries@[j]),
            },
        decreases entries@.len() - i,
    {
        let e = entries[i];
        if e.ty == MmapType::Available && e.len > best_len {
            best = Some(i);
            best_len = e.len;
        }
        i = i + 1;
    }
    match best {
        Some(b) => {
            assert(is_first_largest(entries@, b as int));
            assert(first_largest(entries@) == b) by {
                let c = first_largest(entries@);
                assert(is_first_largest(entries@, c));
                if c < b {
                } else if c > b {
                }
            }
        },
        None => {},
    }
    best
}

} // verus!
