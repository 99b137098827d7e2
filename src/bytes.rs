//! Little-endian integers stored in byte sequences.
use vstd::prelude::*;

verus! {

/// The unsigned integer held by the four bytes of `m` starting at `off`,
/// least significant byte first.
pub open spec fn u32_at(m: Seq<u8>, off: int) -> int {
    m[off] as int + m[off + 1] as int * 0x100 + m[off + 2] as int * 0x1_0000 + m[off + 3] as int
        * 0x100_0000
}

/// The unsigned integer held by the eight bytes of `m` starting at `off`.
pub open spec fn u64_at(m: Seq<u8>, off: int) -> int {
    u32_at(m, off) + u32_at(m, off + 4) * 0x1_0000_0000
}

/// Reads the little-endian `u32` at byte offset `off`.
pub fn read_u32(m: &[u8], off: usize) -> (r: u32)
    requires
        off + 4 <= m@.len(),
    ensures
        r as int == u32_at(m@, off as int),
{
    let b0 = m[off] as u32;
    let b1 = m[off + 1] as u32;
    let b2 = m[off + 2] as u32;
    let b3 = m[off + 3] as u32;
    b0 + b1 * 0x100 + b2 * 0x1_0000 + b3 * 0x100_0000
}

/// Reads the little-endian `u64` at byte offset `off`.
pub fn read_u64(m: &[u8], off: usize) -> (r: u64)
    requires
        off + 8 <= m@.len(),
    ensures
        r as int == u64_at(m@, off as int),
{
    let _n = m.len();
    let lo = read_u32(m, off) as u64;
    let hi = read_u32(m, off + 4) as u64;
    lo + hi * 0x1_0000_0000
}

/// Writes `v` as four little-endian bytes at byte offset `off`, leaving
/// every other byte as it was.
pub fn write_u32(m: &mut Vec<u8>, off: usize, v: u32)
    requires
        off + 4 <= old(m)@.len(),
    ensures
        final(m)@.len() == old(m)@.len(),
        u32_at(final(m)@, off as int) == v as int,
        forall|i: int|
            0 <= i < old(m)@.len() && !(off <= i < off + 4) ==> #[trigger] final(m)@[i] == old(m)@[i],
{
    let _n = m.len();
    let b0 = #[verifier::truncate] ((v & 0xff) as u8);
    let b1 = #[verifier::truncate] (((v >> 8) & 0xff) as u8);
    let b2 = #[verifier::truncate] (((v >> 16) & 0xff) as u8);
    let b3 = #[verifier::truncate] (((v >> 24) & 0xff) as u8);
    assert(b0 as int + b1 as int * 0x100 + b2 as int * 0x1_0000 + b3 as int * 0x100_0000 == v as int)
        by (bit_vector)
        requires
            b0 == (v & 0xff) as u8,
            b1 == ((v >> 8) & 0xff) as u8,
            b2 == ((v >> 16) & 0xff) as u8,
            b3 == ((v >> 24) & 0xff) as u8,
    ;
    m.set(off, b0);
    m.set(off + 1, b1);
    m.set(off + 2, b2);
    m.set(off + 3, b3);
}

} // verus!
