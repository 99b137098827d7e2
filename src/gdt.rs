//! Segment descriptors of the global descriptor table.
use vstd::prelude::*;

verus! {

/// The `len` bits of `v` starting at bit `shift`.
pub open spec fn bit_field(v: u64, shift: u64, len: u64) -> u64 {
    (v >> shift) & (((1u64 << len) - 1) as u64)
}

/// Reads `len` bits of `v` starting at bit `shift`.
pub fn read_bits(v: u64, shift: usize, len: usize) -> (r: u64)
    requires
        shift < 64,
        0 < len < 64,
    ensures
        r == bit_field(v, shift as u64, len as u64),
{
    let l = len as u64;
    assert(1u64 << l >= 1) by (bit_vector)
        requires
            0 < l < 64,
    ;
    let mask: u64 = (1u64 << l) - 1;
    (v >> (shift as u64)) & mask
}

/// Whether a segment's limit counts bytes or 4 KiB pages.
#[derive(PartialEq, Eq, Structural, Clone, Copy, Debug)]
pub enum Granularity {
    Bytes,
    KiloBytes,
}

/// Access byte of a present, ring-0 code or data segment that is readable
/// (code) or writable (data) and marked accessed.
pub open spec fn access_byte(executable: bool) -> u8 {
    if executable {
        0x9B
    } else {
        0x93
    }
}

/// Flags nibble of a 32-bit protected-mode segment.
pub open spec fn segment_flags(granularity: Granularity) -> u8 {
    match granularity {
        Granularity::Bytes => 0b0100,
        Granularity::KiloBytes => 0b1100,
    }
}

/// The eight bytes of a segment descriptor as one little-endian word.
pub open spec fn gdt_entry(base: u32, limit: u32, access: u8, flags: u8) -> u64 {
    let b = base as u64;
    let l = limit as u64;
    let limit_low = l & 0xFFFF;
    let base_low = (b & 0xFF_FFFF) << 16;
    let access_bits = (access as u64) << 40;
    let limit_high = ((l >> 16) & 0xF) << 48;
    let flag_bits = ((flags as u64) & 0xF) << 52;
    let base_high = (b >> 24) << 56;
    limit_low | base_low | access_bits | limit_high | flag_bits | base_high
}

pub open spec fn gdt_base(v: u64) -> u32 {
    (bit_field(v, 16, 24) | (bit_field(v, 56, 8) << 24)) as u32
}

pub open spec fn gdt_limit(v: u64) -> u32 {
    (bit_field(v, 0, 16) | (bit_field(v, 48, 4) << 16)) as u32
}

pub open spec fn gdt_access(v: u64) -> u8 {
    bit_field(v, 40, 8) as u8
}

pub open spec fn gdt_flags(v: u64) -> u8 {
    bit_field(v, 52, 4) as u8
}

proof fn lemma_gdt_fields(base: u32, limit: u32, access: u8, flags: u8)
    requires
        limit <= 0xF_FFFF,
        flags < 16,
    ensures
        gdt_base(gdt_entry(base, limit, access, flags)) == base,
        gdt_limit(gdt_entry(base, limit, access, flags)) == limit,
        gdt_access(gdt_entry(base, limit, access, flags)) == access,
        gdt_flags(gdt_entry(base, limit, access, flags)) == flags,
{
    let v = gdt_entry(base, limit, access, flags);
    assert(gdt_base(v) == base && gdt_limit(v) == limit && gdt_access(v) == access && gdt_flags(v)
        == flags) by (bit_vector)
        requires
            v == gdt_entry(base, limit, access, flags),
            limit <= 0xF_FFFF,
            flags < 16,
    ;
}

/// One segment descriptor.
pub struct GdtDescriptor(pub u64);

impl GdtDescriptor {
    /// The null descriptor that must open the table.
    pub fn null() -> (r: Self)
        ensures
            r.0 == 0,
    {
        GdtDescriptor(0)
    }

    /// A present ring-0 code (`executable`) or data segment in 32-bit
    /// protected mode. The limit has 20 bits.
    pub fn new(base: u32, limit: u32, granularity: Granularity, executable: bool) -> (r: Self)
        requires
            limit <= 0xF_FFFF,
        ensures
            r.0 == gdt_entry(base, limit, access_byte(executable), segment_flags(granularity)),
            gdt_base(r.0) == base,
            gdt_limit(r.0) == limit,
            gdt_access(r.0) == access_byte(executable),
            gdt_flags(r.0) == segment_flags(granularity),
    {
        let executable_bit: u8 = if executable {
            1
        } else {
            0
        };
        let access: u8 = 0x80 | 0x00 | 0x10 | (executable_bit << 3) | (0 << 2) | (1 << 1) | 0x1;
        let granularity_bit: u8 = match granularity {
            Granularity::Bytes => 0,
            Granularity::KiloBytes => 1,
        };
        let flags: u8 = (granularity_bit << 3) | (1 << 2) | (0 << 1);
        assert(access == access_byte(executable) && flags == segment_flags(granularity)) by {
            assert(access == 0x80u8 | 0x00u8 | 0x10u8 | (executable_bit << 3) | (0u8 << 2) | (1u8
                << 1) | 0x1u8);
            assert(flags == (granularity_bit << 3) | (1u8 << 2) | (0u8 << 1));
            assert(executable_bit == 1 ==> (0x80u8 | 0x00u8 | 0x10u8 | (executable_bit << 3) | (0u8
                << 2) | (1u8 << 1) | 0x1u8) == 0x9Bu8) by (bit_vector);
            assert(executable_bit == 0 ==> (0x80u8 | 0x00u8 | 0x10u8 | (executable_bit << 3) | (0u8
                << 2) | (1u8 << 1) | 0x1u8) == 0x93u8) by (bit_vector);
            assert(granularity_bit == 1 ==> ((granularity_bit << 3) | (1u8 << 2) | (0u8 << 1))
                == 0b1100u8) by (bit_vector);
            assert(granularity_bit == 0 ==> ((granularity_bit << 3) | (1u8 << 2) | (0u8 << 1))
                == 0b0100u8) by (bit_vector);
        }
        let b = base as u64;
        let l = limit as u64;
        let limit_low = l & 0xFFFF;
        let base_low = (b & 0xFF_FFFF) << 16;
        let access_bits = (access as u64) << 40;
        let limit_high = ((l >> 16) & 0xF) << 48;
        let flag_bits = ((flags as u64) & 0xF) << 52;
        let base_high = (b >> 24) << 56;
        let v = limit_low | base_low | access_bits | limit_high | flag_bits | base_high;
        proof {
            lemma_gdt_fields(base, limit, access, flags);
        }
        GdtDescriptor(v)
    }

    pub fn base(&self) -> (r: u32)
        ensures
            r == gdt_base(self.0),
    {
        let mut base = read_bits(self.0, 16, 24);
        let upper = read_bits(self.0, 56, 8);
        base = base | (upper << 24);
        #[verifier::truncate]
        (base as u32)
    }

    pub fn limit(&self) -> (r: u32)
        ensures
            r == gdt_limit(self.0),
    {
        let mut limit = read_bits(self.0, 0, 16);
        let upper = read_bits(self.0, 48, 4);
        limit = limit | (upper << 16);
        #[verifier::truncate]
        (limit as u32)
    }

    pub fn access(&self) -> (r: u8)
        ensures
            r == gdt_access(self.0),
    {
        #[verifier::truncate]
        (read_bits(self.0, 40, 8) as u8)
    }

    pub fn flags(&self) -> (r: u8)
        ensures
            r == gdt_flags(self.0),
    {
        #[verifier::truncate]
        (read_bits(self.0, 52, 4) as u8)
    }

    /// `len` bits of the descriptor starting at bit `shift`.
    pub fn bits(&self, shift: usize, len: usize) -> (r: u64)
        requires
            shift < 64,
            0 < len < 64,
        ensures
            r == bit_field(self.0, shift as u64, len as u64),
    {
        read_bits(self.0, shift, len)
    }
}

/// The kernel's table: the null descriptor, then a flat 4 GiB code
/// segment and a flat 4 GiB data segment.
pub fn table() -> (r: Vec<GdtDescriptor>)
    ensures
        r@.len() == 3,
        r@[0].0 == 0,
        r@[1].0 == gdt_entry(0, 0xF_FFFF, access_byte(true), segment_flags(Granularity::KiloBytes)),
        r@[2].0 == gdt_entry(0, 0xF_FFFF, access_byte(false), segment_flags(Granularity::KiloBytes)),
{
    let mut r: Vec<GdtDescriptor> = Vec::new();
    r.push(GdtDescriptor::null());
    r.push(GdtDescriptor::new(0, 0xF_FFFF, Granularity::KiloBytes, true));
    r.push(GdtDescriptor::new(0, 0xF_FFFF, Granularity::KiloBytes, false));
    r
}

} // verus!
