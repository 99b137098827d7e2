//! Descriptors of the interrupt descriptor table.
use vstd::prelude::*;
use crate::gdt::{bit_field, read_bits};

verus! {

/// Number of descriptors in the interrupt descriptor table.
pub const NUM_GATE_DESC: usize = 256;

/// Entries of the global descriptor table that a selector can name.
#[derive(PartialEq, Eq, Structural, Clone, Copy, Debug)]
pub enum GdtIndex {
    Code,
    Data,
}

pub open spec fn gdt_index_value(i: GdtIndex) -> u16 {
    match i {
        GdtIndex::Code => 1,
        GdtIndex::Data => 2,
    }
}

impl GdtIndex {
    /// Position of the entry in the table.
    pub fn value(&self) -> (r: u16)
        ensures
            r == gdt_index_value(*self),
    {
        match self {
            GdtIndex::Code => 1,
            GdtIndex::Data => 2,
        }
    }
}

/// A selector of a GDT entry with table indicator 0 and privilege 0.
#[derive(Clone, Copy, Debug)]
pub struct SegmentSelector(pub u16);

impl SegmentSelector {
    pub fn new(index: GdtIndex) -> (r: Self)
        ensures
            r.0 == gdt_index_value(index) * 8,
    {
        let v = index.value();
        assert(v << 3 == v * 8) by (bit_vector)
            requires
                v <= 2,
        ;
        SegmentSelector(v << 3)
    }

    pub fn encoded_value(&self) -> (r: u16)
        ensures
            r == self.0,
    {
        self.0
    }
}

/// Kinds of interrupt descriptor.
#[derive(PartialEq, Eq, Structural, Clone, Copy, Debug)]
pub enum GateType {
    Task,
    Interrupt16,
    Trap16,
    Interrupt32,
    Trap32,
}

pub open spec fn gate_type_value(t: GateType) -> u8 {
    match t {
        GateType::Task => 0b0101,
        GateType::Interrupt16 => 0b0110,
        GateType::Trap16 => 0b0111,
        GateType::Interrupt32 => 0b1110,
        GateType::Trap32 => 0b1111,
    }
}

impl GateType {
    /// The type nibble of the descriptor's attribute byte.
    pub fn value(&self) -> (r: u8)
        ensures
            r == gate_type_value(*self),
    {
        match self {
            GateType::Task => 0b0101,
            GateType::Interrupt16 => 0b0110,
            GateType::Trap16 => 0b0111,
            GateType::Interrupt32 => 0b1110,
            GateType::Trap32 => 0b1111,
        }
    }
}

/// The eight bytes of a present descriptor of privilege `dpl` as one
/// little-endian word.
pub open spec fn gate_entry(offset: u32, selector: u16, gate_type: u8, dpl: u8) -> u64 {
    let o = offset as u64;
    let attributes = ((gate_type as u64) | ((dpl as u64) << 5) | 0x80) << 40;
    (o & 0xFFFF) | ((selector as u64) << 16) | attributes | ((o >> 16) << 48)
}

pub open spec fn gate_offset(v: u64) -> u32 {
    (bit_field(v, 0, 16) | (bit_field(v, 48, 16) << 16)) as u32
}

pub open spec fn gate_selector(v: u64) -> u16 {
    bit_field(v, 16, 16) as u16
}

pub open spec fn gate_type_bits(v: u64) -> u8 {
    bit_field(v, 40, 4) as u8
}

pub open spec fn gate_dpl(v: u64) -> u8 {
    bit_field(v, 45, 2) as u8
}

pub open spec fn gate_present(v: u64) -> bool {
    bit_field(v, 47, 1) == 1
}

proof fn lemma_gate_fields(offset: u32, selector: u16, gate_type: u8)
    requires
        gate_type < 16,
    ensures
        gate_offset(gate_entry(offset, selector, gate_type, 0)) == offset,
        gate_selector(gate_entry(offset, selector, gate_type, 0)) == selector,
        gate_type_bits(gate_entry(offset, selector, gate_type, 0)) == gate_type,
        gate_dpl(gate_entry(offset, selector, gate_type, 0)) == 0,
        gate_present(gate_entry(offset, selector, gate_type, 0)),
{
    let v = gate_entry(offset, selector, gate_type, 0);
    assert(gate_offset(v) == offset && gate_selector(v) == selector && gate_type_bits(v) == gate_type
        && gate_dpl(v) == 0 && gate_present(v)) by (bit_vector)
        requires
            v == gate_entry(offset, selector, gate_type, 0),
            gate_type < 16,
    ;
}

/// One interrupt descriptor.
#[derive(Clone, Copy, Debug)]
pub struct GateDescriptor(pub u64);

impl GateDescriptor {
    /// An absent descriptor.
    pub fn null() -> (r: Self)
        ensures
            r.0 == 0,
    {
        GateDescriptor(0)
    }

    /// A present ring-0 descriptor to the handler at `isr_offset`.
    pub fn new(isr_offset: u32, selector: SegmentSelector, gate_type: GateType) -> (r: Self)
        ensures
            r.0 == gate_entry(isr_offset, selector.0, gate_type_value(gate_type), 0),
            gate_offset(r.0) == isr_offset,
            gate_selector(r.0) == selector.0,
            gate_type_bits(r.0) == gate_type_value(gate_type),
            gate_dpl(r.0) == 0,
            gate_present(r.0),
    {
        let dpl: u8 = 0;
        let o = isr_offset as u64;
        let attributes = ((gate_type.value() as u64) | ((dpl as u64) << 5) | 0x80) << 40;
        let v = (o & 0xFFFF) | ((selector.encoded_value() as u64) << 16) | attributes | ((o >> 16)
            << 48);
        proof {
            lemma_gate_fields(isr_offset, selector.0, gate_type_value(gate_type));
        }
        GateDescriptor(v)
    }

    pub fn offset(&self) -> (r: u32)
        ensures
            r == gate_offset(self.0),
    {
        let mut base = read_bits(self.0, 0, 16);
        let upper = read_bits(self.0, 48, 16);
        base = base | (upper << 16);
        #[verifier::truncate]
        (base as u32)
    }

    pub fn selector(&self) -> (r: u16)
        ensures
            r == gate_selector(self.0),
    {
        #[verifier::truncate]
        (read_bits(self.0, 16, 16) as u16)
    }

    pub fn gate_type(&self) -> (r: u8)
        ensures
            r == gate_type_bits(self.0),
    {
        #[verifier::truncate]
        (read_bits(self.0, 40, 4) as u8)
    }

    pub fn dpl(&self) -> (r: u8)
        ensures
            r == gate_dpl(self.0),
    {
        #[verifier::truncate]
        (read_bits(self.0, 45, 2) as u8)
    }

    pub fn present(&self) -> (r: bool)
        ensures
            r == gate_present(self.0),
    {
        read_bits(self.0, 47, 1) == 1
    }

    /// `len` bits of the descriptor starting at bit `shift`.
    pub fn bits(&self, shift: usize, len: usize) -> (r: u64)
        requires
            shift < 64,
            0 < len < 64,
        ensures
            r == bit_field(self.0, shift as u64, len as u64),
    {
        read_bits(self.0, shift, len)
    }
}

/// The interrupt descriptor table: one descriptor per vector.
pub struct InterruptTable {
    entries: Vec<GateDescriptor>,
}

impl View for InterruptTable {
    type V = Seq<u64>;

    closed spec fn view(&self) -> Seq<u64> {
        self.entries@.map_values(|g: GateDescriptor| g.0)
    }
}

impl InterruptTable {
    /// A table of absent descriptors.
    pub fn new() -> (r: Self)
        ensures
            r@.len() == NUM_GATE_DESC,
            forall|i: int| 0 <= i < NUM_GATE_DESC ==> #[trigger] r@[i] == 0,
    {
        let mut entries: Vec<GateDescriptor> = Vec::new();
        let mut i: usize = 0;
        while i < NUM_GATE_DESC
            invariant
                i <= NUM_GATE_DESC,
                entries@.len() == i,
                forall|j: int| 0 <= j < i ==> #[trigger] entries@[j].0 == 0,
            decreases NUM_GATE_DESC - i,
        {
            entries.push(GateDescriptor::null());
            i = i + 1;
        }
        InterruptTable { entries }
    }

    /// Installs `descriptor` as the descriptor of vector `entry`.
    pub fn set_entry(&mut self, descriptor: GateDescriptor, entry: usize)
        requires
            entry < old(self)@.len(),
        ensures
            final(self)@ == old(self)@.update(entry as int, descriptor.0),
    {
        self.entries.set(entry, descriptor);
        assert(self@ =~= old(self)@.update(entry as int, descriptor.0));
    }

    /// The descriptor of vector `entry`.
    pub fn entry(&self, entry: usize) -> (r: GateDescriptor)
        requires
            entry < self@.len(),
        ensures
            r.0 == self@[entry as int],
    {
        self.entries[entry]
    }
}

/// What kind of handler a vector gets.
#[derive(PartialEq, Eq, Structural, Clone, Copy, Debug)]
pub enum VectorKind {
    /// Reports the vector to the handler registry.
    Default,
    /// Like `Default`, for exceptions that push an error code.
    ErrorCode,
    /// Like `Default`, then acknowledges the interrupt controllers.
    Pic,
    DoubleFault,
    MachineCheck,
    Keyboard,
}

/// The exceptions that push an error code, apart from the double fault
/// and the machine check, which have handlers of their own.
pub open spec fn pushes_error_code(v: u8) -> bool {
    v == 10 || v == 11 || v == 12 || v == 13 || v == 14 || v == 17 || v == 21 || v == 29 || v == 30
}

pub open spec fn vector_kind_of(v: u8) -> VectorKind {
    if v == 8 {
        VectorKind::DoubleFault
    } else if v == 18 {
        VectorKind::MachineCheck
    } else if v == 33 {
        VectorKind::Keyboard
    } else if pushes_error_code(v) {
        VectorKind::ErrorCode
    } else if 32 <= v < 48 {
        VectorKind::Pic
    } else {
        VectorKind::Default
    }
}

/// The handler kind that the table installs for vector `v`.
pub fn vector_kind(v: u8) -> (r: VectorKind)
    ensures
        r == vector_kind_of(v),
{
    if v == 8 {
        VectorKind::DoubleFault
    } else if v == 18 {
        VectorKind::MachineCheck
    } else if v == 33 {
        VectorKind::Keyboard
    } else if v == 10 || v == 11 || v == 12 || v == 13 || v == 14 || v == 17 || v == 21 || v == 29
        || v == 30 {
        VectorKind::ErrorCode
    } else if 32 <= v && v < 48 {
        VectorKind::Pic
    } else {
        VectorKind::Default
    }
}

/// Fills the table: vector `v` gets a present 32-bit interrupt descriptor
/// in the code segment to the handler at `handlers[v]`.
pub fn fill_table(table: &mut InterruptTable, handlers: &[u32])
    requires
        old(table)@.len() == NUM_GATE_DESC,
        handlers@.len() == NUM_GATE_DESC,
    ensures
        final(table)@.len() == NUM_GATE_DESC,
        forall|v: int|
            0 <= v < NUM_GATE_DESC ==> #[trigger] final(table)@[v] == gate_entry(
                handlers@[v],
                (gdt_index_value(GdtIndex::Code) * 8) as u16,
                gate_type_value(GateType::Interrupt32),
                0,
            ),
{
    let mut v: usize = 0;
    while v < NUM_GATE_DESC
        invariant
            v <= NUM_GATE_DESC,
            table@.len() == NUM_GATE_DESC,
            handlers@.len() == NUM_GATE_DESC,
            forall|j: int|
                0 <= j < v ==> #[trigger] table@[j] == gate_entry(
                    handlers@[j],
                    (gdt_index_value(GdtIndex::Code) * 8) as u16,
                    gate_type_value(GateType::Interrupt32),
                    0,
                ),
        decreases NUM_GATE_DESC - v,
    {
        let gate = GateDescriptor::new(
            handlers[v],
            SegmentSelector::new(GdtIndex::Code),
            GateType::Interrupt32,
        );
        table.set_entry(gate, v);
        v = v + 1;
    }
}

/// The value loaded into a descriptor-table register: the table's size in
/// bytes minus one in the low 16 bits, its address above them.
pub fn descriptor_table_register(size: u64, addr: u64) -> (r: u64)
    requires
        1 <= size <= 0x1_0000,
        addr < 0x1_0000_0000_0000,
    ensures
        r % 0x1_0000 == size - 1,
        r / 0x1_0000 == addr,
{
    let r = (size - 1) | (addr << 16);
    assert(r % 0x1_0000 == (size - 1) as u64 && r / 0x1_0000 == addr) by (bit_vector)
        requires
            r == (size - 1) as u64 | (addr << 16),
            1 <= size <= 0x1_0000,
            addr < 0x1_0000_0000_0000,
    ;
    r
}

} // verus!
