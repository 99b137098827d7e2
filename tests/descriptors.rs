use kernel_core::gdt::{GdtDescriptor, Granularity};
use kernel_core::idt::{
    GateDescriptor, GateType, GdtIndex, InterruptTable, SegmentSelector, NUM_GATE_DESC,
};

#[test]
fn gdt_descriptors() {
    let gdt = GdtDescriptor::new(0xdeaf, 0xff33, Granularity::KiloBytes, false);
    assert_eq!(0xdeaf, gdt.base());
    assert_eq!(0xff33, gdt.limit());
    assert_eq!(0b1100, gdt.flags());
    let gdt = GdtDescriptor::new(0xff33, 0xdeaf, Granularity::Bytes, true);
    assert_eq!(0xff33, gdt.base());
    assert_eq!(0xdeaf, gdt.limit());
    assert_eq!(0b0100, gdt.flags());
}

#[test]
fn flat_code_segment_encoding() {
    let gdt = GdtDescriptor::new(0, 0xFFFFF, Granularity::KiloBytes, true);
    assert_eq!(0x00CF_9B00_0000_FFFF, gdt.0);
    assert_eq!(0x9B, gdt.access());
    let data = GdtDescriptor::new(0, 0xFFFFF, Granularity::KiloBytes, false);
    assert_eq!(0x00CF_9300_0000_FFFF, data.0);
    let high = GdtDescriptor::new(0x1234_5678, 0xABCDE, Granularity::Bytes, false);
    assert_eq!(0x1234_5678, high.base());
    assert_eq!(0xABCDE, high.limit());
    assert_eq!(0x93, high.access());
    assert_eq!(0, GdtDescriptor::null().0);
    assert_eq!(0xCDE, high.bits(0, 12));
}

fn check_gate(isr_offset: u32, selector: SegmentSelector, gate_type: GateType) {
    let gate = GateDescriptor::new(isr_offset, selector, gate_type);
    assert_eq!(gate.offset(), isr_offset);
    assert_eq!(gate.selector(), selector.encoded_value());
    assert_eq!(gate.gate_type(), gate_type.value());
    assert_eq!(0, gate.dpl());
    assert!(gate.present());
}

#[test]
fn idt_descriptors() {
    check_gate(0, SegmentSelector::new(GdtIndex::Data), GateType::Interrupt32);
    check_gate(0xdeafdeaf, SegmentSelector::new(GdtIndex::Data), GateType::Task);
    check_gate(0xd2203122, SegmentSelector::new(GdtIndex::Data), GateType::Task);
    check_gate(0x0010_2030, SegmentSelector::new(GdtIndex::Code), GateType::Trap32);
}

#[test]
fn interrupt_gate_encoding() {
    let gate = GateDescriptor::new(0x1234_5678, SegmentSelector::new(GdtIndex::Code), GateType::Interrupt32);
    assert_eq!(0x1234_8E00_0008_5678, gate.0);
    assert_eq!(8, SegmentSelector::new(GdtIndex::Code).encoded_value());
    assert_eq!(16, SegmentSelector::new(GdtIndex::Data).encoded_value());
    assert_eq!(2, GdtIndex::Data.value());
    assert_eq!(0b0111, GateType::Trap16.value());
    assert_eq!(0b0110, GateType::Interrupt16.value());
    assert!(!GateDescriptor::null().present());
}

#[test]
fn table_entries_are_set() {
    let mut t = InterruptTable::new();
    assert_eq!(0, t.entry(0x80).0);
    let gate = GateDescriptor::new(0xdead_beef, SegmentSelector::new(GdtIndex::Code), GateType::Interrupt32);
    t.set_entry(gate, 0x80);
    assert_eq!(gate.0, t.entry(0x80).0);
    assert_eq!(0, t.entry(0x7F).0);
    assert_eq!(0, t.entry(NUM_GATE_DESC - 1).0);
}
