use kernel_core::memory::{AllocError, AllocHeader, Allocator};
use kernel_core::memory_map::{largest_available, parse_memory_map, MmapType};

fn record(base: u64, len: u64, kind: u32) -> Vec<u8> {
    let mut r = Vec::new();
    r.extend_from_slice(&20u32.to_le_bytes());
    r.extend_from_slice(&base.to_le_bytes());
    r.extend_from_slice(&len.to_le_bytes());
    r.extend_from_slice(&kind.to_le_bytes());
    r
}

fn map(records: &[(u64, u64, u32)]) -> Vec<u8> {
    let mut r = Vec::new();
    for (b, l, k) in records {
        r.extend(record(*b, *l, *k));
    }
    r
}

fn heap(base: u64, len: u64) -> Allocator {
    let mut a = Allocator::new();
    assert_eq!(Ok(()), a.init(&map(&[(base, len, 1)])));
    a
}

#[test]
fn new_allocator_has_null_heap_root() {
    assert_eq!(0, Allocator::new().heap_root());
}

#[test]
fn header_packs_length_and_flag() {
    let mut h = AllocHeader::new(100);
    assert_eq!(100, h.len());
    assert_eq!(200, h.len);
    assert!(!h.is_occupied());
    assert!(!h.next_header_is_valid());
    h.set_occupied();
    assert!(h.is_occupied());
    assert_eq!(201, h.len);
    assert_eq!(100, h.len());
    h.set_len(40);
    assert_eq!(40, h.len());
    assert!(h.is_occupied());
    h.set_vacant();
    assert!(!h.is_occupied());
    assert_eq!(40, h.len());
    assert_eq!(0, h.next_header_addr());
}

#[test]
fn memory_map_records_are_decoded() {
    let bytes = map(&[(0, 0x9fc00, 1), (0x100000, 0x7ee0000, 1), (0xf0000, 0x10000, 2), (7, 8, 9)]);
    let es = parse_memory_map(&bytes);
    assert_eq!(4, es.len());
    assert_eq!(0x100000, es[1].addr);
    assert_eq!(0x7ee0000, es[1].len);
    assert_eq!(MmapType::Available, es[1].ty);
    assert_eq!(MmapType::Reserved, es[2].ty);
    assert_eq!(MmapType::Unknown, es[3].ty);
    assert_eq!(20, es[0].size);
    assert_eq!(Some(1), largest_available(&es));
}

#[test]
fn trailing_bytes_of_the_map_are_ignored() {
    let mut bytes = map(&[(0x1000, 0x100, 1)]);
    bytes.extend_from_slice(&[1, 2, 3]);
    assert_eq!(1, parse_memory_map(&bytes).len());
}

#[test]
fn largest_region_ties_go_to_the_first() {
    let bytes = map(&[(0x1000, 0x800, 2), (0x2000, 0x400, 1), (0x8000, 0x400, 1)]);
    assert_eq!(Some(1), largest_available(&parse_memory_map(&bytes)));
    let mut a = Allocator::new();
    assert_eq!(Ok(()), a.init(&bytes));
    assert_eq!(0x2000, a.heap_root());
}

#[test]
fn init_without_available_memory_fails() {
    let mut a = Allocator::new();
    let bytes = map(&[(0x1000, 0x800, 2), (0x2000, 0, 1)]);
    assert_eq!(Err(AllocError::NoAvailableMemory), a.init(&bytes));
    assert_eq!(Err(AllocError::NoAvailableMemory), a.init(&[]));
}

#[test]
fn init_with_unaddressable_region_fails() {
    let mut a = Allocator::new();
    let bytes = map(&[(0x1_0000_0000, 0x1000, 1)]);
    assert_eq!(Err(AllocError::UnusableRegion), a.init(&bytes));
    let tiny = map(&[(0x1000, 4, 1)]);
    assert_eq!(Err(AllocError::UnusableRegion), a.init(&tiny));
}

#[test]
fn first_allocation_follows_the_header() {
    let mut a = heap(0x1000, 0x1000);
    assert_eq!(Ok(0x1008), a.allocate(12, 4));
    // 12 + 8 rounded to 4 is 20 bytes: the next block starts at 0x1014
    assert_eq!(Ok(0x101C), a.allocate(16, 8));
}

#[test]
fn round_trip_reuses_the_freed_block() {
    let mut a = heap(0x1000, 0x1000);
    let p = a.allocate(12, 4).unwrap();
    let q = a.allocate(32, 4).unwrap();
    assert_eq!(Ok(()), a.deallocate(p, 12, 4));
    assert_eq!(Ok(p), a.allocate(12, 4));
    assert_eq!(Ok(()), a.deallocate(p, 12, 4));
    assert_eq!(Ok(p), a.allocate(4, 4));
    assert_ne!(p, q);
}

#[test]
fn alignment_of_small_alignments() {
    let mut a = heap(0x1000, 0x1000);
    for (size, align) in [(3u32, 1u32), (5, 2), (7, 4), (1, 4), (9, 2)] {
        let p = a.allocate(size, align).unwrap();
        assert_eq!(0, p % align);
    }
}

#[test]
fn large_alignment_pads_after_the_header() {
    let mut a = heap(0x1000, 0x1000);
    // 8 % 16 = 8 bytes of padding after the header
    assert_eq!(Ok(0x1010), a.allocate(16, 16));
}

#[test]
fn exhaustion_is_reported() {
    let mut a = heap(0x1000, 64);
    assert_eq!(Ok(0x1008), a.allocate(40, 4));
    assert_eq!(Err(AllocError::OutOfMemory), a.allocate(20, 4));
    assert_eq!(Err(AllocError::OutOfMemory), a.allocate(65, 1));
}

#[test]
fn requesting_more_than_the_region_fails() {
    let mut a = heap(0x1000, 0x100);
    assert_eq!(Err(AllocError::OutOfMemory), a.allocate(0x100, 1));
    let mut total = 0u32;
    loop {
        match a.allocate(16, 4) {
            Ok(_) => total += 16,
            Err(e) => {
                assert_eq!(AllocError::OutOfMemory, e);
                break;
            }
        }
    }
    assert!(total <= 0x100);
}

#[test]
fn freed_neighbours_are_not_merged() {
    let mut a = heap(0x1000, 0x1000);
    let p = a.allocate(12, 4).unwrap();
    let q = a.allocate(12, 4).unwrap();
    assert_eq!(Ok(()), a.deallocate(p, 12, 4));
    assert_eq!(Ok(()), a.deallocate(q, 12, 4));
    // two vacant 20-byte blocks cannot hold a 40-byte block
    assert_eq!(Ok(0x1000 + 40 + 8), a.allocate(32, 4));
}

#[test]
fn unknown_pointers_are_rejected() {
    let mut a = heap(0x1000, 0x100);
    assert_eq!(Err(AllocError::UnknownPointer), a.deallocate(0x10, 4, 4));
    assert_eq!(Err(AllocError::UnknownPointer), a.deallocate(0x1100, 4, 4));
    let p = a.allocate(8, 4).unwrap();
    assert_eq!(Ok(()), a.deallocate(p, 8, 4));
}

#[test]
fn whole_tail_is_taken_when_no_header_fits_after() {
    let mut a = heap(0x1000, 24);
    assert_eq!(Ok(0x1008), a.allocate(12, 4));
    assert_eq!(Err(AllocError::OutOfMemory), a.allocate(1, 1));
}
