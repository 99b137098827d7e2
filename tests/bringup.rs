use kernel_core::gdt::table;
use kernel_core::idt::{
    descriptor_table_register, fill_table, vector_kind, InterruptTable, VectorKind, NUM_GATE_DESC,
};
use kernel_core::kernel::SquareDemo;
use kernel_core::memory::Allocator;
use kernel_core::pic::end_of_interrupt;
use kernel_core::ps2::{
    enable_interrupts_config, identify, init_config, KeyCode, KeyState, KeyboardInput, KeyboardKind,
};

fn press(k: KeyCode) -> KeyboardInput {
    KeyboardInput { key_code: k, state: KeyState::Pressed }
}

fn release(k: KeyCode) -> KeyboardInput {
    KeyboardInput { key_code: k, state: KeyState::Released }
}

#[test]
fn demo_squares_slide_and_wrap() {
    let mut d = SquareDemo::new();
    d.step(&[]);
    assert_eq!(1, d.red_rect.tl.x);
    assert_eq!(4, d.yellow_rect.tl.y);
    for _ in 0..100 {
        d.step(&[]);
    }
    // 404 passed the wrap point on the 101st frame
    assert_eq!(0, d.yellow_rect.tl.y);
    assert_eq!(101, d.red_rect.tl.x);
}

#[test]
fn demo_player_follows_held_key() {
    let mut d = SquareDemo::new();
    d.step(&[press(KeyCode::KeyW)]);
    assert_eq!(384, d.player_rect.tl.y);
    d.step(&[]);
    assert_eq!(368, d.player_rect.tl.y);
    d.step(&[release(KeyCode::KeyA)]);
    assert_eq!(352, d.player_rect.tl.y);
    d.step(&[release(KeyCode::KeyW), press(KeyCode::KeyD)]);
    assert_eq!(416, d.player_rect.tl.x);
    d.step(&[release(KeyCode::KeyD)]);
    assert_eq!(416, d.player_rect.tl.x);
    assert_eq!(None, d.last_key_pressed);
    let rects = d.frame_rects(1024, 768);
    assert_eq!(6, rects.len());
    assert_eq!(924, rects[3].tl.x);
    assert_eq!(668, rects[5].tl.y);
    assert_eq!(-100, rects[4].tl.x);
}

#[test]
fn ps2_configuration_bits() {
    assert_eq!(0xAE, init_config(0xFF));
    assert_eq!(0x20, init_config(0x71));
    assert_eq!(0x21, enable_interrupts_config(0x20));
    assert_eq!(KeyboardKind::Mf2, identify(0xAB, 0x83));
    assert_eq!(KeyboardKind::Unknown, identify(0xAB, 0x41));
}

#[test]
fn vectors_get_their_handler_kinds() {
    assert_eq!(VectorKind::DoubleFault, vector_kind(8));
    assert_eq!(VectorKind::MachineCheck, vector_kind(18));
    assert_eq!(VectorKind::Keyboard, vector_kind(33));
    assert_eq!(VectorKind::ErrorCode, vector_kind(14));
    assert_eq!(VectorKind::Pic, vector_kind(32));
    assert_eq!(VectorKind::Pic, vector_kind(47));
    assert_eq!(VectorKind::Default, vector_kind(48));
    assert_eq!(VectorKind::Default, vector_kind(0));
    assert_eq!(VectorKind::Default, vector_kind(255));
}

#[test]
fn table_is_filled_for_every_vector() {
    let mut t = InterruptTable::new();
    let handlers: Vec<u32> = (0..NUM_GATE_DESC as u32).map(|v| 0x0010_0000 + 16 * v).collect();
    fill_table(&mut t, &handlers);
    let g = t.entry(0x80);
    assert_eq!(0x0010_0800, g.offset());
    assert_eq!(8, g.selector());
    assert!(g.present());
}

#[test]
fn descriptor_table_registers() {
    assert_eq!(0x1234_0017, descriptor_table_register(24, 0x1234));
    assert_eq!(2047, descriptor_table_register(2048, 0) & 0xFFFF);
}

#[test]
fn gdt_table_is_flat() {
    let t = table();
    assert_eq!(3, t.len());
    assert_eq!(0, t[0].0);
    assert_eq!(0x00CF_9B00_0000_FFFF, t[1].0);
    assert_eq!(0x00CF_9300_0000_FFFF, t[2].0);
}

#[test]
fn end_of_interrupt_commands() {
    assert_eq!(vec![(0x20, 0x20)], end_of_interrupt(33));
    assert_eq!(vec![(0xA0, 0x20), (0x20, 0x20)], end_of_interrupt(40));
}

#[test]
fn chain_headers_show_blocks() {
    let mut a = Allocator::new();
    let mut map = Vec::new();
    map.extend_from_slice(&20u32.to_le_bytes());
    map.extend_from_slice(&0x2000u64.to_le_bytes());
    map.extend_from_slice(&0x100u64.to_le_bytes());
    map.extend_from_slice(&1u32.to_le_bytes());
    a.init(&map).unwrap();
    assert_eq!(1, a.headers().len());
    let p = a.allocate(12, 4).unwrap();
    let _q = a.allocate(12, 4).unwrap();
    a.deallocate(p, 12, 4).unwrap();
    let hs = a.headers();
    assert_eq!(3, hs.len());
    assert_eq!(0x2000, hs[0].0);
    assert!(!hs[0].1.is_occupied());
    assert_eq!(20, hs[0].1.len());
    assert_eq!(0x2014, hs[1].0);
    assert!(hs[1].1.is_occupied());
    assert_eq!(0x2028, hs[2].0);
    assert_eq!(0x100 - 40, hs[2].1.len());
    assert_eq!(0x2014, hs[0].1.next_header_addr());
    assert_eq!(0x2028, hs[1].1.next_header_addr());
    assert_eq!(0, hs[2].1.next_header_addr());
}
