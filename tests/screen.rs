use kernel_core::framebuffer::{Color, Dimensions, FrameBuffer, Point, Rect};
use kernel_core::multiboot::{parse_multiboot_header, verify_mutliboot_magic, MultibootHeader};
use kernel_core::vga::{Cursor, Writer};

fn header(width: u32, height: u32, pitch: u32) -> MultibootHeader {
    MultibootHeader {
        flags: 1 << 12,
        mem_lower: 0,
        mem_upper: 0,
        boot_device: 0,
        cmdline: 0,
        mods_count: 0,
        mods_addr: 0,
        syms1: 0,
        syms2: 0,
        syms3: 0,
        syms4: 0,
        mmap_length: 0,
        mmap_addr: 0,
        drives_length: 0,
        drives_addr: 0,
        config_table: 0,
        boot_loader_name: 0,
        apm_table: 0,
        vbe_control_info: 0,
        vbe_mode_info: 0,
        vbe_mode: 0,
        vbe_interface_seg: 0,
        vbe_interface_off: 0,
        vbe_interface_len: 0,
        framebuffer_addr: 0xfd00_0000,
        framebuffer_pitch: pitch,
        framebuffer_width: width,
        framebuffer_height: height,
        framebuffer_bpp: 32,
        framebuffer_type: 1,
        color_info: [0; 5],
    }
}

#[test]
fn multiboot_magic() {
    assert!(verify_mutliboot_magic(0x2BADB002));
    assert!(!verify_mutliboot_magic(0x1BADB002));
    assert!(parse_multiboot_header(0x2BADB002, &header(4, 4, 16)));
}

#[test]
fn colour_words() {
    assert_eq!(0xFFFF_0000, Color::new_rgb(255, 0, 0).as_u32());
    assert_eq!(0x8000_FF00, Color::new_rgba(0, 255, 0, 128).as_u32());
    assert_eq!(0x0001_0203, Color::new_rgba(1, 2, 3, 0).as_u32());
}

#[test]
fn point_index_needs_positive_coordinates() {
    let fb = FrameBuffer::new(&header(10, 5, 40));
    assert_eq!(Some(23), Point::new(3, 2).index(&fb));
    assert_eq!(None, Point::new(0, 2).index(&fb));
    assert_eq!(None, Point::new(-1, 2).index(&fb));
}

#[test]
fn rectangles_are_clipped_and_presented() {
    let mut fb = FrameBuffer::new(&header(4, 3, 24));
    let red = Color::new_rgb(255, 0, 0);
    fb.draw_rect(&Rect::new(Point::new(-1, -1), Dimensions::new(2, 2), red));
    fb.draw_rect(&Rect::new(Point::new(3, 2), Dimensions::new(5, 5), red));
    fb.present();
    let back = fb.back_pixels();
    assert_eq!(red.as_u32(), back[0]);
    assert_eq!(0, back[1]);
    assert_eq!(0, back[4]);
    assert_eq!(red.as_u32(), back[11]);
    let front = fb.front_pixels();
    // six pixels per line in front, four in back
    assert_eq!(red.as_u32(), front[0]);
    assert_eq!(red.as_u32(), front[2 * 6 + 3]);
    assert_eq!(0, front[4]);
    assert_eq!(18, front.len());
}

#[test]
fn frames_start_from_black() {
    let mut fb = FrameBuffer::new(&header(2, 2, 8));
    let blue = Color::new_rgb(0, 0, 255);
    fb.clear(Some(blue));
    assert!(fb.back_pixels().iter().all(|p| *p == blue.as_u32()));
    fb.present_frame(&[Rect::new(Point::new(1, 1), Dimensions::new(1, 1), blue)]);
    assert_eq!(vec![0, 0, 0, blue.as_u32()], fb.front_pixels());
}

#[test]
fn cursor_wraps_at_line_end() {
    let mut c = Cursor::new();
    c.x = 79;
    assert_eq!(79, c.index());
    c.next();
    assert_eq!((0, 1), (c.x, c.y));
    c.new_line();
    assert_eq!((0, 2), (c.x, c.y));
    assert_eq!(160, c.index());
}

#[test]
fn console_writes_and_scrolls() {
    let mut w = Writer::new();
    w.write_str(b"hi\nyo");
    assert_eq!(b'h', w.cell(0).unicode);
    assert_eq!(0x0F, w.cell(0).attributes);
    assert_eq!(b'y', w.cell(80).unicode);
    assert_eq!((2, 1), w.cursor_position());
    for _ in 0..24 {
        w.write_byte(b'\n');
    }
    // the second line is now the top line
    assert_eq!(b'y', w.cell(0).unicode);
    assert_eq!(b' ', w.cell(80 * 24).unicode);
    assert_eq!((0, 24), w.cursor_position());
    w.clear();
    assert_eq!(b' ', w.cell(0).unicode);
}

#[test]
fn cursor_moves_below_the_screen() {
    let mut c = Cursor::new();
    c.y = 30;
    c.x = 79;
    let before = c.index();
    c.next();
    assert_eq!(before + 1, c.index());
    assert_eq!((0, 31), (c.x, c.y));
}
