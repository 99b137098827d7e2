//! A linear 32-bit framebuffer drawn through a back buffer: rectangles are
//! painted into the back buffer, clipped to the screen, and a finished
//! frame is copied to the front buffer row by row.
use vstd::prelude::*;
use crate::multiboot::{MultibootHeader, FRAMEBUFFER_INFO_FLAG};
use vstd::arithmetic::div_mod::lemma_fundamental_div_mod;

verus! {

/// A colour laid out as the pixel's bytes: blue, green, red, alpha.
#[derive(Clone, Copy, PartialEq, Eq, Structural, Debug)]
pub struct Color {
    pub b: u8,
    pub g: u8,
    pub r: u8,
    pub a: u8,
}

/// The pixel word of a colour: its four bytes read little-endian.
pub open spec fn color_word(c: Color) -> u32 {
    (c.b as int + c.g as int * 0x100 + c.r as int * 0x1_0000 + c.a as int * 0x100_0000) as u32
}

impl Color {
    /// An opaque colour.
    pub fn new_rgb(r: u8, g: u8, b: u8) -> (c: Self)
        ensures
            c == (Color { b, g, r, a: 255 }),
    {
        Color { r, g, b, a: 255 }
    }

    pub fn new_rgba(r: u8, g: u8, b: u8, a: u8) -> (c: Self)
        ensures
            c == (Color { b, g, r, a }),
    {
        Color { r, g, b, a }
    }

    /// The pixel word written for this colour.
    pub fn as_u32(&self) -> (r: u32)
        ensures
            r == color_word(*self),
    {
        self.b as u32 + self.g as u32 * 0x100 + self.r as u32 * 0x1_0000 + self.a as u32 * 0x100_0000
    }
}

/// A position on the screen; it may lie outside it.
#[derive(Clone, Copy, Debug)]
pub struct Point {
    pub x: isize,
    pub y: isize,
}

impl Point {
    pub fn new(x: isize, y: isize) -> (p: Self)
        ensures
            p.x == x && p.y == y,
    {
        Point { x, y }
    }

    /// Index of the point in the back buffer when both coordinates are
    /// strictly positive, and nothing otherwise.
    pub fn index(&self, frame_buf: &FrameBuffer) -> (r: Option<usize>)
        requires
            self.y * frame_buf.screen_width() + self.x <= usize::MAX,
        ensures
            r == (if self.x > 0 && self.y > 0 {
                Some((self.y * frame_buf.screen_width() + self.x) as usize)
            } else {
                None
            }),
    {
        if self.x > 0 && self.y > 0 {
            let y = self.y as usize;
            let x = self.x as usize;
            assert(y * frame_buf.width + x <= usize::MAX);
            Some(y * frame_buf.width + x)
        } else {
            None
        }
    }
}

/// Width and height of a rectangle, in pixels.
#[derive(Clone, Copy, Debug)]
pub struct Dimensions(pub usize, pub usize);

impl Dimensions {
    pub fn new(width: usize, height: usize) -> (d: Self)
        ensures
            d.0 == width && d.1 == height,
    {
        Dimensions(width, height)
    }
}

/// A filled rectangle: top-left corner, size and colour.
#[derive(Clone, Copy, Debug)]
pub struct Rect {
    pub tl: Point,
    pub dimensions: Dimensions,
    pub color: Color,
}

impl Rect {
    pub fn new(top_left: Point, dimensions: Dimensions, color: Color) -> (r: Self)
        ensures
            r.tl == top_left,
            r.dimensions == dimensions,
            r.color == color,
    {
        Rect { tl: top_left, dimensions, color }
    }

    /// Corner and size leave room in `isize` for the far edges.
    pub open spec fn fits_isize(self) -> bool {
        &&& self.dimensions.0 <= isize::MAX
        &&& self.dimensions.1 <= isize::MAX
        &&& self.tl.x + self.dimensions.0 <= isize::MAX
        &&& self.tl.y + self.dimensions.1 <= isize::MAX
    }

    /// The screen cell `(x, y)` lies inside the rectangle.
    pub open spec fn covers(self, x: int, y: int) -> bool {
        &&& self.tl.x <= x < self.tl.x + self.dimensions.0
        &&& self.tl.y <= y < self.tl.y + self.dimensions.1
    }
}

proof fn lemma_cell_index(w: int, h: int, x: int, y: int)
    requires
        0 <= x < w,
        0 <= y < h,
    ensures
        0 <= y * w + x < w * h,
{
    assert(0 <= y * w + x < w * h) by (nonlinear_arith)
        requires
            0 <= x < w,
            0 <= y < h,
    ;
}

proof fn lemma_cell_distinct(w: int, x1: int, y1: int, x2: int, y2: int)
    requires
        0 <= x1 < w,
        0 <= x2 < w,
        0 <= y1,
        0 <= y2,
        x1 != x2 || y1 != y2,
    ensures
        y1 * w + x1 != y2 * w + x2,
{
    if y1 < y2 {
        assert(y1 * w + x1 < y2 * w + x2) by (nonlinear_arith)
            requires
                0 <= x1 < w,
                0 <= x2,
                y1 < y2,
        ;
    } else if y2 < y1 {
        assert(y2 * w + x2 < y1 * w + x1) by (nonlinear_arith)
            requires
                0 <= x2 < w,
                0 <= x1,
                y2 < y1,
        ;
    }
}

fn copy_pixels(v: &Vec<u32>) -> (r: Vec<u32>)
    ensures
        r@ == v@,
{
    let mut r: Vec<u32> = Vec::new();
    let mut i: usize = 0;
    while i < v.len()
        invariant
            i <= v@.len(),
            r@ == v@.subrange(0, i as int),
        decreases v@.len() - i,
    {
        r.push(v[i]);
        i = i + 1;
        assert(r@ =~= v@.subrange(0, i as int));
    }
    assert(v@.subrange(0, v@.len() as int) =~= v@);
    r
}

/// `back`, `w` pixels per line and `h` lines, with `rect` painted over the
/// part of it that lies on the screen.
pub open spec fn painted(back: Seq<u32>, w: int, h: int, rect: Rect) -> Seq<u32> {
    Seq::new(
        back.len(),
        |i: int|
            if i < w * h && rect.covers(i % w, i / w) {
                color_word(rect.color)
            } else {
                back[i]
            },
    )
}

/// `back` with each of `rects` painted in order.
pub open spec fn painted_all(back: Seq<u32>, w: int, h: int, rects: Seq<Rect>) -> Seq<u32>
    decreases rects.len(),
{
    if rects.len() == 0 {
        back
    } else {
        painted(painted_all(back, w, h, rects.drop_last()), w, h, rects.last())
    }
}

/// `front`, `line` pixels per line, showing the `w` by `h` frame `back`;
/// the padding at the end of each line keeps its pixels.
pub open spec fn shown(front: Seq<u32>, back: Seq<u32>, w: int, h: int, line: int) -> Seq<u32> {
    Seq::new(
        front.len(),
        |i: int|
            if i < line * h && i % line < w {
                back[(i / line) * w + i % line]
            } else {
                front[i]
            },
    )
}

/// Splits an index below `w * h` into its column and line.
proof fn lemma_cell_of(i: int, w: int, h: int)
    requires
        0 <= i < w * h,
        w >= 0,
        h >= 0,
    ensures
        w > 0,
        0 <= i % w < w,
        0 <= i / w < h,
        i == (i / w) * w + i % w,
{
    assert(w > 0) by (nonlinear_arith)
        requires
            0 <= i < w * h,
            w >= 0,
            h >= 0,
    ;
    lemma_fundamental_div_mod(i, w);
    assert(0 <= i % w < w);
    let y = i / w;
    assert(0 <= y < h) by (nonlinear_arith)
        requires
            i == w * y + i % w,
            0 <= i % w < w,
            0 <= i < w * h,
            w > 0,
    ;
    assert(i == y * w + i % w) by (nonlinear_arith)
        requires
            i == w * y + i % w,
    ;
}

/// A linear framebuffer of 32-bit pixels whose lines may be padded.
pub struct FrameBuffer {
    pub width: usize,
    pub height: usize,
    front_buffer: Vec<u32>,
    back_buffer: Vec<u32>,
    pitch: usize,
    is_padding: bool,
    bpp: u8,
    ty: u8,
}

impl FrameBuffer {
    pub closed spec fn screen_width(&self) -> int {
        self.width as int
    }

    pub closed spec fn screen_height(&self) -> int {
        self.height as int
    }

    /// Pixels per line of the front buffer, padding included.
    pub closed spec fn line_pixels(&self) -> int {
        self.pitch as int / 4
    }

    /// What the screen shows.
    pub closed spec fn front(&self) -> Seq<u32> {
        self.front_buffer@
    }

    /// The frame being drawn, `width` pixels per line.
    pub closed spec fn back(&self) -> Seq<u32> {
        self.back_buffer@
    }

    pub closed spec fn wf(&self) -> bool {
        &&& self.bpp == 32
        &&& self.width <= self.pitch / 4
        &&& self.width < 0x8000_0000
        &&& self.height < 0x8000_0000
        &&& self.front_buffer@.len() == (self.pitch / 4) * self.height
        &&& self.back_buffer@.len() == (self.pitch / 4) * self.height
        &&& self.is_padding == (self.pitch / 4 != self.width)
    }

    /// A copy of what the screen shows, `line_pixels` pixels per line.
    pub fn front_pixels(&self) -> (r: Vec<u32>)
        ensures
            r@ == self.front(),
    {
        copy_pixels(&self.front_buffer)
    }

    /// A copy of the frame being drawn, `width` pixels per line.
    pub fn back_pixels(&self) -> (r: Vec<u32>)
        ensures
            r@ == self.back(),
    {
        copy_pixels(&self.back_buffer)
    }

    /// A framebuffer of the geometry the boot loader reports, with both
    /// buffers black. The loader must report a 32-bit framebuffer.
    pub fn new(multiboot_header: &MultibootHeader) -> (r: Self)
        requires
            multiboot_header.flags & FRAMEBUFFER_INFO_FLAG != 0,
            multiboot_header.framebuffer_bpp == 32,
            multiboot_header.framebuffer_width <= multiboot_header.framebuffer_pitch / 4,
            multiboot_header.framebuffer_width < 0x8000_0000,
            multiboot_header.framebuffer_height < 0x8000_0000,
            (multiboot_header.framebuffer_pitch / 4) * multiboot_header.framebuffer_height
                <= usize::MAX,
        ensures
            r.wf(),
            r.screen_width() == multiboot_header.framebuffer_width,
            r.screen_height() == multiboot_header.framebuffer_height,
            r.line_pixels() == multiboot_header.framebuffer_pitch / 4,
            r.front() == Seq::new(r.front().len(), |i: int| 0u32),
            r.back() == Seq::new(r.back().len(), |i: int| 0u32),
    {
        let width = multiboot_header.framebuffer_width as usize;
        let height = multiboot_header.framebuffer_height as usize;
        let pitch = multiboot_header.framebuffer_pitch as usize;
        let bpp = multiboot_header.framebuffer_bpp as usize;
        let pixels_per_line = pitch / (bpp / 8);
        let is_padding = pixels_per_line != width;
        let front_buffer = vec![0u32; pixels_per_line * height];
        let back_buffer = vec![0u32; pixels_per_line * height];
        let r = FrameBuffer {
            front_buffer,
            back_buffer,
            bpp: multiboot_header.framebuffer_bpp,
            ty: multiboot_header.framebuffer_type,
            is_padding,
            width,
            height,
            pitch,
        };
        assert(r.front() =~= Seq::new(r.front().len(), |i: int| 0u32));
        assert(r.back() =~= Seq::new(r.back().len(), |i: int| 0u32));
        r
    }

    /// Clears the back buffer to `rect`-free black, draws each rectangle in
    /// order, then shows the frame.
    pub fn present_frame(&mut self, rects: &[Rect])
        requires
            old(self).wf(),
            forall|i: int| 0 <= i < rects@.len() ==> (#[trigger] rects@[i]).fits_isize(),
        ensures
            final(self).wf(),
            final(self).screen_width() == old(self).screen_width(),
            final(self).screen_height() == old(self).screen_height(),
            final(self).line_pixels() == old(self).line_pixels(),
            final(self).back() == painted_all(
                Seq::new(old(self).back().len(), |i: int| 0u32),
                old(self).screen_width(),
                old(self).screen_height(),
                rects@,
            ),
            final(self).front() == shown(
                old(self).front(),
                final(self).back(),
                old(self).screen_width(),
                old(self).screen_height(),
                old(self).line_pixels(),
            ),
    {
        self.clear(None);
        let ghost blank = Seq::new(old(self).back().len(), |i: int| 0u32);
        assert(self.back() =~= blank);
        let mut i: usize = 0;
        while i < rects.len()
            invariant
                self.wf(),
                i <= rects@.len(),
                forall|j: int| 0 <= j < rects@.len() ==> (#[trigger] rects@[j]).fits_isize(),
                self.width == old(self).width,
                self.height == old(self).height,
                self.line_pixels() == old(self).line_pixels(),
                self.front_buffer@ == old(self).front_buffer@,
                blank == Seq::new(old(self).back().len(), |i: int| 0u32),
                self.back() == painted_all(
                    blank,
                    self.width as int,
                    self.height as int,
                    rects@.subrange(0, i as int),
                ),
            decreases rects@.len() - i,
        {
            self.draw_rect(&rects[i]);
            assert(rects@.subrange(0, i + 1).drop_last() =~= rects@.subrange(0, i as int));
            i = i + 1;
        }
        assert(rects@.subrange(0, rects@.len() as int) =~= rects@);
        self.present();
    }

    /// Paints the part of `rect` that lies on the screen.
    pub fn draw_rect(&mut self, rect: &Rect)
        requires
            old(self).wf(),
            rect.fits_isize(),
        ensures
            final(self).wf(),
            final(self).screen_width() == old(self).screen_width(),
            final(self).screen_height() == old(self).screen_height(),
            final(self).line_pixels() == old(self).line_pixels(),
            final(self).front() == old(self).front(),
            final(self).back() == painted(
                old(self).back(),
                old(self).screen_width(),
                old(self).screen_height(),
                *rect,
            ),
    {
        let py = rect.tl.y;
        let px = rect.tl.x;
        let w = self.width;
        let h = self.height;
        let c = rect.color.as_u32();
        let ghost old_back = self.back_buffer@;
        proof {
            assert(w * h <= (self.pitch / 4) * h) by (nonlinear_arith)
                requires
                    w <= self.pitch / 4,
            ;
        }
        let y_end = py + rect.dimensions.1 as isize;
        let x_end = px + rect.dimensions.0 as isize;
        let mut y = py;
        while y < y_end
            invariant
                self.wf(),
                self.width == w,
                self.height == h,
                self.pitch == old(self).pitch,
                self.front_buffer@ == old(self).front_buffer@,
                self.back_buffer@.len() == old_back.len(),
                w * h <= old_back.len(),
                old_back == old(self).back_buffer@,
                c == color_word(rect.color),
                py <= y <= y_end,
                y_end == rect.tl.y + rect.dimensions.1,
                x_end == rect.tl.x + rect.dimensions.0,
                px == rect.tl.x,
                py == rect.tl.y,
                forall|xx: int, yy: int|
                    0 <= xx < w && 0 <= yy < h ==> #[trigger] self.back_buffer@[yy * w + xx] == if rect.covers(
                        xx,
                        yy,
                    ) && yy < y {
                        c
                    } else {
                        old_back[yy * w + xx]
                    },
                forall|i: int| w * h <= i < old_back.len() ==> #[trigger] self.back_buffer@[i] == old_back[i],
            decreases y_end - y,
        {
            let mut x = px;
            while x < x_end
                invariant
                    self.wf(),
                    self.width == w,
                    self.height == h,
                    self.pitch == old(self).pitch,
                    self.front_buffer@ == old(self).front_buffer@,
                    self.back_buffer@.len() == old_back.len(),
                    w * h <= old_back.len(),
                    c == color_word(rect.color),
                    py <= y < y_end,
                    px <= x <= x_end,
                    y_end == rect.tl.y + rect.dimensions.1,
                    x_end == rect.tl.x + rect.dimensions.0,
                    px == rect.tl.x,
                    py == rect.tl.y,
                    forall|xx: int, yy: int|
                        0 <= xx < w && 0 <= yy < h ==> #[trigger] self.back_buffer@[yy * w + xx] == if rect.covers(
                            xx,
                            yy,
                        ) && (yy < y || (yy == y && xx < x)) {
                            c
                        } else {
                            old_back[yy * w + xx]
                        },
                    forall|i: int| w * h <= i < old_back.len() ==> #[trigger] self.back_buffer@[i] == old_back[i],
                decreases x_end - x,
            {
                if x < w as isize && y < h as isize && x >= 0 && y >= 0 {
                    let xu = x as usize;
                    let yu = y as usize;
                    proof {
                        lemma_cell_index(w as int, h as int, xu as int, yu as int);
                    }
                    let _blen = self.back_buffer.len();
                    let idx = yu * w + xu;
                    let ghost before = self.back_buffer@;
                    self.back_buffer.set(idx, c);
                    assert forall|xx: int, yy: int| 0 <= xx < w && 0 <= yy < h implies #[trigger] self.back_buffer@[yy
                        * w + xx] == if rect.covers(xx, yy) && (yy < y || (yy == y && xx < x + 1)) {
                        c
                    } else {
                        old_back[yy * w + xx]
                    } by {
                        lemma_cell_index(w as int, h as int, xx, yy);
                        assert(before[yy * w + xx] == if rect.covers(xx, yy) && (yy < y || (yy == y
                            && xx < x)) {
                            c
                        } else {
                            old_back[yy * w + xx]
                        });
                        if xx != xu || yy != yu {
                            lemma_cell_distinct(w as int, xx, yy, xu as int, yu as int);
                        }
                    }
                    assert forall|i: int| w * h <= i < old_back.len() implies #[trigger] self.back_buffer@[i]
                        == old_back[i] by {
                        assert(before[i] == old_back[i]);
                    }
                }
                x = x + 1;
            }
            y = y + 1;
        }
        assert forall|i: int| 0 <= i < old_back.len() implies #[trigger] self.back_buffer@[i] == painted(
            old_back,
            w as int,
            h as int,
            *rect,
        )[i] by {
            if i < w * h {
                lemma_cell_of(i, w as int, h as int);
            }
        }
        assert(self.back_buffer@ =~= painted(old_back, w as int, h as int, *rect));
    }

    /// Fills the back buffer with `clear_color`, or black without one.
    pub fn clear(&mut self, clear_color: Option<Color>)
        requires
            old(self).wf(),
        ensures
            final(self).wf(),
            final(self).screen_width() == old(self).screen_width(),
            final(self).screen_height() == old(self).screen_height(),
            final(self).line_pixels() == old(self).line_pixels(),
            final(self).front() == old(self).front(),
            final(self).back() == Seq::new(
                old(self).back().len(),
                |i: int|
                    match clear_color {
                        Some(c) => color_word(c),
                        None => 0u32,
                    },
            ),
    {
        let word: u32 = match clear_color {
            Some(color) => color.as_u32(),
            None => 0x0,
        };
        let n = self.back_buffer.len();
        let mut i: usize = 0;
        while i < n
            invariant
                self.wf(),
                self.width == old(self).screen_width(),
                self.height == old(self).screen_height(),
                self.pitch == old(self).pitch,
                self.front_buffer@ == old(self).front_buffer@,
                n == self.back_buffer@.len(),
                i <= n,
                forall|j: int| 0 <= j < i ==> #[trigger] self.back_buffer@[j] == word,
            decreases n - i,
        {
            self.back_buffer.set(i, word);
            i = i + 1;
        }
        assert(self.back() =~= Seq::new(
            old(self).back().len(),
            |i: int|
                match clear_color {
                    Some(c) => color_word(c),
                    None => 0u32,
                },
        ));
    }

    /// Copies the frame to the front buffer, line by line when the front
    /// buffer's lines are padded.
    pub fn present(&mut self)
        requires
            old(self).wf(),
        ensures
            final(self).wf(),
            final(self).screen_width() == old(self).screen_width(),
            final(self).screen_height() == old(self).screen_height(),
            final(self).line_pixels() == old(self).line_pixels(),
            final(self).back() == old(self).back(),
            final(self).front() == shown(
                old(self).front(),
                old(self).back(),
                old(self).screen_width(),
                old(self).screen_height(),
                old(self).line_pixels(),
            ),
    {
        let w = self.width;
        let h = self.height;
        let pitch = self.pitch / (self.bpp as usize / 8);
        let ghost old_front = self.front_buffer@;
        let mut y: usize = 0;
        while y < h
            invariant
                self.wf(),
                self.width == w,
                self.height == h,
                self.pitch == old(self).pitch,
                pitch == self.pitch / 4,
                self.back_buffer@ == old(self).back_buffer@,
                self.front_buffer@.len() == old_front.len(),
                old_front == old(self).front_buffer@,
                y <= h,
                forall|xx: int, yy: int|
                    0 <= xx < pitch && 0 <= yy < h ==> #[trigger] self.front_buffer@[yy * pitch + xx] == if xx < w
                        && yy < y {
                        self.back_buffer@[yy * w + xx]
                    } else {
                        old_front[yy * pitch + xx]
                    },
            decreases h - y,
        {
            let mut x: usize = 0;
            while x < w
                invariant
                    self.wf(),
                    self.width == w,
                    self.height == h,
                    self.pitch == old(self).pitch,
                    pitch == self.pitch / 4,
                    self.back_buffer@ == old(self).back_buffer@,
                    self.front_buffer@.len() == old_front.len(),
                    y < h,
                    x <= w,
                    forall|xx: int, yy: int|
                        0 <= xx < pitch && 0 <= yy < h ==> #[trigger] self.front_buffer@[yy * pitch + xx] == if xx
                            < w && (yy < y || (yy == y && xx < x)) {
                            self.back_buffer@[yy * w + xx]
                        } else {
                            old_front[yy * pitch + xx]
                        },
                decreases w - x,
            {
                proof {
                    lemma_cell_index(pitch as int, h as int, x as int, y as int);
                    lemma_cell_index(w as int, h as int, x as int, y as int);
                    assert(w * h <= pitch * h) by (nonlinear_arith)
                        requires
                            w <= pitch,
                    ;
                }
                let _flen = self.front_buffer.len();
                let fbi = y * pitch + x;
                let bbi = y * w + x;
                let v = self.back_buffer[bbi];
                let ghost before = self.front_buffer@;
                self.front_buffer.set(fbi, v);
                assert forall|xx: int, yy: int| 0 <= xx < pitch && 0 <= yy < h implies #[trigger] self.front_buffer@[yy
                    * pitch + xx] == if xx < w && (yy < y || (yy == y && xx < x + 1)) {
                    self.back_buffer@[yy * w + xx]
                } else {
                    old_front[yy * pitch + xx]
                } by {
                    lemma_cell_index(pitch as int, h as int, xx, yy);
                    assert(before[yy * pitch + xx] == if xx < w && (yy < y || (yy == y && xx < x)) {
                        self.back_buffer@[yy * w + xx]
                    } else {
                        old_front[yy * pitch + xx]
                    });
                    if xx != x || yy != y {
                        lemma_cell_distinct(pitch as int, xx, yy, x as int, y as int);
                    }
                }
                x = x + 1;
            }
            y = y + 1;
        }
        assert forall|i: int| 0 <= i < old_front.len() implies #[trigger] self.front_buffer@[i] == shown(
            old_front,
            self.back_buffer@,
            w as int,
            h as int,
            pitch as int,
        )[i] by {
            if i < pitch * h {
                lemma_cell_of(i, pitch as int, h as int);
            }
        }
        assert(self.front_buffer@ =~= shown(old_front, self.back_buffer@, w as int, h as int, pitch as int));
    }
}

} // verus!
