//! The 80x25 VGA text console: a cursor that writes bytes left to right,
//! wraps at the end of a line and scrolls the screen up when it passes the
//! last line.
use vstd::prelude::*;

verus! {

pub const VGA_WIDTH: usize = 80;

pub const VGA_HEIGHT: usize = 25;

/// Number of character cells on the screen.
pub const VGA_CELLS: usize = 2000;

/// Attribute of written characters: white on black.
pub const TEXT_ATTRIBUTE: u8 = 0x0F;

/// One character cell: the code point and its colour attribute.
#[derive(Clone, Copy, PartialEq, Eq, Structural, Debug)]
pub struct VgaChar {
    pub unicode: u8,
    pub attributes: u8,
}

/// A cleared cell.
pub open spec fn blank() -> VgaChar {
    VgaChar { unicode: 32, attributes: 0 }
}

/// The screen's cells, row by row.
pub struct Buffer {
    chars: Vec<VgaChar>,
}

impl View for Buffer {
    type V = Seq<VgaChar>;

    closed spec fn view(&self) -> Seq<VgaChar> {
        self.chars@
    }
}

/// The screen moved up one line, with a cleared last line.
pub open spec fn scrolled(s: Seq<VgaChar>) -> Seq<VgaChar> {
    Seq::new(
        VGA_CELLS as nat,
        |i: int|
            if i < VGA_CELLS - VGA_WIDTH {
                s[i + VGA_WIDTH]
            } else {
                blank()
            },
    )
}

impl Buffer {
    /// A screen of zeroed cells.
    pub fn new() -> (r: Self)
        ensures
            r@ == Seq::new(VGA_CELLS as nat, |i: int| VgaChar { unicode: 0, attributes: 0 }),
    {
        let chars = vec![VgaChar { unicode: 0, attributes: 0 }; VGA_CELLS];
        let r = Buffer { chars };
        assert(r@ =~= Seq::new(VGA_CELLS as nat, |i: int| VgaChar { unicode: 0, attributes: 0 }));
        r
    }

    /// Blanks every cell.
    pub fn clear(&mut self)
        ensures
            final(self)@ == Seq::new(old(self)@.len(), |i: int| blank()),
    {
        let n = self.chars.len();
        let mut i: usize = 0;
        while i < n
            invariant
                n == self.chars@.len(),
                n == old(self)@.len(),
                i <= n,
                forall|j: int| 0 <= j < i ==> #[trigger] self.chars@[j] == blank(),
            decreases n - i,
        {
            self.chars.set(i, VgaChar { unicode: 32, attributes: 0 });
            i = i + 1;
        }
        assert(self@ =~= Seq::new(old(self)@.len(), |i: int| blank()));
    }

    /// Blanks the bottom line.
    pub fn clear_last_line(&mut self)
        requires
            old(self)@.len() == VGA_CELLS,
        ensures
            final(self)@ == Seq::new(
                VGA_CELLS as nat,
                |i: int|
                    if i < VGA_CELLS - VGA_WIDTH {
                        old(self)@[i]
                    } else {
                        blank()
                    },
            ),
    {
        let mut i: usize = VGA_CELLS - VGA_WIDTH;
        while i < VGA_CELLS
            invariant
                VGA_CELLS - VGA_WIDTH <= i <= VGA_CELLS,
                self.chars@.len() == VGA_CELLS,
                forall|j: int| 0 <= j < VGA_CELLS - VGA_WIDTH ==> #[trigger] self.chars@[j] == old(self)@[j],
                forall|j: int| VGA_CELLS - VGA_WIDTH <= j < i ==> #[trigger] self.chars@[j] == blank(),
            decreases VGA_CELLS - i,
        {
            self.chars.set(i, VgaChar { unicode: 32, attributes: 0 });
            i = i + 1;
        }
        assert(self@ =~= Seq::new(
            VGA_CELLS as nat,
            |i: int|
                if i < VGA_CELLS - VGA_WIDTH {
                    old(self)@[i]
                } else {
                    blank()
                },
        ));
    }

    /// Moves every line up by one; the bottom line keeps its cells.
    fn shift_up(&mut self)
        requires
            old(self)@.len() == VGA_CELLS,
        ensures
            final(self)@.len() == VGA_CELLS,
            forall|j: int|
                0 <= j < VGA_CELLS - VGA_WIDTH ==> #[trigger] final(self)@[j] == old(self)@[j + VGA_WIDTH],
    {
        let mut i: usize = 0;
        while i < VGA_CELLS - VGA_WIDTH
            invariant
                i <= VGA_CELLS - VGA_WIDTH,
                self.chars@.len() == VGA_CELLS,
                forall|j: int| 0 <= j < i ==> #[trigger] self.chars@[j] == old(self)@[j + VGA_WIDTH],
                forall|j: int| i <= j < VGA_CELLS ==> #[trigger] self.chars@[j] == old(self)@[j],
            decreases VGA_CELLS - VGA_WIDTH - i,
        {
            let c = self.chars[i + VGA_WIDTH];
            self.chars.set(i, c);
            i = i + 1;
        }
    }
}

/// Where the next character goes.
#[derive(Debug)]
pub struct Cursor {
    pub x: usize,
    pub y: usize,
}

impl Cursor {
    pub fn new() -> (r: Self)
        ensures
            r.x == 0 && r.y == 0,
    {
        Cursor { x: 0, y: 0 }
    }

    /// The cell under the cursor.
    pub fn index(&self) -> (r: usize)
        requires
            self.y * VGA_WIDTH + self.x <= usize::MAX,
        ensures
            r == self.y * VGA_WIDTH + self.x,
    {
        self.y * VGA_WIDTH + self.x
    }

    /// One cell on, to the start of the next line after the last column.
    pub fn next(&mut self)
        requires
            old(self).x < VGA_WIDTH,
            old(self).y < usize::MAX,
        ensures
            final(self).x < VGA_WIDTH,
            final(self).y * VGA_WIDTH + final(self).x == old(self).y * VGA_WIDTH + old(self).x + 1,
            old(self).x + 1 < VGA_WIDTH ==> final(self).x == old(self).x + 1 && final(self).y
                == old(self).y,
            old(self).x + 1 == VGA_WIDTH ==> final(self).x == 0 && final(self).y == old(self).y + 1,
    {
        self.x = self.x + 1;
        if self.x >= VGA_WIDTH {
            self.x = 0;
            self.y = self.y + 1;
        }
    }

    /// To the start of the next line.
    pub fn new_line(&mut self)
        requires
            old(self).y < usize::MAX,
        ensures
            final(self).x == 0,
            final(self).y == old(self).y + 1,
    {
        self.x = 0;
        self.y = self.y + 1;
    }
}

/// The console's state: its cells and its cursor position.
pub struct Console {
    pub cells: Seq<VgaChar>,
    pub x: int,
    pub y: int,
}

/// The console after one byte is written: a newline moves to the next
/// line, any other byte is stored in white on black and advances the
/// cursor; passing the last line scrolls the screen up by one.
pub open spec fn put(c: Console, b: u8) -> Console {
    let moved = if b == 10 {
        Console { cells: c.cells, x: 0, y: c.y + 1 }
    } else {
        let cells = c.cells.update(c.y * VGA_WIDTH + c.x, VgaChar { unicode: b, attributes: TEXT_ATTRIBUTE });
        if c.x + 1 < VGA_WIDTH {
            Console { cells, x: c.x + 1, y: c.y }
        } else {
            Console { cells, x: 0, y: c.y + 1 }
        }
    };
    if moved.y == VGA_HEIGHT {
        Console { cells: scrolled(moved.cells), x: moved.x, y: VGA_HEIGHT - 1 }
    } else {
        moved
    }
}

/// The console after the bytes of `bs` are written in order.
pub open spec fn put_all(c: Console, bs: Seq<u8>) -> Console
    decreases bs.len(),
{
    if bs.len() == 0 {
        c
    } else {
        put(put_all(c, bs.drop_last()), bs.last())
    }
}

/// A text console over a screen buffer.
pub struct Writer {
    cursor: Cursor,
    buffer: Buffer,
}

impl View for Writer {
    type V = Console;

    closed spec fn view(&self) -> Console {
        Console { cells: self.buffer@, x: self.cursor.x as int, y: self.cursor.y as int }
    }
}

impl Writer {
    pub closed spec fn wf(&self) -> bool {
        &&& self.buffer@.len() == VGA_CELLS
        &&& self.cursor.x < VGA_WIDTH
        &&& self.cursor.y < VGA_HEIGHT
    }

    /// A cleared console with the cursor at the top left.
    pub fn new() -> (r: Self)
        ensures
            r.wf(),
            r@.cells == Seq::new(VGA_CELLS as nat, |i: int| blank()),
            r@.x == 0 && r@.y == 0,
    {
        let mut buffer = Buffer::new();
        buffer.clear();
        Writer { cursor: Cursor::new(), buffer }
    }

    /// The cell at `index`, counted row by row.
    pub fn cell(&self, index: usize) -> (r: VgaChar)
        requires
            self.wf(),
            index < VGA_CELLS,
        ensures
            r == self@.cells[index as int],
    {
        self.buffer.chars[index]
    }

    /// Column and row of the cursor.
    pub fn cursor_position(&self) -> (r: (usize, usize))
        ensures
            r.0 == self@.x && r.1 == self@.y,
    {
        (self.cursor.x, self.cursor.y)
    }

    /// Blanks the screen; the cursor stays where it is.
    pub fn clear(&mut self)
        requires
            old(self).wf(),
        ensures
            final(self).wf(),
            final(self)@ == (Console {
                cells: Seq::new(VGA_CELLS as nat, |i: int| blank()),
                x: old(self)@.x,
                y: old(self)@.y,
            }),
    {
        self.buffer.clear();
    }

    /// Writes one byte.
    pub fn write_byte(&mut self, byte: u8)
        requires
            old(self).wf(),
        ensures
            final(self).wf(),
            final(self)@ == put(old(self)@, byte),
    {
        self.write_byte_unchecked(byte);
        self.check_and_handle_buffer();
    }

    /// Writes the bytes of `data` in order.
    pub fn write_str(&mut self, data: &[u8])
        requires
            old(self).wf(),
        ensures
            final(self).wf(),
            final(self)@ == put_all(old(self)@, data@),
    {
        let mut i: usize = 0;
        while i < data.len()
            invariant
                self.wf(),
                i <= data@.len(),
                self@ == put_all(old(self)@, data@.subrange(0, i as int)),
            decreases data@.len() - i,
        {
            self.write_byte(data[i]);
            assert(data@.subrange(0, i + 1).drop_last() =~= data@.subrange(0, i as int));
            i = i + 1;
        }
        assert(data@.subrange(0, data@.len() as int) =~= data@);
    }

    /// Stores the byte and moves the cursor, which may leave it one line
    /// below the screen.
    fn write_byte_unchecked(&mut self, byte: u8)
        requires
            old(self).wf(),
        ensures
            final(self).buffer@.len() == VGA_CELLS,
            final(self).cursor.x < VGA_WIDTH,
            final(self).cursor.y <= VGA_HEIGHT,
            ({
                let c = old(self)@;
                let moved = if byte == 10 {
                    Console { cells: c.cells, x: 0, y: c.y + 1 }
                } else {
                    let cells = c.cells.update(
                        c.y * VGA_WIDTH + c.x,
                        VgaChar { unicode: byte, attributes: TEXT_ATTRIBUTE },
                    );
                    if c.x + 1 < VGA_WIDTH {
                        Console { cells, x: c.x + 1, y: c.y }
                    } else {
                        Console { cells, x: 0, y: c.y + 1 }
                    }
                };
                final(self)@ == moved
            }),
    {
        if byte == 10 {
            self.cursor.new_line();
        } else {
            let index = self.cursor.index();
            assert(index < VGA_CELLS) by (nonlinear_arith)
                requires
                    index == self.cursor.y * VGA_WIDTH + self.cursor.x,
                    self.cursor.x < VGA_WIDTH,
                    self.cursor.y < VGA_HEIGHT,
            ;
            self.buffer.chars.set(index, VgaChar { unicode: byte, attributes: TEXT_ATTRIBUTE });
            self.cursor.next();
        }
    }

    /// Scrolls up one line when the cursor has left the screen.
    fn check_and_handle_buffer(&mut self)
        requires
            old(self).buffer@.len() == VGA_CELLS,
            old(self).cursor.x < VGA_WIDTH,
            old(self).cursor.y <= VGA_HEIGHT,
        ensures
            final(self).wf(),
            old(self).cursor.y == VGA_HEIGHT ==> final(self)@ == (Console {
                cells: scrolled(old(self)@.cells),
                x: old(self)@.x,
                y: VGA_HEIGHT - 1,
            }),
            old(self).cursor.y < VGA_HEIGHT ==> final(self)@ == old(self)@,
    {
        if self.cursor.y == VGA_HEIGHT {
            self.buffer.shift_up();
            self.cursor.y = self.cursor.y - 1;
            self.buffer.clear_last_line();
            assert(self.buffer@ =~= scrolled(old(self)@.cells));
        }
    }
}

} // verus!
