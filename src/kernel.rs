//! The kernel's animated demo: per frame two squares slide and wrap, and a
//! player square moves in the direction of the key held down.
use vstd::prelude::*;
use crate::framebuffer::{Color, Dimensions, Point, Rect};
use crate::ps2::{KeyCode, KeyState, KeyboardInput};

verus! {

/// Pixels the player square moves per frame.
pub const PLAYER_SPEED: isize = 16;

/// Coordinate past which the sliding squares start over at zero.
pub const WRAP_AT: isize = 400;

/// Side of every square.
pub const SQUARE: usize = 200;

/// The key held down after `input`, given the key held before: a press
/// makes its key the held one; releasing the held key leaves none held.
pub open spec fn held_after(held: Option<KeyCode>, input: KeyboardInput) -> Option<KeyCode> {
    if input.state == KeyState::Pressed {
        Some(input.key_code)
    } else if held == Some(input.key_code) {
        None
    } else {
        held
    }
}

/// The key held down after all of `inputs`, oldest first.
pub open spec fn held_after_all(held: Option<KeyCode>, inputs: Seq<KeyboardInput>) -> Option<KeyCode>
    decreases inputs.len(),
{
    if inputs.len() == 0 {
        held
    } else {
        held_after(held_after_all(held, inputs.drop_last()), inputs.last())
    }
}

/// Where the player's corner goes in one frame with `held` held down.
pub open spec fn player_moved(p: Point, held: Option<KeyCode>) -> Point {
    match held {
        Some(KeyCode::KeyW) => Point { x: p.x, y: (p.y - PLAYER_SPEED) as isize },
        Some(KeyCode::KeyS) => Point { x: p.x, y: (p.y + PLAYER_SPEED) as isize },
        Some(KeyCode::KeyD) => Point { x: (p.x + PLAYER_SPEED) as isize, y: p.y },
        Some(KeyCode::KeyA) => Point { x: (p.x - PLAYER_SPEED) as isize, y: p.y },
        _ => p,
    }
}

/// `v` advanced by `by`, starting over at zero past `WRAP_AT`.
pub open spec fn slid(v: isize, by: isize) -> isize {
    if v + by > WRAP_AT {
        0
    } else {
        (v + by) as isize
    }
}

/// The demo's state between frames.
pub struct SquareDemo {
    pub red_rect: Rect,
    pub yellow_rect: Rect,
    pub player_rect: Rect,
    pub last_key_pressed: Option<KeyCode>,
}

fn square(x: isize, y: isize, color: Color) -> (r: Rect)
    ensures
        r.tl == (Point { x, y }),
        r.dimensions == Dimensions(SQUARE, SQUARE),
        r.color == color,
{
    Rect::new(Point::new(x, y), Dimensions::new(SQUARE, SQUARE), color)
}

impl SquareDemo {
    /// Coordinates stay far enough from the ends of `isize` for one more
    /// frame.
    pub open spec fn in_range(&self) -> bool {
        &&& WRAP_AT >= self.red_rect.tl.x >= isize::MIN
        &&& WRAP_AT >= self.yellow_rect.tl.y >= isize::MIN
        &&& isize::MIN + PLAYER_SPEED <= self.player_rect.tl.x <= isize::MAX - PLAYER_SPEED
        &&& isize::MIN + PLAYER_SPEED <= self.player_rect.tl.y <= isize::MAX - PLAYER_SPEED
    }

    pub fn new() -> (r: Self)
        ensures
            r.red_rect.tl == (Point { x: 0, y: 500 }),
            r.yellow_rect.tl == (Point { x: 400, y: 0 }),
            r.player_rect.tl == (Point { x: 400, y: 400 }),
            r.last_key_pressed.is_none(),
            r.in_range(),
    {
        SquareDemo {
            red_rect: square(0, 500, Color::new_rgb(255, 0, 0)),
            yellow_rect: square(400, 0, Color::new_rgb(255, 255, 0)),
            player_rect: square(400, 400, Color::new_rgb(255, 255, 255)),
            last_key_pressed: None,
        }
    }

    /// Takes one key event into account.
    pub fn apply_input(&mut self, input: KeyboardInput)
        ensures
            final(self).last_key_pressed == held_after(old(self).last_key_pressed, input),
            final(self).red_rect == old(self).red_rect,
            final(self).yellow_rect == old(self).yellow_rect,
            final(self).player_rect == old(self).player_rect,
    {
        if input.state == KeyState::Pressed {
            self.last_key_pressed = Some(input.key_code);
        } else {
            match self.last_key_pressed {
                Some(k) => {
                    if k == input.key_code {
                        self.last_key_pressed = None;
                    }
                },
                None => {},
            }
        }
    }

    /// Advances one frame: the red square slides right by one pixel, the
    /// yellow one down by four, the key events are taken in order, and the
    /// player moves by `PLAYER_SPEED` in the direction of the key then held.
    pub fn step(&mut self, inputs: &[KeyboardInput])
        requires
            old(self).in_range(),
        ensures
            final(self).red_rect.tl == (Point { x: slid(old(self).red_rect.tl.x, 1), ..old(self).red_rect.tl }),
            final(self).yellow_rect.tl == (Point { y: slid(old(self).yellow_rect.tl.y, 4), ..old(self).yellow_rect.tl }),
            final(self).last_key_pressed == held_after_all(old(self).last_key_pressed, inputs@),
            final(self).player_rect.tl == player_moved(
                old(self).player_rect.tl,
                held_after_all(old(self).last_key_pressed, inputs@),
            ),
            final(self).red_rect.dimensions == old(self).red_rect.dimensions,
            final(self).yellow_rect.dimensions == old(self).yellow_rect.dimensions,
            final(self).player_rect.dimensions == old(self).player_rect.dimensions,
    {
        self.red_rect.tl.x = self.red_rect.tl.x + 1;
        if self.red_rect.tl.x > WRAP_AT {
            self.red_rect.tl.x = 0;
        }
        self.yellow_rect.tl.y = self.yellow_rect.tl.y + 4;
        if self.yellow_rect.tl.y > WRAP_AT {
            self.yellow_rect.tl.y = 0;
        }
        let ghost start = self.last_key_pressed;
        let mut i: usize = 0;
        while i < inputs.len()
            invariant
                i <= inputs@.len(),
                self.last_key_pressed == held_after_all(start, inputs@.subrange(0, i as int)),
                self.player_rect == old(self).player_rect,
                self.red_rect.dimensions == old(self).red_rect.dimensions,
                self.yellow_rect.dimensions == old(self).yellow_rect.dimensions,
                self.red_rect.tl == (Point { x: slid(old(self).red_rect.tl.x, 1), ..old(self).red_rect.tl }),
                self.yellow_rect.tl == (Point { y: slid(old(self).yellow_rect.tl.y, 4), ..old(self).yellow_rect.tl }),
                start == old(self).last_key_pressed,
            decreases inputs@.len() - i,
        {
            self.apply_input(inputs[i]);
            assert(inputs@.subrange(0, i + 1).drop_last() =~= inputs@.subrange(0, i as int));
            i = i + 1;
        }
        assert(inputs@.subrange(0, inputs@.len() as int) =~= inputs@);
        match self.last_key_pressed {
            Some(KeyCode::KeyW) => self.player_rect.tl.y = self.player_rect.tl.y - PLAYER_SPEED,
            Some(KeyCode::KeyS) => self.player_rect.tl.y = self.player_rect.tl.y + PLAYER_SPEED,
            Some(KeyCode::KeyD) => self.player_rect.tl.x = self.player_rect.tl.x + PLAYER_SPEED,
            Some(KeyCode::KeyA) => self.player_rect.tl.x = self.player_rect.tl.x - PLAYER_SPEED,
            _ => {},
        }
    }

    /// The rectangles of one frame on a screen of `width` by `height`, in
    /// drawing order: the three moving squares, then green, blue and
    /// magenta squares hanging over the top-right, top-left and
    /// bottom-right corners.
    pub fn frame_rects(&self, width: usize, height: usize) -> (r: Vec<Rect>)
        requires
            width <= isize::MAX,
            height <= isize::MAX,
        ensures
            r@ == seq![
                self.red_rect,
                self.yellow_rect,
                self.player_rect,
                Rect {
                    tl: Point { x: (width - 100) as isize, y: 0 },
                    dimensions: Dimensions(SQUARE, SQUARE),
                    color: Color { b: 0, g: 255, r: 0, a: 255 },
                },
                Rect {
                    tl: Point { x: -100isize, y: -100isize },
                    dimensions: Dimensions(SQUARE, SQUARE),
                    color: Color { b: 255, g: 0, r: 0, a: 255 },
                },
                Rect {
                    tl: Point { x: (width - 100) as isize, y: (height - 100) as isize },
                    dimensions: Dimensions(SQUARE, SQUARE),
                    color: Color { b: 255, g: 0, r: 255, a: 255 },
                },
            ],
    {
        let mut r: Vec<Rect> = Vec::new();
        r.push(self.red_rect);
        r.push(self.yellow_rect);
        r.push(self.player_rect);
        r.push(square(width as isize - 100, 0, Color::new_rgb(0, 255, 0)));
        r.push(square(-100, -100, Color::new_rgb(0, 0, 255)));
        r.push(square(width as isize - 100, height as isize - 100, Color::new_rgb(255, 0, 255)));
        assert(r@ =~= seq![
            self.red_rect,
            self.yellow_rect,
            self.player_rect,
            Rect {
                tl: Point { x: (width - 100) as isize, y: 0 },
                dimensions: Dimensions(SQUARE, SQUARE),
                color: Color { b: 0, g: 255, r: 0, a: 255 },
            },
            Rect {
                tl: Point { x: -100isize, y: -100isize },
                dimensions: Dimensions(SQUARE, SQUARE),
                color: Color { b: 255, g: 0, r: 0, a: 255 },
            },
            Rect {
                tl: Point { x: (width - 100) as isize, y: (height - 100) as isize },
                dimensions: Dimensions(SQUARE, SQUARE),
                color: Color { b: 255, g: 0, r: 255, a: 255 },
            },
        ]);
        r
    }
}

} // verus!
