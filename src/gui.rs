//! Screen geometry and colours of the 4x4 puzzle.

use vstd::prelude::*;

use crate::puzzle::{poke_number, Arrow, BoardPoke};

verus! {

/// A point on the screen, in pixels.
#[derive(Debug, Clone, Copy, PartialEq, Eq, Structural)]
pub struct Point {
    pub x: u64,
    pub y: u64,
}

/// Where the 4x4 board and the claim button are on the screen.
#[derive(Debug, Clone, Copy, PartialEq, Eq, Structural)]
pub struct Dimensions {
    pub first_arrow_position: Point,
    pub claim_button_position: Point,
    pub arrow_diameter: u64,
}

impl Dimensions {
    /// The centre of the arrow that the poke `p` touches.
    pub fn arrow_position(&self, p: &BoardPoke) -> (r: Point)
        requires
            self.first_arrow_position.x + 3 * self.arrow_diameter <= u64::MAX,
            self.first_arrow_position.y + 3 * self.arrow_diameter <= u64::MAX,
        ensures
            r.x == self.first_arrow_position.x + self.arrow_diameter * poke_number(p.0),
            r.y == self.first_arrow_position.y + self.arrow_diameter * poke_number(p.1),
    {
        let x: u64 = u8::from(p.0) as u64;
        let y: u64 = u8::from(p.1) as u64;
        proof {
            assert(self.arrow_diameter * x <= 3 * self.arrow_diameter) by (nonlinear_arith)
                requires
                    x <= 3,
            ;
            assert(self.arrow_diameter * y <= 3 * self.arrow_diameter) by (nonlinear_arith)
                requires
                    y <= 3,
            ;
        }
        Point {
            x: self.first_arrow_position.x + self.arrow_diameter * x,
            y: self.first_arrow_position.y + self.arrow_diameter * y,
        }
    }
}

/// A colour as red, green and blue.
#[derive(Debug, Clone, Copy, PartialEq, Eq, Structural)]
pub struct Color {
    pub r: u8,
    pub g: u8,
    pub b: u8,
}

/// The squared distance between two colours in RGB space.
pub open spec fn squared_distance(a: Color, b: Color) -> int {
    (a.r - b.r) * (a.r - b.r) + (a.g - b.g) * (a.g - b.g) + (a.b - b.b) * (a.b - b.b)
}

fn channel_gap(a: u8, b: u8) -> (r: u64)
    ensures
        r == (a - b) * (a - b),
        r <= 65025,
{
    let d: u64 = if a >= b {
        (a - b) as u64
    } else {
        (b - a) as u64
    };
    assert(d * d == (a - b) * (a - b)) by (nonlinear_arith)
        requires
            d == a - b || d == b - a,
    ;
    assert(d * d <= 255 * 255) by (nonlinear_arith)
        requires
            d <= 255,
    ;
    d * d
}

impl Color {
    /// The squared distance to `other` in RGB space: it orders colours as the Euclidean
    /// distance does.
    fn squared_distance_to(self, other: Color) -> (r: u64)
        ensures
            r == squared_distance(self, other),
    {
        channel_gap(self.r, other.r) + channel_gap(self.g, other.g) + channel_gap(self.b, other.b)
    }
}

/// The colour that each arrow of the 4x4 board shows on the screen.
#[derive(Debug, Clone, Copy, PartialEq, Eq, Structural)]
pub struct ArrowToColor {
    pub up: Color,
    pub right: Color,
    pub down: Color,
    pub left: Color,
}

impl ArrowToColor {
    /// The arrow whose colour is nearest to `target`; on a tie, the first of up, right,
    /// down, left.
    pub fn closest(&self, target: Color) -> (r: Arrow)
        ensures
            ({
                let du = squared_distance(self.up, target);
                let dr = squared_distance(self.right, target);
                let dd = squared_distance(self.down, target);
                let dl = squared_distance(self.left, target);
                if du <= dr && du <= dd && du <= dl {
                    r == Arrow::Up
                } else if dr <= dd && dr <= dl {
                    r == Arrow::Right
                } else if dd <= dl {
                    r == Arrow::Down
                } else {
                    r == Arrow::Left
                }
            }),
    {
        let du = self.up.squared_distance_to(target);
        let dr = self.right.squared_distance_to(target);
        let dd = self.down.squared_distance_to(target);
        let dl = self.left.squared_distance_to(target);
        let mut best = Arrow::Up;
        let mut best_d = du;
        if dr < best_d {
            best = Arrow::Right;
            best_d = dr;
        }
        if dd < best_d {
            best = Arrow::Down;
            best_d = dd;
        }
        if dl < best_d {
            best = Arrow::Left;
        }
        best
    }
}

/// A captured screen: four bytes per pixel, blue, green, red and one unused, row by row.
#[derive(Debug, Clone, PartialEq, Eq)]
pub struct ScreenBuf {
    frame: Vec<u8>,
    pub width: usize,
    pub height: usize,
}

/// A borrowed view of a captured screen.
pub struct ScreenView<'a> {
    frame: &'a [u8],
    pub width: usize,
    pub height: usize,
}

impl View for ScreenBuf {
    type V = (Seq<u8>, int, int);

    closed spec fn view(&self) -> (Seq<u8>, int, int) {
        (self.frame@, self.width as int, self.height as int)
    }
}

impl<'a> View for ScreenView<'a> {
    type V = (Seq<u8>, int, int);

    closed spec fn view(&self) -> (Seq<u8>, int, int) {
        (self.frame@, self.width as int, self.height as int)
    }
}

/// Whether a frame holds four bytes for each pixel of a screen of the given size.
pub open spec fn frame_fits(v: (Seq<u8>, int, int)) -> bool {
    v.1 * v.2 * 4 <= v.0.len()
}

/// The pixel `n` of a frame, as a colour.
pub open spec fn pixel(frame: Seq<u8>, n: int) -> Color {
    Color { r: frame[4 * n + 2], g: frame[4 * n + 1], b: frame[4 * n] }
}

impl ScreenBuf {
    pub fn new(frame: Vec<u8>, width: usize, height: usize) -> (r: ScreenBuf)
        ensures
            r@ == (frame@, width as int, height as int),
    {
        ScreenBuf { frame, width, height }
    }

    pub fn as_view(&self) -> (r: ScreenView<'_>)
        ensures
            r@ == self@,
    {
        ScreenView { frame: self.frame.as_slice(), width: self.width, height: self.height }
    }
}

impl<'a> ScreenView<'a> {
    /// The colour of pixel `n`, counted row by row, or `None` past the last pixel.
    fn nth_pixel_apple_silicon(&self, n: usize) -> (r: Option<Color>)
        requires
            frame_fits(self@),
        ensures
            r == if n < self@.1 * self@.2 {
                Some(pixel(self@.0, n as int))
            } else {
                None::<Color>
            },
    {
        let len = self.frame.len();
        proof {
            assert(self.frame@.len() <= usize::MAX);
            assert(self.width * self.height <= self.width * self.height * 4) by (nonlinear_arith)
                requires
                    self.width * self.height >= 0,
            ;
        }
        if n >= self.width * self.height {
            None
        } else {
            let b = self.frame[4 * n];
            let g = self.frame[4 * n + 1];
            let r = self.frame[4 * n + 2];
            Some(Color { r, g, b })
        }
    }

    /// The colour at `(x, y)`, or `None` outside the screen.
    pub fn at_apple_silicon(&self, x: usize, y: usize) -> (r: Option<Color>)
        requires
            frame_fits(self@),
        ensures
            r == if x < self@.1 && y < self@.2 {
                Some(pixel(self@.0, x + self@.1 * y))
            } else {
                None::<Color>
            },
    {
        if x >= self.width || y >= self.height {
            None
        } else {
            let len = self.frame.len();
            proof {
                assert(self.width * self.height <= self.width * self.height * 4) by (nonlinear_arith)
                    requires
                        self.width * self.height >= 0,
                ;
                assert(self.width * y <= self.width * (self.height - 1)) by (nonlinear_arith)
                    requires
                        y < self.height,
                ;
                assert(self.width * (self.height - 1) + self.width == self.width * self.height) by (nonlinear_arith);
            }
            self.nth_pixel_apple_silicon(x + self.width * y)
        }
    }

    /// An owned copy of the view.
    pub fn to_buf(&self) -> (r: ScreenBuf)
        ensures
            r@ == self@,
    {
        let mut frame: Vec<u8> = Vec::new();
        let mut i: usize = 0;
        while i < self.frame.len()
            invariant
                i <= self.frame@.len(),
                frame@ == self.frame@.subrange(0, i as int),
            decreases self.frame@.len() - i,
        {
            frame.push(self.frame[i]);
            i += 1;
            assert(frame@ =~= self.frame@.subrange(0, i as int));
        }
        assert(frame@ =~= self.frame@);
        ScreenBuf { frame, width: self.width, height: self.height }
    }
}

} // verus!
