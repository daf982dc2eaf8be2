//! Integer geometry: vectors, line segments and rectangles over `i32`.
//!
//! Positions are held in subpixels, 256 to a pixel, so that one tile of 16 pixels spans
//! 4096 subpixels. Tile coordinates use the same vector type, counted in whole tiles.

use vstd::prelude::*;
use vstd::arithmetic::div_mod::{
    lemma_div_is_ordered,
    lemma_div_multiples_vanish,
    lemma_fundamental_div_mod,
    lemma_fundamental_div_mod_converse,
};
use vstd::arithmetic::mul::lemma_mul_is_commutative;

verus! {

/// Width of a tile in pixels.
pub const TILE_WIDTH: u32 = 16;

/// Height of a tile in pixels.
pub const TILE_HEIGHT: u32 = 16;

/// Subpixels in one pixel: the scale of the fixed-point representation.
pub const SUBPIXELS_PER_PIXEL: i32 = 256;

/// Subpixels along one side of a tile.
pub const SUBPIXELS_PER_TILE: i32 = 4096;

/// The tile column (or row) that holds subpixel coordinate `v`.
pub open spec fn spec_tile_floor(v: int) -> int {
    v / 4096
}

/// The first tile boundary at or after subpixel coordinate `v`, counted in tiles.
pub open spec fn spec_tile_ceil(v: int) -> int {
    (v + 4095) / 4096
}

/// The value at `a` of the line through `(a0, b0)` and `(a1, b1)`, rounded down.
pub open spec fn spec_interpolate(a0: int, a1: int, b0: int, b1: int, a: int) -> int {
    b0 + ((b1 - b0) * (a - a0)) / (a1 - a0)
}

/// The lesser of two numbers.
pub open spec fn spec_min(a: int, b: int) -> int {
    if a <= b {
        a
    } else {
        b
    }
}

/// The greater of two numbers.
pub open spec fn spec_max(a: int, b: int) -> int {
    if a >= b {
        a
    } else {
        b
    }
}

/// The number of the range from `lo` to `hi` that lies next to `v`.
pub open spec fn spec_clamp(v: int, lo: int, hi: int) -> int {
    if v < lo {
        lo
    } else if v > hi {
        hi
    } else {
        v
    }
}

/// An interpolated value never leaves the interval spanned by the two end values.
pub proof fn lemma_interpolate_bounds(a0: int, a1: int, b0: int, b1: int, a: int)
    requires
        a0 < a1,
        a0 <= a <= a1,
    ensures
        spec_min(b0, b1) <= spec_interpolate(a0, a1, b0, b1, a) <= spec_max(b0, b1),
        a == a0 ==> spec_interpolate(a0, a1, b0, b1, a) == b0,
        a == a1 ==> spec_interpolate(a0, a1, b0, b1, a) == b1,
{
    let d = a1 - a0;
    let t = a - a0;
    let s = b1 - b0;
    let p = s * t;
    if s >= 0 {
        assert(0 <= p) by (nonlinear_arith)
            requires
                s >= 0,
                t >= 0,
                p == s * t,
        ;
        assert(p <= s * d) by (nonlinear_arith)
            requires
                s >= 0,
                0 <= t <= d,
                p == s * t,
        ;
        lemma_div_is_ordered(0, p, d);
        lemma_div_is_ordered(p, s * d, d);
        lemma_div_multiples_vanish(s, d);
        assert(0int / d == 0) by {
            lemma_fundamental_div_mod_converse(0, d, 0, 0);
        }
    } else {
        assert(p <= 0) by (nonlinear_arith)
            requires
                s < 0,
                t >= 0,
                p == s * t,
        ;
        assert(s * d <= p) by (nonlinear_arith)
            requires
                s < 0,
                0 <= t <= d,
                p == s * t,
        ;
        lemma_div_is_ordered(p, 0, d);
        lemma_div_is_ordered(s * d, p, d);
        lemma_div_multiples_vanish(s, d);
        assert(0int / d == 0) by {
            lemma_fundamental_div_mod_converse(0, d, 0, 0);
        }
    }
    if a == a0 {
        assert(p == 0) by (nonlinear_arith)
            requires
                t == 0,
                p == s * t,
        ;
        assert(0int / d == 0) by {
            lemma_fundamental_div_mod_converse(0, d, 0, 0);
        }
    }
    if a == a1 {
        assert(p == s * d);
        lemma_div_multiples_vanish(s, d);
    }
}

/// Division rounding toward negative infinity, for a positive divisor.
pub fn floor_div(n: i128, d: i128) -> (q: i128)
    requires
        d > 0,
        -0x1_0000_0000_0000_0000 < n < 0x1_0000_0000_0000_0000,
    ensures
        q == n as int / d as int,
{
    if n >= 0 {
        n / d
    } else {
        let m: i128 = -n;
        let q0: i128 = m / d;
        let r0: i128 = m % d;
        proof {
            lemma_fundamental_div_mod(m as int, d as int);
            lemma_mul_is_commutative(d as int, q0 as int);
        }
        if r0 == 0 {
            proof {
                assert(n == (-(q0 as int)) * d + 0) by (nonlinear_arith)
                    requires
                        n == -m,
                        m == q0 * d + 0,
                ;
                lemma_fundamental_div_mod_converse(n as int, d as int, -(q0 as int), 0);
            }
            -q0
        } else {
            proof {
                assert(n == (-(q0 as int) - 1) * d + (d - r0)) by (nonlinear_arith)
                    requires
                        n == -m,
                        m == q0 * d + r0,
                ;
                lemma_fundamental_div_mod_converse(
                    n as int,
                    d as int,
                    -(q0 as int) - 1,
                    (d - r0) as int,
                );
            }
            -q0 - 1
        }
    }
}

/// Computes the tile column (or row) that holds a subpixel coordinate.
pub fn tile_floor(v: i32) -> (t: i32)
    ensures
        t == spec_tile_floor(v as int),
        -0x8_0000 <= t < 0x8_0000,
{
    if v >= 0 {
        v / 4096
    } else {
        -((-(v + 1)) / 4096) - 1
    }
}

/// Calls `pathfinder_geometry::util::alignup_i32`, which divides `a` by `b` and rounds
/// up. It adds `a` and `b` in `i32`, takes one off and divides by `b`: for a dividend
/// that is not negative and a divisor above zero this is the quotient rounded up, as
/// long as the sum of the two does not overflow.
#[verifier::external_body]
fn alignup_i32(a: i32, b: i32) -> (aligned: i32)
    requires
        0 <= a,
        0 < b,
        a + b <= i32::MAX,
    ensures
        aligned == (a + b - 1) / (b as int),
{
    pathfinder_geometry::util::alignup_i32(a, b)
}

/// Computes the first tile boundary at or after a subpixel coordinate, in tiles.
pub fn tile_ceil(v: i32) -> (t: i32)
    ensures
        t == spec_tile_ceil(v as int),
        -0x8_0000 <= t <= 0x8_0000,
{
    if 0 <= v && v <= i32::MAX - 4096 {
        alignup_i32(v, SUBPIXELS_PER_TILE)
    } else if v > 0 {
        (v - 1) / 4096 + 1
    } else {
        let w: i64 = -(v as i64);
        (-(w / 4096)) as i32
    }
}

/// Computes the value at `a` of the line through `(a0, b0)` and `(a1, b1)`, rounded down.
pub fn interpolate(a0: i32, a1: i32, b0: i32, b1: i32, a: i32) -> (b: i32)
    requires
        a0 < a1,
        a0 <= a <= a1,
    ensures
        b == spec_interpolate(a0 as int, a1 as int, b0 as int, b1 as int, a as int),
        spec_min(b0 as int, b1 as int) <= b <= spec_max(b0 as int, b1 as int),
        a == a0 ==> b == b0,
        a == a1 ==> b == b1,
{
    let d: i128 = a1 as i128 - a0 as i128;
    let t: i128 = a as i128 - a0 as i128;
    let s: i128 = b1 as i128 - b0 as i128;
    assert(-0x1_0000_0000_0000_0000 < s * t < 0x1_0000_0000_0000_0000) by (nonlinear_arith)
        requires
            -0x1_0000_0000 < s < 0x1_0000_0000,
            0 <= t < 0x1_0000_0000,
    ;
    let q: i128 = floor_div(s * t, d);
    proof {
        lemma_interpolate_bounds(a0 as int, a1 as int, b0 as int, b1 as int, a as int);
    }
    (b0 as i128 + q) as i32
}

/// A vector of two integers: a position in subpixels, or a tile coordinate.
#[derive(Clone, Copy, Debug, PartialEq, Eq, Structural)]
pub struct Vector2I {
    pub x: i32,
    pub y: i32,
}

impl Vector2I {
    pub fn new(x: i32, y: i32) -> (v: Vector2I)
        ensures
            v == (Vector2I { x, y }),
    {
        Vector2I { x, y }
    }

    pub fn x(&self) -> (x: i32)
        ensures
            x == self.x,
    {
        self.x
    }

    pub fn y(&self) -> (y: i32)
        ensures
            y == self.y,
    {
        self.y
    }
}

/// A directed line segment between two positions in subpixels.
#[derive(Clone, Copy, Debug, PartialEq, Eq, Structural)]
pub struct LineSegment {
    pub from: Vector2I,
    pub to: Vector2I,
}

impl LineSegment {
    /// The horizontal position of the end that lies further left.
    pub open spec fn spec_min_x(&self) -> int {
        spec_min(self.from.x as int, self.to.x as int)
    }

    /// The horizontal position of the end that lies further right.
    pub open spec fn spec_max_x(&self) -> int {
        spec_max(self.from.x as int, self.to.x as int)
    }

    /// The height of the upper end.
    pub open spec fn spec_min_y(&self) -> int {
        spec_min(self.from.y as int, self.to.y as int)
    }

    /// The height of the lower end.
    pub open spec fn spec_max_y(&self) -> int {
        spec_max(self.from.y as int, self.to.y as int)
    }

    /// The horizontal position at which the segment meets height `y`, rounded down.
    /// The two orientations of one segment give the same position.
    pub open spec fn spec_solve_x_for_y(&self, y: int) -> int
        recommends
            self.from.y != self.to.y,
    {
        if self.from.y < self.to.y {
            spec_interpolate(
                self.from.y as int,
                self.to.y as int,
                self.from.x as int,
                self.to.x as int,
                y,
            )
        } else {
            spec_interpolate(
                self.to.y as int,
                self.from.y as int,
                self.to.x as int,
                self.from.x as int,
                y,
            )
        }
    }

    /// The height at which the segment meets horizontal position `x`, rounded down.
    /// The two orientations of one segment give the same height.
    pub open spec fn spec_solve_y_for_x(&self, x: int) -> int
        recommends
            self.from.x != self.to.x,
    {
        if self.from.x < self.to.x {
            spec_interpolate(
                self.from.x as int,
                self.to.x as int,
                self.from.y as int,
                self.to.y as int,
                x,
            )
        } else {
            spec_interpolate(
                self.to.x as int,
                self.from.x as int,
                self.to.y as int,
                self.from.y as int,
                x,
            )
        }
    }

    pub fn new(from: Vector2I, to: Vector2I) -> (segment: LineSegment)
        ensures
            segment == (LineSegment { from, to }),
    {
        LineSegment { from, to }
    }

    pub fn min_x(&self) -> (v: i32)
        ensures
            v == self.spec_min_x(),
    {
        if self.from.x <= self.to.x {
            self.from.x
        } else {
            self.to.x
        }
    }

    pub fn max_x(&self) -> (v: i32)
        ensures
            v == self.spec_max_x(),
    {
        if self.from.x >= self.to.x {
            self.from.x
        } else {
            self.to.x
        }
    }

    pub fn min_y(&self) -> (v: i32)
        ensures
            v == self.spec_min_y(),
    {
        if self.from.y <= self.to.y {
            self.from.y
        } else {
            self.to.y
        }
    }

    pub fn max_y(&self) -> (v: i32)
        ensures
            v == self.spec_max_y(),
    {
        if self.from.y >= self.to.y {
            self.from.y
        } else {
            self.to.y
        }
    }

    /// Finds where the segment meets height `y`.
    pub fn solve_x_for_y(&self, y: i32) -> (x: i32)
        requires
            self.from.y != self.to.y,
            self.spec_min_y() <= y <= self.spec_max_y(),
        ensures
            x == self.spec_solve_x_for_y(y as int),
            self.spec_min_x() <= x <= self.spec_max_x(),
            y == self.from.y ==> x == self.from.x,
            y == self.to.y ==> x == self.to.x,
    {
        if self.from.y < self.to.y {
            interpolate(self.from.y, self.to.y, self.from.x, self.to.x, y)
        } else {
            interpolate(self.to.y, self.from.y, self.to.x, self.from.x, y)
        }
    }

    /// Finds where the segment meets horizontal position `x`.
    pub fn solve_y_for_x(&self, x: i32) -> (y: i32)
        requires
            self.from.x != self.to.x,
            self.spec_min_x() <= x <= self.spec_max_x(),
        ensures
            y == self.spec_solve_y_for_x(x as int),
            self.spec_min_y() <= y <= self.spec_max_y(),
            x == self.from.x ==> y == self.from.y,
            x == self.to.x ==> y == self.to.y,
    {
        if self.from.x < self.to.x {
            interpolate(self.from.x, self.to.x, self.from.y, self.to.y, x)
        } else {
            interpolate(self.to.x, self.from.x, self.to.y, self.from.y, x)
        }
    }
}

/// An axis-aligned rectangle that holds the positions `p` with
/// `origin <= p < lower_right` in both coordinates.
#[derive(Clone, Copy, Debug, PartialEq, Eq, Structural)]
pub struct RectI {
    pub origin: Vector2I,
    pub lower_right: Vector2I,
}

impl RectI {
    /// A rectangle is well formed when its corners are in order.
    pub open spec fn wf(&self) -> bool {
        self.origin.x <= self.lower_right.x && self.origin.y <= self.lower_right.y
    }

    /// The distance between the left and the right edge.
    pub open spec fn spec_width(&self) -> int {
        self.lower_right.x - self.origin.x
    }

    /// The distance between the upper and the lower edge.
    pub open spec fn spec_height(&self) -> int {
        self.lower_right.y - self.origin.y
    }

    /// The number of positions that the rectangle holds.
    pub open spec fn spec_area(&self) -> int {
        self.spec_width() * self.spec_height()
    }

    /// Whether the rectangle holds no position.
    pub open spec fn spec_is_empty(&self) -> bool {
        self.origin.x >= self.lower_right.x || self.origin.y >= self.lower_right.y
    }

    /// Whether the rectangle holds the position: its right and lower edges lie outside.
    pub open spec fn spec_contains_point(&self, point: Vector2I) -> bool {
        self.origin.x <= point.x < self.lower_right.x && self.origin.y <= point.y
            < self.lower_right.y
    }

    /// The overlap of two rectangles, or the zero rectangle where they do not meet.
    pub open spec fn spec_intersection(&self, other: RectI) -> RectI {
        let min_x = spec_max(self.origin.x as int, other.origin.x as int);
        let min_y = spec_max(self.origin.y as int, other.origin.y as int);
        let max_x = spec_min(self.lower_right.x as int, other.lower_right.x as int);
        let max_y = spec_min(self.lower_right.y as int, other.lower_right.y as int);
        if min_x <= max_x && min_y <= max_y {
            RectI {
                origin: Vector2I { x: min_x as i32, y: min_y as i32 },
                lower_right: Vector2I { x: max_x as i32, y: max_y as i32 },
            }
        } else {
            RectI {
                origin: Vector2I { x: 0, y: 0 },
                lower_right: Vector2I { x: 0, y: 0 },
            }
        }
    }

    /// The smallest rectangle of whole tiles that covers a rectangle of subpixels.
    pub open spec fn spec_round_out_to_tile_bounds(&self) -> RectI {
        RectI {
            origin: Vector2I {
                x: spec_tile_floor(self.origin.x as int) as i32,
                y: spec_tile_floor(self.origin.y as int) as i32,
            },
            lower_right: Vector2I {
                x: spec_tile_ceil(self.lower_right.x as int) as i32,
                y: spec_tile_ceil(self.lower_right.y as int) as i32,
            },
        }
    }

    pub fn new(origin: Vector2I, lower_right: Vector2I) -> (rect: RectI)
        ensures
            rect == (RectI { origin, lower_right }),
    {
        RectI { origin, lower_right }
    }

    pub fn min_x(&self) -> (v: i32)
        ensures
            v == self.origin.x,
    {
        self.origin.x
    }

    pub fn min_y(&self) -> (v: i32)
        ensures
            v == self.origin.y,
    {
        self.origin.y
    }

    pub fn max_x(&self) -> (v: i32)
        ensures
            v == self.lower_right.x,
    {
        self.lower_right.x
    }

    pub fn max_y(&self) -> (v: i32)
        ensures
            v == self.lower_right.y,
    {
        self.lower_right.y
    }

    pub fn width(&self) -> (w: u32)
        requires
            self.wf(),
        ensures
            w == self.spec_width(),
    {
        (self.lower_right.x as i64 - self.origin.x as i64) as u32
    }

    pub fn height(&self) -> (h: u32)
        requires
            self.wf(),
        ensures
            h == self.spec_height(),
    {
        (self.lower_right.y as i64 - self.origin.y as i64) as u32
    }

    /// Computes the number of positions that the rectangle holds.
    pub fn area(&self) -> (a: u64)
        requires
            self.wf(),
        ensures
            a == self.spec_area(),
    {
        let w: u64 = self.width() as u64;
        let h: u64 = self.height() as u64;
        assert(w * h <= 0xFFFF_FFFF * 0xFFFF_FFFF) by (nonlinear_arith)
            requires
                w <= 0xFFFF_FFFF,
                h <= 0xFFFF_FFFF,
        ;
        w * h
    }

    pub fn is_empty(&self) -> (b: bool)
        ensures
            b == self.spec_is_empty(),
    {
        self.origin.x >= self.lower_right.x || self.origin.y >= self.lower_right.y
    }

    /// Tells whether the rectangle holds a position.
    pub fn contains_point(&self, point: Vector2I) -> (b: bool)
        ensures
            b == self.spec_contains_point(point),
    {
        self.origin.x <= point.x && point.x < self.lower_right.x && self.origin.y <= point.y
            && point.y < self.lower_right.y
    }

    /// Computes the overlap of two rectangles, or the zero rectangle where they do not meet.
    pub fn intersection(&self, other: RectI) -> (rect: RectI)
        ensures
            rect == self.spec_intersection(other),
            rect.wf(),
    {
        let min_x: i32 = if self.origin.x >= other.origin.x {
            self.origin.x
        } else {
            other.origin.x
        };
        let min_y: i32 = if self.origin.y >= other.origin.y {
            self.origin.y
        } else {
            other.origin.y
        };
        let max_x: i32 = if self.lower_right.x <= other.lower_right.x {
            self.lower_right.x
        } else {
            other.lower_right.x
        };
        let max_y: i32 = if self.lower_right.y <= other.lower_right.y {
            self.lower_right.y
        } else {
            other.lower_right.y
        };
        if min_x <= max_x && min_y <= max_y {
            RectI {
                origin: Vector2I { x: min_x, y: min_y },
                lower_right: Vector2I { x: max_x, y: max_y },
            }
        } else {
            RectI { origin: Vector2I { x: 0, y: 0 }, lower_right: Vector2I { x: 0, y: 0 } }
        }
    }

    /// Rounds a rectangle of subpixels outward to whole tiles.
    pub fn round_out_to_tile_bounds(&self) -> (rect: RectI)
        ensures
            rect == self.spec_round_out_to_tile_bounds(),
            self.wf() ==> rect.wf(),
            -0x8_0000 <= rect.origin.x < 0x8_0000,
            -0x8_0000 <= rect.origin.y < 0x8_0000,
            -0x8_0000 <= rect.lower_right.x <= 0x8_0000,
            -0x8_0000 <= rect.lower_right.y <= 0x8_0000,
    {
        RectI {
            origin: Vector2I { x: tile_floor(self.origin.x), y: tile_floor(self.origin.y) },
            lower_right: Vector2I {
                x: tile_ceil(self.lower_right.x),
                y: tile_ceil(self.lower_right.y),
            },
        }
    }
}

} // verus!
