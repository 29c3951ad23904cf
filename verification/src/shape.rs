//! Entities and their geometry. Every entity of the game — the player circle,
//! the falling squares and the bullets — is one `Shape`, read either as a
//! circle of diameter `size` or as an axis-aligned square of side `size`,
//! centered at `(x, y)`.
//!
//! All lengths are in milli-pixels: 1000 units to one pixel of the playfield.
//! `Circle` and `Rect` carry doubled coordinates (2000 units to one pixel), so
//! that the radius and the corners of an odd-sized shape stay exact integers.

use vstd::prelude::*;

verus! {

/// Palette of the game: squares spawn green, blue or red; bullets are red;
/// the player circle is yellow.
#[derive(Clone, Copy, PartialEq, Eq, Structural, Debug)]
pub enum Color {
    Green,
    Blue,
    Red,
    Yellow,
}

/// Largest magnitude a coordinate may have, in milli-pixels. Entities that
/// fall or fly past this line are held at it; the playfield is far smaller,
/// so such an entity is off screen and pruned on the same frame.
pub const MAX_COORD: i64 = 100_000_000;

/// Largest side length / diameter of a shape, in milli-pixels.
pub const MAX_SIZE: i64 = 1_000_000;

/// Largest speed of a shape, in milli-pixels per second.
pub const MAX_SPEED: i64 = 1_000_000;

/// One entity. `size` is the side of the square or the diameter of the
/// circle; `speed` is unsigned, the direction of motion comes from the role
/// (squares fall, bullets rise). `collided` marks squares and bullets for
/// removal by the next pruning pass; it is never set on the player.
#[derive(Clone, Copy, PartialEq, Eq, Structural, Debug)]
pub struct Shape {
    pub size: i64,
    pub speed: i64,
    pub x: i64,
    pub y: i64,
    pub color: Color,
    pub collided: bool,
}

/// A circle in doubled coordinates: center `(x2 / 2, y2 / 2)`, radius `r2 / 2`
/// milli-pixels.
#[derive(Clone, Copy, PartialEq, Eq, Structural, Debug)]
pub struct Circle {
    pub x2: i64,
    pub y2: i64,
    pub r2: i64,
}

/// An axis-aligned rectangle in doubled coordinates: top-left corner
/// `(x2 / 2, y2 / 2)`, extent `(w2 / 2, h2 / 2)` milli-pixels.
#[derive(Clone, Copy, PartialEq, Eq, Structural, Debug)]
pub struct Rect {
    pub x2: i64,
    pub y2: i64,
    pub w2: i64,
    pub h2: i64,
}

/// Distance between two points of the integer line.
pub open spec fn dist(a: int, b: int) -> int {
    if a >= b {
        a - b
    } else {
        b - a
    }
}

impl Circle {
    /// Bounds under which the overlap arithmetic stays inside `i64`.
    pub open spec fn wf(self) -> bool {
        &&& 0 < self.r2 <= MAX_SIZE
        &&& -2 * (MAX_COORD as int) <= self.x2 <= 2 * (MAX_COORD as int)
        &&& -2 * (MAX_COORD as int) <= self.y2 <= 2 * (MAX_COORD as int)
    }
}

impl Rect {
    /// Bounds under which the overlap arithmetic stays inside `i64`.
    pub open spec fn wf(self) -> bool {
        &&& 0 < self.w2 <= 2 * (MAX_SIZE as int)
        &&& 0 < self.h2 <= 2 * (MAX_SIZE as int)
        &&& -3 * (MAX_COORD as int) <= self.x2 <= 3 * (MAX_COORD as int)
        &&& -3 * (MAX_COORD as int) <= self.y2 <= 3 * (MAX_COORD as int)
    }
}

/// Whether a circle and an axis-aligned rectangle share a point: they are
/// apart when the center is farther from the rectangle's center than the
/// half-extent plus the radius on either axis; they surely meet when the
/// center is within the half-extent on one axis; otherwise the nearest corner
/// decides by the squared distance to the center.
pub open spec fn circle_overlaps_rect(c: Circle, r: Rect) -> bool {
    let half_w: int = r.w2 as int / 2;
    let half_h: int = r.h2 as int / 2;
    let dist_x: int = dist(c.x2 as int, r.x2 + half_w);
    let dist_y: int = dist(c.y2 as int, r.y2 + half_h);
    if dist_x > half_w + c.r2 || dist_y > half_h + c.r2 {
        false
    } else if dist_x <= half_w || dist_y <= half_h {
        true
    } else {
        let ex: int = dist_x - half_w;
        let ey: int = dist_y - half_h;
        ex * ex + ey * ey <= c.r2 * c.r2
    }
}

impl Circle {
    /// Overlap test, the executable side of `circle_overlaps_rect`.
    pub fn overlaps_rect(&self, rect: &Rect) -> (b: bool)
        requires
            self.wf(),
            rect.wf(),
        ensures
            b == circle_overlaps_rect(*self, *rect),
    {
        let half_w: i64 = rect.w2 / 2;
        let half_h: i64 = rect.h2 / 2;
        let cx: i64 = rect.x2 + half_w;
        let cy: i64 = rect.y2 + half_h;
        let dist_x: i64 = if self.x2 >= cx {
            self.x2 - cx
        } else {
            cx - self.x2
        };
        let dist_y: i64 = if self.y2 >= cy {
            self.y2 - cy
        } else {
            cy - self.y2
        };
        if dist_x > half_w + self.r2 || dist_y > half_h + self.r2 {
            false
        } else if dist_x <= half_w || dist_y <= half_h {
            true
        } else {
            let ex: i64 = dist_x - half_w;
            let ey: i64 = dist_y - half_h;
            proof {
                assert(0 < ex <= MAX_SIZE && 0 < ey <= MAX_SIZE);
                assert(ex * ex <= MAX_SIZE * MAX_SIZE && ey * ey <= MAX_SIZE * MAX_SIZE)
                    by (nonlinear_arith)
                    requires
                        0 < ex <= MAX_SIZE,
                        0 < ey <= MAX_SIZE,
                ;
                assert(0 <= ex * ex && 0 <= ey * ey) by (nonlinear_arith);
                assert(self.r2 * self.r2 <= MAX_SIZE * MAX_SIZE) by (nonlinear_arith)
                    requires
                        0 < self.r2 <= MAX_SIZE,
                ;
                assert(0 <= self.r2 * self.r2) by (nonlinear_arith);
            }
            ex * ex + ey * ey <= self.r2 * self.r2
        }
    }
}

impl Shape {
    /// Field bounds every live entity keeps: a positive side no longer than
    /// `MAX_SIZE`, an unsigned speed no faster than `MAX_SPEED`, and a center
    /// within the coordinate range.
    pub open spec fn valid(self) -> bool {
        &&& 0 < self.size <= MAX_SIZE
        &&& 0 <= self.speed <= MAX_SPEED
        &&& -MAX_COORD <= self.x <= MAX_COORD
        &&& -MAX_COORD <= self.y <= MAX_COORD
    }

    /// The shape read as a circle, in doubled coordinates. The casts lose
    /// nothing on a `valid` shape.
    pub open spec fn as_circle(self) -> Circle {
        Circle { x2: (2 * self.x) as i64, y2: (2 * self.y) as i64, r2: self.size }
    }

    /// The shape read as a square, in doubled coordinates. The casts lose
    /// nothing on a `valid` shape.
    pub open spec fn as_rect(self) -> Rect {
        Rect {
            x2: (2 * self.x - self.size) as i64,
            y2: (2 * self.y - self.size) as i64,
            w2: (2 * self.size) as i64,
            h2: (2 * self.size) as i64,
        }
    }

    /// The circle of diameter `size` centered at `(x, y)`.
    pub fn circle(&self) -> (c: Circle)
        requires
            self.valid(),
        ensures
            c == self.as_circle(),
            c.wf(),
    {
        Circle { x2: 2 * self.x, y2: 2 * self.y, r2: self.size }
    }

    /// The square of side `size` centered at `(x, y)`.
    pub fn rect(&self) -> (r: Rect)
        requires
            self.valid(),
        ensures
            r == self.as_rect(),
            r.wf(),
    {
        Rect {
            x2: 2 * self.x - self.size,
            y2: 2 * self.y - self.size,
            w2: 2 * self.size,
            h2: 2 * self.size,
        }
    }

    /// Whether `self`, read as a circle, overlaps `other`, read as a square.
    pub fn collides_with(&self, other: &Shape) -> (b: bool)
        requires
            self.valid(),
            other.valid(),
        ensures
            b == shape_hits(*self, *other),
    {
        self.circle().overlaps_rect(&other.rect())
    }
}

/// Whether the circle of `c` overlaps the square of `s`.
pub open spec fn shape_hits(c: Shape, s: Shape) -> bool {
    circle_overlaps_rect(c.as_circle(), s.as_rect())
}

} // verus!
