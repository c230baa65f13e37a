//! Integer vectors, boxes and directions in the plane.

use vstd::prelude::*;

verus! {

/// Whether a mathematical integer is representable as an `i32`.
pub open spec fn fits(v: int) -> bool {
    i32::MIN <= v <= i32::MAX
}

pub open spec fn min_int(a: int, b: int) -> int {
    if a <= b {
        a
    } else {
        b
    }
}

pub open spec fn max_int(a: int, b: int) -> int {
    if a >= b {
        a
    } else {
        b
    }
}

pub open spec fn abs_int(a: int) -> int {
    if a >= 0 {
        a
    } else {
        -a
    }
}

/// Half of `a`, rounded toward zero.
pub open spec fn half_toward_zero(a: int) -> int {
    if a >= 0 {
        a / 2
    } else {
        -((-a) / 2)
    }
}

/// `v` moved to the nearest end of `lo..=hi` if it lies outside.
pub open spec fn clamp_int(v: int, lo: int, hi: int) -> int {
    if v < lo {
        lo
    } else if v > hi {
        hi
    } else {
        v
    }
}

/// A point or an offset in the plane: a tile position or a world position.
#[derive(Clone, Copy, PartialEq, Eq, Structural, Debug, Hash)]
pub struct Vec2 {
    pub x: i32,
    pub y: i32,
}

impl Vec2 {
    pub fn new(x: i32, y: i32) -> (r: Vec2)
        ensures
            r.x == x,
            r.y == y,
    {
        Vec2 { x, y }
    }

    pub fn zero() -> (r: Vec2)
        ensures
            r.x == 0,
            r.y == 0,
    {
        Vec2 { x: 0, y: 0 }
    }

    /// Whether the point moved by `(dx, dy)` is representable.
    pub open spec fn offset_fits(self, dx: int, dy: int) -> bool {
        fits(self.x + dx) && fits(self.y + dy)
    }

    /// The point moved by `(dx, dy)`.
    pub fn offset(self, dx: i32, dy: i32) -> (r: Vec2)
        requires
            self.offset_fits(dx as int, dy as int),
        ensures
            r.x == self.x + dx,
            r.y == self.y + dy,
    {
        Vec2 { x: self.x + dx, y: self.y + dy }
    }

    /// The square of the distance between two points.
    pub open spec fn distance_squared_to(self, other: Vec2) -> int {
        (self.x - other.x) * (self.x - other.x) + (self.y - other.y) * (self.y - other.y)
    }

    pub fn distance_squared(self, other: Vec2) -> (r: i128)
        ensures
            r == self.distance_squared_to(other),
    {
        let dx: i128 = self.x as i128 - other.x as i128;
        let dy: i128 = self.y as i128 - other.y as i128;
        assert(dx * dx + dy * dy <= 2 * 0x1_0000_0000 * 0x1_0000_0000 && dx * dx >= 0 && dy * dy
            >= 0) by (nonlinear_arith)
            requires
                -0x1_0000_0000 <= dx <= 0x1_0000_0000,
                -0x1_0000_0000 <= dy <= 0x1_0000_0000,
        ;
        dx * dx + dy * dy
    }
}

/// An axis-aligned box. As an area of tiles it holds `min` and not `max`; as the bounds of a
/// [`TileGrid`](crate::TileGrid) it holds both.
#[derive(Clone, Copy, PartialEq, Eq, Structural, Debug, Hash)]
pub struct Aabr {
    pub min: Vec2,
    pub max: Vec2,
}

impl Aabr {
    pub open spec fn width(self) -> int {
        self.max.x - self.min.x
    }

    pub open spec fn height(self) -> int {
        self.max.y - self.min.y
    }

    /// Whether `(x, y)` lies in the box, with `max` left out.
    pub open spec fn holds(self, x: int, y: int) -> bool {
        self.min.x <= x < self.max.x && self.min.y <= y < self.max.y
    }

    /// Whether `(x, y)` lies in the box, with `max` included.
    pub open spec fn encloses(self, x: int, y: int) -> bool {
        self.min.x <= x <= self.max.x && self.min.y <= y <= self.max.y
    }

    /// Whether the box, with `max` left out, holds nothing.
    pub open spec fn is_void(self) -> bool {
        self.width() <= 0 || self.height() <= 0
    }

    pub open spec fn center_x(self) -> int {
        half_toward_zero(self.min.x + self.max.x)
    }

    pub open spec fn center_y(self) -> int {
        half_toward_zero(self.min.y + self.max.y)
    }

    /// The midpoint, with each coordinate rounded toward zero.
    pub fn center(self) -> (r: Vec2)
        ensures
            r.x == self.center_x(),
            r.y == self.center_y(),
    {
        let x: i64 = (self.min.x as i64 + self.max.x as i64) / 2;
        let y: i64 = (self.min.y as i64 + self.max.y as i64) / 2;
        Vec2 { x: x as i32, y: y as i32 }
    }

    /// The smallest box, with `max` included, around this one and a point.
    pub fn expanded_to_contain_point(self, p: Vec2) -> (r: Aabr)
        ensures
            r.min.x == min_int(self.min.x as int, p.x as int),
            r.min.y == min_int(self.min.y as int, p.y as int),
            r.max.x == max_int(self.max.x as int, p.x as int),
            r.max.y == max_int(self.max.y as int, p.y as int),
    {
        Aabr {
            min: Vec2 {
                x: if self.min.x <= p.x {
                    self.min.x
                } else {
                    p.x
                },
                y: if self.min.y <= p.y {
                    self.min.y
                } else {
                    p.y
                },
            },
            max: Vec2 {
                x: if self.max.x >= p.x {
                    self.max.x
                } else {
                    p.x
                },
                y: if self.max.y >= p.y {
                    self.max.y
                } else {
                    p.y
                },
            },
        }
    }
}

/// Whether `hull` is the smallest box, with `max` included, around `start` and every point of
/// `points`.
pub open spec fn is_hull(hull: Aabr, start: Aabr, points: Set<(int, int)>) -> bool {
    &&& hull.min.x <= start.min.x && hull.min.y <= start.min.y
    &&& hull.max.x >= start.max.x && hull.max.y >= start.max.y
    &&& forall|p: (int, int)| #[trigger]
        points.contains(p) ==> hull.encloses(p.0, p.1)
    &&& hull.min.x == start.min.x || exists|p: (int, int)| #[trigger]
        points.contains(p) && p.0 == hull.min.x
    &&& hull.min.y == start.min.y || exists|p: (int, int)| #[trigger]
        points.contains(p) && p.1 == hull.min.y
    &&& hull.max.x == start.max.x || exists|p: (int, int)| #[trigger]
        points.contains(p) && p.0 == hull.max.x
    &&& hull.max.y == start.max.y || exists|p: (int, int)| #[trigger]
        points.contains(p) && p.1 == hull.max.y
}

/// One of the four axis directions.
#[derive(Clone, Copy, PartialEq, Eq, Structural, Debug, Hash)]
pub enum Dir {
    X,
    Y,
    NegX,
    NegY,
}

impl Dir {
    pub open spec fn spec_opposite(self) -> Dir {
        match self {
            Dir::X => Dir::NegX,
            Dir::Y => Dir::NegY,
            Dir::NegX => Dir::X,
            Dir::NegY => Dir::Y,
        }
    }

    pub fn opposite(self) -> (r: Dir)
        ensures
            r == self.spec_opposite(),
    {
        match self {
            Dir::X => Dir::NegX,
            Dir::Y => Dir::NegY,
            Dir::NegX => Dir::X,
            Dir::NegY => Dir::Y,
        }
    }

    /// The step of length one in this direction.
    pub open spec fn step(self) -> Vec2 {
        match self {
            Dir::X => Vec2 { x: 1, y: 0 },
            Dir::Y => Vec2 { x: 0, y: 1 },
            Dir::NegX => Vec2 { x: (-1) as i32, y: 0 },
            Dir::NegY => Vec2 { x: 0, y: (-1) as i32 },
        }
    }

    pub fn to_vec2(self) -> (r: Vec2)
        ensures
            r == self.step(),
    {
        match self {
            Dir::X => Vec2 { x: 1, y: 0 },
            Dir::Y => Vec2 { x: 0, y: 1 },
            Dir::NegX => Vec2 { x: -1, y: 0 },
            Dir::NegY => Vec2 { x: 0, y: -1 },
        }
    }

    /// The point on the side of `aabr` that faces this direction, level with `other`.
    pub open spec fn side_point(self, aabr: Aabr, other: Vec2) -> Vec2 {
        match self {
            Dir::X => Vec2 { x: aabr.max.x, y: other.y },
            Dir::Y => Vec2 { x: other.x, y: aabr.max.y },
            Dir::NegX => Vec2 { x: aabr.min.x, y: other.y },
            Dir::NegY => Vec2 { x: other.x, y: aabr.min.y },
        }
    }

    pub fn select_aabr_with(self, aabr: Aabr, other: Vec2) -> (r: Vec2)
        ensures
            r == self.side_point(aabr, other),
    {
        match self {
            Dir::X => Vec2 { x: aabr.max.x, y: other.y },
            Dir::Y => Vec2 { x: other.x, y: aabr.max.y },
            Dir::NegX => Vec2 { x: aabr.min.x, y: other.y },
            Dir::NegY => Vec2 { x: other.x, y: aabr.min.y },
        }
    }
}

} // verus!
