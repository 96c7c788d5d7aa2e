//! Fixed-point world geometry: coordinates, vectors and axis-aligned boxes.
//!
//! World coordinates are measured in thousandths of a pixel. One world unit
//! spans `PIXELS_PER_UNIT` pixels, so a unit is `COORD_ONE` sub-units.
//! Time is measured in microseconds.
use vstd::prelude::*;

verus! {

/// A world coordinate, in thousandths of a pixel.
pub type Coord = i64;

/// A duration or a point in time, in microseconds.
pub type Time = i64;

/// Number of pixels in one world unit.
pub const PIXELS_PER_UNIT: i64 = 16;

/// Number of coordinate sub-units in one pixel.
pub const SUBPIXELS: i64 = 1000;

/// Number of coordinate sub-units in one world unit.
pub const COORD_ONE: i64 = 16000;

/// Number of time units in one second.
pub const TIME_ONE: i64 = 1_000_000;

/// Whether a mathematical integer fits in a `Coord`.
pub open spec fn fits(v: int) -> bool {
    i64::MIN <= v <= i64::MAX
}

/// Whether a mathematical integer fits in an `isize`.
pub open spec fn fits_isize(v: int) -> bool {
    isize::MIN <= v <= isize::MAX
}

/// Division rounding towards negative infinity, for a positive divisor.
pub fn floor_div(a: i64, b: i64) -> (q: i64)
    requires
        b > 0,
    ensures
        q == a / b,
{
    if a >= 0 {
        a / b
    } else {
        let t = a / b;
        proof {
            lemma_trunc_neg(a as int, b as int);
        }
        if t * b == a {
            t
        } else {
            t - 1
        }
    }
}

/// Remainder of the division rounding towards negative infinity, for a positive divisor.
pub fn floor_mod(a: i64, b: i64) -> (r: i64)
    requires
        b > 0,
    ensures
        r == a % b,
        0 <= r < b,
{
    let t = a % b;
    proof {
        lemma_trunc_mod(a as int, b as int);
    }
    if t < 0 {
        t + b
    } else {
        t
    }
}

proof fn lemma_trunc_mod(a: int, b: int)
    requires
        b > 0,
    ensures
        ({
            let t = if a >= 0 { a % b } else { -((-a) % b) };
            &&& -b < t < b
            &&& t >= 0 ==> t == a % b
            &&& t < 0 ==> t + b == a % b
        }),
{
    if a >= 0 {
        vstd::arithmetic::div_mod::lemma_fundamental_div_mod(a, b);
    } else {
        let n = -a;
        vstd::arithmetic::div_mod::lemma_fundamental_div_mod(n, b);
        let q = n / b;
        let r = n % b;
        if r == 0 {
            assert(a == b * (-q) + 0) by (nonlinear_arith)
                requires
                    n == b * q + r,
                    r == 0,
                    a == -n,
            ;
            vstd::arithmetic::div_mod::lemma_fundamental_div_mod_converse(a, b, -q, 0);
        } else {
            assert(a == (-q - 1) * b + (b - r)) by (nonlinear_arith)
                requires
                    n == b * q + r,
                    a == -n,
            ;
            vstd::arithmetic::div_mod::lemma_fundamental_div_mod_converse(a, b, -q - 1, b - r);
        }
    }
}

proof fn lemma_trunc_neg(a: int, b: int)
    requires
        b > 0,
        a < 0,
    ensures
        ({
            let t = -((-a) / b);
            &&& a <= t * b <= 0
            &&& t * b == a ==> t == a / b
            &&& t * b != a ==> t - 1 == a / b
            &&& a / b <= t <= 0
            &&& t * b <= t
        }),
{
    let n = -a;
    let q = n / b;
    let r = n % b;
    vstd::arithmetic::div_mod::lemma_fundamental_div_mod(n, b);
    assert(0 <= r < b);
    assert(n == b * q + r);
    let t = -q;
    assert(q >= 0) by {
        vstd::arithmetic::div_mod::lemma_div_pos_is_pos(n, b);
    }
    assert(t * b == -(b * q)) by (nonlinear_arith)
        requires
            t == -q,
    ;
    assert(t * b <= t) by (nonlinear_arith)
        requires
            t <= 0,
            b >= 1,
    ;
    if r == 0 {
        assert(a == t * b + 0);
        vstd::arithmetic::div_mod::lemma_fundamental_div_mod_converse(a, b, t, 0);
    } else {
        assert(a == (t - 1) * b + (b - r)) by (nonlinear_arith)
            requires
                a == -n,
                n == b * q + r,
                t == -q,
        ;
        vstd::arithmetic::div_mod::lemma_fundamental_div_mod_converse(a, b, t - 1, b - r);
    }
}

/// A vector of world coordinates.
#[derive(Clone, Copy, Debug, PartialEq, Eq, Structural)]
pub struct Vec2 {
    pub x: Coord,
    pub y: Coord,
}

/// A vector of grid (cell) coordinates.
#[derive(Clone, Copy, Debug, PartialEq, Eq, Hash, Structural)]
pub struct IVec2 {
    pub x: isize,
    pub y: isize,
}

/// A vector of sizes or non-negative cell coordinates.
#[derive(Clone, Copy, Debug, PartialEq, Eq, Structural)]
pub struct UVec2 {
    pub x: usize,
    pub y: usize,
}

/// An axis-aligned box in world coordinates.
#[derive(Clone, Copy, Debug, PartialEq, Eq, Structural)]
pub struct Aabb2 {
    pub min: Vec2,
    pub max: Vec2,
}

/// An axis-aligned box in grid coordinates.
#[derive(Clone, Copy, Debug, PartialEq, Eq, Structural)]
pub struct IAabb2 {
    pub min: IVec2,
    pub max: IVec2,
}

impl Vec2 {
    pub open spec fn add_fits(self, other: Vec2) -> bool {
        fits(self.x + other.x) && fits(self.y + other.y)
    }

    pub open spec fn sub_fits(self, other: Vec2) -> bool {
        fits(self.x - other.x) && fits(self.y - other.y)
    }

    pub fn new(x: Coord, y: Coord) -> (v: Vec2)
        ensures
            v.x == x,
            v.y == y,
    {
        Vec2 { x, y }
    }

    pub fn zero() -> (v: Vec2)
        ensures
            v.x == 0,
            v.y == 0,
    {
        Vec2 { x: 0, y: 0 }
    }

    pub fn add(self, other: Vec2) -> (v: Vec2)
        requires
            self.add_fits(other),
        ensures
            v.x == self.x + other.x,
            v.y == self.y + other.y,
    {
        Vec2 { x: self.x + other.x, y: self.y + other.y }
    }

    pub fn sub(self, other: Vec2) -> (v: Vec2)
        requires
            self.sub_fits(other),
        ensures
            v.x == self.x - other.x,
            v.y == self.y - other.y,
    {
        Vec2 { x: self.x - other.x, y: self.y - other.y }
    }
}

impl IVec2 {
    pub fn new(x: isize, y: isize) -> (v: IVec2)
        ensures
            v.x == x,
            v.y == y,
    {
        IVec2 { x, y }
    }
}

impl Aabb2 {
    /// The box whose corners are the two given points, in any order.
    pub open spec fn spec_from_corners(p1: Vec2, p2: Vec2) -> Aabb2 {
        Aabb2 {
            min: Vec2 {
                x: if p1.x <= p2.x { p1.x } else { p2.x },
                y: if p1.y <= p2.y { p1.y } else { p2.y },
            },
            max: Vec2 {
                x: if p1.x <= p2.x { p2.x } else { p1.x },
                y: if p1.y <= p2.y { p2.y } else { p1.y },
            },
        }
    }

    /// Strict overlap of two boxes: touching edges do not count.
    pub open spec fn spec_intersects(self, other: Aabb2) -> bool {
        &&& self.max.x > other.min.x
        &&& self.max.y > other.min.y
        &&& self.min.x < other.max.x
        &&& self.min.y < other.max.y
    }

    /// Whether a point lies in the half-open box.
    pub open spec fn spec_contains(self, p: Vec2) -> bool {
        self.min.x <= p.x && p.x < self.max.x && self.min.y <= p.y && p.y < self.max.y
    }

    pub open spec fn spec_translate(self, v: Vec2) -> Aabb2 {
        Aabb2 {
            min: Vec2 { x: (self.min.x + v.x) as i64, y: (self.min.y + v.y) as i64 },
            max: Vec2 { x: (self.max.x + v.x) as i64, y: (self.max.y + v.y) as i64 },
        }
    }

    pub open spec fn translate_fits(self, v: Vec2) -> bool {
        self.min.add_fits(v) && self.max.add_fits(v)
    }

    /// The center of the box, rounded towards negative infinity.
    pub open spec fn spec_center(self) -> Vec2 {
        Vec2 { x: ((self.min.x + self.max.x) / 2) as i64, y: ((self.min.y + self.max.y) / 2) as i64 }
    }

    pub open spec fn spec_size(self) -> Vec2 {
        Vec2 { x: (self.max.x - self.min.x) as i64, y: (self.max.y - self.min.y) as i64 }
    }

    pub open spec fn size_fits(self) -> bool {
        fits(self.max.x - self.min.x) && fits(self.max.y - self.min.y)
    }

    pub open spec fn center_fits(self) -> bool {
        fits(self.min.x + self.max.x) && fits(self.min.y + self.max.y)
    }

    pub fn from_corners(p1: Vec2, p2: Vec2) -> (b: Aabb2)
        ensures
            b == Self::spec_from_corners(p1, p2),
    {
        let (min_x, max_x) = if p1.x <= p2.x { (p1.x, p2.x) } else { (p2.x, p1.x) };
        let (min_y, max_y) = if p1.y <= p2.y { (p1.y, p2.y) } else { (p2.y, p1.y) };
        Aabb2 { min: Vec2 { x: min_x, y: min_y }, max: Vec2 { x: max_x, y: max_y } }
    }

    pub fn point(p: Vec2) -> (b: Aabb2)
        ensures
            b.min == p,
            b.max == p,
    {
        Aabb2 { min: p, max: p }
    }

    pub fn extend_uniform(self, e: Coord) -> (b: Aabb2)
        requires
            fits(self.min.x - e),
            fits(self.min.y - e),
            fits(self.max.x + e),
            fits(self.max.y + e),
        ensures
            b.min.x == self.min.x - e,
            b.min.y == self.min.y - e,
            b.max.x == self.max.x + e,
            b.max.y == self.max.y + e,
    {
        Aabb2 {
            min: Vec2 { x: self.min.x - e, y: self.min.y - e },
            max: Vec2 { x: self.max.x + e, y: self.max.y + e },
        }
    }

    pub fn extend_symmetric(self, e: Vec2) -> (b: Aabb2)
        requires
            self.min.sub_fits(e),
            self.max.add_fits(e),
        ensures
            b.min.x == self.min.x - e.x,
            b.min.y == self.min.y - e.y,
            b.max.x == self.max.x + e.x,
            b.max.y == self.max.y + e.y,
    {
        Aabb2 { min: self.min.sub(e), max: self.max.add(e) }
    }

    pub fn extend_positive(self, e: Vec2) -> (b: Aabb2)
        requires
            self.max.add_fits(e),
        ensures
            b.min == self.min,
            b.max.x == self.max.x + e.x,
            b.max.y == self.max.y + e.y,
    {
        Aabb2 { min: self.min, max: self.max.add(e) }
    }

    pub fn extend_down(self, e: Coord) -> (b: Aabb2)
        requires
            fits(self.min.y - e),
        ensures
            b.max == self.max,
            b.min.x == self.min.x,
            b.min.y == self.min.y - e,
    {
        Aabb2 { min: Vec2 { x: self.min.x, y: self.min.y - e }, max: self.max }
    }

    pub fn width(&self) -> (w: Coord)
        requires
            fits(self.max.x - self.min.x),
        ensures
            w == self.max.x - self.min.x,
    {
        self.max.x - self.min.x
    }

    pub fn height(&self) -> (h: Coord)
        requires
            fits(self.max.y - self.min.y),
        ensures
            h == self.max.y - self.min.y,
    {
        self.max.y - self.min.y
    }

    pub fn size(&self) -> (s: Vec2)
        requires
            self.size_fits(),
        ensures
            s == self.spec_size(),
    {
        Vec2 { x: self.max.x - self.min.x, y: self.max.y - self.min.y }
    }

    pub fn center(&self) -> (c: Vec2)
        requires
            self.center_fits(),
        ensures
            c == self.spec_center(),
    {
        Vec2 { x: floor_div(self.min.x + self.max.x, 2), y: floor_div(self.min.y + self.max.y, 2) }
    }

    pub fn bottom_left(&self) -> (p: Vec2)
        ensures
            p == self.min,
    {
        self.min
    }

    pub fn top_right(&self) -> (p: Vec2)
        ensures
            p == self.max,
    {
        self.max
    }

    pub fn contains(&self, p: Vec2) -> (b: bool)
        ensures
            b == self.spec_contains(p),
    {
        self.min.x <= p.x && p.x < self.max.x && self.min.y <= p.y && p.y < self.max.y
    }

    pub fn intersects(&self, other: &Aabb2) -> (b: bool)
        ensures
            b == self.spec_intersects(*other),
    {
        self.max.x > other.min.x && self.max.y > other.min.y && self.min.x < other.max.x
            && self.min.y < other.max.y
    }

    pub fn translate(self, v: Vec2) -> (b: Aabb2)
        requires
            self.translate_fits(v),
        ensures
            b == self.spec_translate(v),
    {
        Aabb2 { min: self.min.add(v), max: self.max.add(v) }
    }
}

impl IAabb2 {
    pub open spec fn spec_from_corners(p1: IVec2, p2: IVec2) -> IAabb2 {
        IAabb2 {
            min: IVec2 {
                x: if p1.x <= p2.x { p1.x } else { p2.x },
                y: if p1.y <= p2.y { p1.y } else { p2.y },
            },
            max: IVec2 {
                x: if p1.x <= p2.x { p2.x } else { p1.x },
                y: if p1.y <= p2.y { p2.y } else { p1.y },
            },
        }
    }

    pub open spec fn spec_intersects(self, other: IAabb2) -> bool {
        &&& self.max.x > other.min.x
        &&& self.max.y > other.min.y
        &&& self.min.x < other.max.x
        &&& self.min.y < other.max.y
    }

    pub fn from_corners(p1: IVec2, p2: IVec2) -> (b: IAabb2)
        ensures
            b == Self::spec_from_corners(p1, p2),
    {
        let (min_x, max_x) = if p1.x <= p2.x { (p1.x, p2.x) } else { (p2.x, p1.x) };
        let (min_y, max_y) = if p1.y <= p2.y { (p1.y, p2.y) } else { (p2.y, p1.y) };
        IAabb2 { min: IVec2 { x: min_x, y: min_y }, max: IVec2 { x: max_x, y: max_y } }
    }

    pub fn intersects(&self, other: &IAabb2) -> (b: bool)
        ensures
            b == self.spec_intersects(*other),
    {
        self.max.x > other.min.x && self.max.y > other.min.y && self.min.x < other.max.x
            && self.min.y < other.max.y
    }
}

} // verus!
