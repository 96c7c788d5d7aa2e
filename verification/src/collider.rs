//! Axis-aligned colliders and the collision between two of them.
use vstd::prelude::*;
use crate::geom::{fits, Aabb2, Coord, IAabb2, Vec2};
use crate::grid::Grid;

verus! {

/// A collider: an axis-aligned box in world coordinates.
#[derive(Clone, Copy, Debug)]
pub struct Collider(Aabb2);

/// The result of a collision between two colliders.
#[derive(Clone, Copy, Debug, PartialEq, Eq, Structural)]
pub struct Collision {
    /// The direction in which the first collider must move to leave the second:
    /// one component is `-1` or `1`, the other is `0`.
    pub normal: Vec2,
    /// How far the first collider must move along `normal`.
    pub penetration: Coord,
    /// The signed overlap along the other axis.
    pub offset: Coord,
}

/// Half of a length, rounded down.
pub open spec fn half(v: int) -> int {
    v / 2
}

/// The tolerance that keeps a box's top and right edges out of the next cell.
pub const GRID_EPS: Coord = 16;

/// What `Collider::collide` returns for the boxes `a` and `b`:
/// nothing when they do not overlap; otherwise the axis of least penetration,
/// the vertical one on a tie.
pub open spec fn spec_collide(a: Aabb2, b: Aabb2) -> Option<Collision> {
    if !a.spec_intersects(b) {
        None
    } else {
        let dx_right = a.max.x - b.min.x;
        let dx_left = b.max.x - a.min.x;
        let dy_up = a.max.y - b.min.y;
        let dy_down = b.max.y - a.min.y;
        let nx: int = if dx_right < dx_left { -1 } else { 1 };
        let px = if dx_right < dx_left { dx_right } else { dx_left };
        let ny: int = if dy_up < dy_down { -1 } else { 1 };
        let py = if dy_up < dy_down { dy_up } else { dy_down };
        if px <= 0 || py <= 0 {
            None
        } else if px < py {
            Some(Collision { normal: Vec2 { x: nx as i64, y: 0 }, penetration: px as i64, offset: (py * ny) as i64 })
        } else {
            Some(Collision { normal: Vec2 { x: 0, y: ny as i64 }, penetration: py as i64, offset: (px * nx) as i64 })
        }
    }
}

/// Whether the differences that `collide` computes fit in a coordinate.
pub open spec fn collide_fits(a: Aabb2, b: Aabb2) -> bool {
    &&& fits(a.max.x - b.min.x)
    &&& fits(b.max.x - a.min.x)
    &&& fits(a.max.y - b.min.y)
    &&& fits(b.max.y - a.min.y)
}

impl View for Collider {
    type V = Aabb2;

    closed spec fn view(&self) -> Aabb2 {
        self.0
    }
}

impl Collider {
    /// The bottom-center point of the box.
    pub open spec fn spec_feet(self) -> Vec2 {
        Vec2 {
            x: self@.spec_center().x,
            y: (self@.spec_center().y - half(self@.max.y - self@.min.y)) as i64,
        }
    }

    /// The top-center point of the box.
    pub open spec fn spec_head(self) -> Vec2 {
        Vec2 {
            x: self@.spec_center().x,
            y: (self@.spec_center().y + half(self@.max.y - self@.min.y)) as i64,
        }
    }

    /// Whether the center, size, feet and head of the collider fit in coordinates.
    pub open spec fn well_sized(self) -> bool {
        &&& self@.center_fits()
        &&& self@.size_fits()
        &&& fits(self@.spec_center().y - half(self@.max.y - self@.min.y))
        &&& fits(self@.spec_center().y + half(self@.max.y - self@.min.y))
    }

    /// The collider covering `aabb`.
    pub closed spec fn spec_new(aabb: Aabb2) -> Collider {
        Collider(aabb)
    }

    pub proof fn lemma_spec_new(aabb: Aabb2)
        ensures
            Self::spec_new(aabb)@ == aabb,
    {
    }

    pub fn new(aabb: Aabb2) -> (c: Collider)
        ensures
            c@ == aabb,
            c == Self::spec_new(aabb),
    {
        Collider(aabb)
    }

    pub fn raw(&self) -> (a: Aabb2)
        ensures
            a == self@,
    {
        self.0
    }

    /// The center of the collider.
    pub fn pos(&self) -> (p: Vec2)
        requires
            self@.center_fits(),
        ensures
            p == self@.spec_center(),
    {
        self.0.center()
    }

    pub fn size(&self) -> (s: Vec2)
        requires
            self@.size_fits(),
        ensures
            s == self@.spec_size(),
    {
        self.0.size()
    }

    pub fn feet(&self) -> (p: Vec2)
        requires
            self.well_sized(),
        ensures
            p == self.spec_feet(),
            self@.min.y <= self@.max.y ==> p.y == self@.min.y,
    {
        let pos = self.pos();
        let size = self.size();
        proof {
            if self@.min.y <= self@.max.y {
                lemma_feet_is_bottom(self@.min.y as int, self@.max.y as int);
            }
        }
        let h = crate::geom::floor_div(size.y, 2);
        Vec2 { x: pos.x, y: pos.y - h }
    }

    pub fn head(&self) -> (p: Vec2)
        requires
            self.well_sized(),
        ensures
            p == self.spec_head(),
    {
        let pos = self.pos();
        let size = self.size();
        let h = crate::geom::floor_div(size.y, 2);
        Vec2 { x: pos.x, y: pos.y + h }
    }

    /// Whether the corners of `grid_aabb` can be computed without overflow.
    pub open spec fn grid_aabb_fits(self, grid: Grid) -> bool {
        &&& fits(self@.max.x - GRID_EPS)
        &&& fits(self@.max.y - GRID_EPS)
        &&& grid.world_to_grid_fits(self@.min)
        &&& grid.world_to_grid_fits(Vec2 { x: (self@.max.x - GRID_EPS) as i64, y: (self@.max.y - GRID_EPS) as i64 })
    }

    /// The cells covered by the collider, shrunk by `GRID_EPS` at the top and right
    /// so that a box ending exactly on a cell edge does not cover the next cell.
    pub open spec fn spec_grid_aabb(self, grid: Grid) -> IAabb2 {
        IAabb2::spec_from_corners(
            grid.spec_cell(self@.min),
            grid.spec_cell(Vec2 { x: (self@.max.x - GRID_EPS) as i64, y: (self@.max.y - GRID_EPS) as i64 }),
        )
    }

    pub fn grid_aabb(&self, grid: &Grid) -> (r: IAabb2)
        requires
            self.grid_aabb_fits(*grid),
        ensures
            r == self.spec_grid_aabb(*grid),
    {
        let top = Vec2 { x: self.0.max.x - GRID_EPS, y: self.0.max.y - GRID_EPS };
        let a = grid.world_to_grid(self.0.min).0;
        let b = grid.world_to_grid(top).0;
        IAabb2::from_corners(a, b)
    }

    /// Moves the collider so that its feet stand at `position`.
    pub fn teleport(&mut self, position: Vec2)
        requires
            old(self).well_sized(),
            fits(position.x - old(self).spec_feet().x),
            fits(position.y - old(self).spec_feet().y),
            old(self)@.translate_fits(Vec2 {
                x: (position.x - old(self).spec_feet().x) as i64,
                y: (position.y - old(self).spec_feet().y) as i64,
            }),
        ensures
            final(self)@ == old(self)@.spec_translate(Vec2 {
                x: (position.x - old(self).spec_feet().x) as i64,
                y: (position.y - old(self).spec_feet().y) as i64,
            }),
            final(self).spec_feet() == position,
            final(self)@.spec_size() == old(self)@.spec_size(),
    {
        let feet = self.feet();
        let delta = Vec2 { x: position.x - feet.x, y: position.y - feet.y };
        self.translate(delta);
        proof {
            lemma_translate_center(old(self)@.min.x as int, old(self)@.max.x as int, delta.x as int);
            lemma_translate_center(old(self)@.min.y as int, old(self)@.max.y as int, delta.y as int);
        }
    }

    pub fn translate(&mut self, delta: Vec2)
        requires
            old(self)@.translate_fits(delta),
        ensures
            final(self)@ == old(self)@.spec_translate(delta),
    {
        self.0 = self.0.translate(delta);
    }

    /// Whether the two colliders overlap (touching edges do not count).
    pub fn check(&self, other: &Collider) -> (b: bool)
        ensures
            b == self@.spec_intersects(other@),
    {
        self.0.intersects(&other.0)
    }

    /// The collision of `self` against `other`, if they overlap.
    pub fn collide(&self, other: &Collider) -> (r: Option<Collision>)
        requires
            collide_fits(self@, other@),
        ensures
            r == spec_collide(self@, other@),
    {
        if !self.check(other) {
            return None;
        }
        let dx_right = self.0.max.x - other.0.min.x;
        let dx_left = other.0.max.x - self.0.min.x;
        let dy_up = self.0.max.y - other.0.min.y;
        let dy_down = other.0.max.y - self.0.min.y;

        let (nx, px): (i64, i64) = if dx_right < dx_left {
            (-1, dx_right)
        } else {
            (1, dx_left)
        };
        let (ny, py): (i64, i64) = if dy_up < dy_down {
            (-1, dy_up)
        } else {
            (1, dy_down)
        };

        if px <= 0 || py <= 0 {
            None
        } else if px < py {
            Some(Collision { normal: Vec2 { x: nx, y: 0 }, penetration: px, offset: py * ny })
        } else {
            Some(Collision { normal: Vec2 { x: 0, y: ny }, penetration: py, offset: px * nx })
        }
    }
}

/// Whether `v` is one of the four unit vectors along the axes.
pub open spec fn unit_axis(v: Vec2) -> bool {
    ||| v == (Vec2 { x: 1, y: 0 })
    ||| v == (Vec2 { x: -1i64, y: 0 })
    ||| v == (Vec2 { x: 0, y: 1 })
    ||| v == (Vec2 { x: 0, y: -1i64 })
}

/// The move that resolves a collision: `normal * penetration`.
pub open spec fn push_out(col: Collision) -> Vec2 {
    Vec2 {
        x: if col.normal.x > 0 { col.penetration } else if col.normal.x < 0 { (-col.penetration) as i64 } else { 0 },
        y: if col.normal.y > 0 { col.penetration } else if col.normal.y < 0 { (-col.penetration) as i64 } else { 0 },
    }
}

/// A collision has a unit normal along one axis and a positive penetration, and
/// moving the first box by `normal * penetration` leaves it touching the second
/// box on the side the normal points to, no longer overlapping it.
pub proof fn lemma_collide_separates(a: Aabb2, b: Aabb2)
    requires
        collide_fits(a, b),
        spec_collide(a, b) is Some,
        a.translate_fits(push_out(spec_collide(a, b).unwrap())),
    ensures
        ({
            let col = spec_collide(a, b).unwrap();
            let moved = a.spec_translate(push_out(col));
            &&& col.penetration > 0
            &&& (col.normal == (Vec2 { x: 1, y: 0 }) || col.normal == (Vec2 { x: -1i64, y: 0 })
                || col.normal == (Vec2 { x: 0, y: 1 }) || col.normal == (Vec2 { x: 0, y: -1i64 }))
            &&& (col.normal.x == 1 ==> moved.min.x == b.max.x)
            &&& (col.normal.x == -1 ==> moved.max.x == b.min.x)
            &&& (col.normal.y == 1 ==> moved.min.y == b.max.y)
            &&& (col.normal.y == -1 ==> moved.max.y == b.min.y)
            &&& !moved.spec_intersects(b)
        }),
{
    let dx_right = a.max.x - b.min.x;
    let dx_left = b.max.x - a.min.x;
    let dy_up = a.max.y - b.min.y;
    let dy_down = b.max.y - a.min.y;
    let px = if dx_right < dx_left { dx_right } else { dx_left };
    let py = if dy_up < dy_down { dy_up } else { dy_down };
    let col = spec_collide(a, b).unwrap();
    if px < py {
        assert(col.penetration == px);
        if dx_right < dx_left {
            assert(col.normal == (Vec2 { x: -1i64, y: 0 }));
        } else {
            assert(col.normal == (Vec2 { x: 1, y: 0 }));
        }
    } else {
        assert(col.penetration == py);
        if dy_up < dy_down {
            assert(col.normal == (Vec2 { x: 0, y: -1i64 }));
        } else {
            assert(col.normal == (Vec2 { x: 0, y: 1 }));
        }
    }
}

/// The penetration of a collision is at most half the sum of the two boxes'
/// widths, or of their heights.
pub proof fn lemma_collide_penetration(a: Aabb2, b: Aabb2)
    requires
        collide_fits(a, b),
        spec_collide(a, b) is Some,
    ensures
        ({
            let p = spec_collide(a, b).unwrap().penetration;
            &&& p > 0
            &&& unit_axis(spec_collide(a, b).unwrap().normal)
            &&& {
            ||| 2 * p <= (a.max.x - a.min.x) + (b.max.x - b.min.x)
            ||| 2 * p <= (a.max.y - a.min.y) + (b.max.y - b.min.y)
            }
        }),
{
    let dx_right = a.max.x - b.min.x;
    let dx_left = b.max.x - a.min.x;
    let dy_up = a.max.y - b.min.y;
    let dy_down = b.max.y - a.min.y;
    let px = if dx_right < dx_left { dx_right } else { dx_left };
    let py = if dy_up < dy_down { dy_up } else { dy_down };
    let col = spec_collide(a, b).unwrap();
    if px < py {
        if dx_right < dx_left {
            assert(col.normal == (Vec2 { x: -1i64, y: 0 }));
        } else {
            assert(col.normal == (Vec2 { x: 1, y: 0 }));
        }
    } else {
        if dy_up < dy_down {
            assert(col.normal == (Vec2 { x: 0, y: -1i64 }));
        } else {
            assert(col.normal == (Vec2 { x: 0, y: 1 }));
        }
    }
}

/// A collider is its box.
pub proof fn lemma_collider_is_box(c: Collider)
    ensures
        Collider::spec_new(c@) == c,
{
}

/// For a box from `lo` to `hi`, the center minus half the size is `lo`.
pub proof fn lemma_feet_is_bottom(lo: int, hi: int)
    requires
        lo <= hi,
    ensures
        (lo + hi) / 2 - (hi - lo) / 2 == lo,
        0 <= (hi - lo) / 2 <= hi - lo,
{
}

/// Moving a box by `d` moves its (rounded-down) center by `d`.
pub proof fn lemma_translate_center(lo: int, hi: int, d: int)
    ensures
        (lo + d + hi + d) / 2 == (lo + hi) / 2 + d,
{
    assert(lo + d + hi + d == (lo + hi) + 2 * d);
    vstd::arithmetic::div_mod::lemma_fundamental_div_mod(lo + hi, 2);
    vstd::arithmetic::div_mod::lemma_fundamental_div_mod_converse(
        lo + hi + 2 * d,
        2,
        (lo + hi) / 2 + d,
        (lo + hi) % 2,
    );
}

} // verus!
