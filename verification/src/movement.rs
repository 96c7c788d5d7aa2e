//! Moving actors pixel by pixel and finding what they run into.
use vstd::prelude::*;
use crate::collider::{collide_fits, push_out, spec_collide, unit_axis, Collider, Collision, GRID_EPS};
use crate::geom::{fits, Aabb2, IAabb2, IVec2, Vec2, COORD_ONE, SUBPIXELS};
use crate::grid::{scaled_grid_pos, spec_cell_to_world, Grid, COORD_ONE_SQ};
use crate::id::Id;
use crate::rules::{Rules, Tile};
use crate::tilemap::{air, is_air, TileMap};

verus! {

/// The length of one movement step: one pixel.
pub const MOVE_STEP: i64 = SUBPIXELS;

/// What an actor ran into.
#[derive(Clone, Copy, Debug, PartialEq, Eq, Structural)]
pub enum ColliderId {
    Tile(IVec2),
    Entity(Id),
}

/// The collisions of one move, per axis.
#[derive(Clone, Copy, Debug)]
pub struct MoveCollision {
    pub x: Option<(ColliderId, Collision)>,
    pub y: Option<(ColliderId, Collision)>,
}

/// Something that moves and collides. The callback run when an actor is
/// squished belongs to the game loop.
#[derive(Clone, Copy, Debug)]
pub struct Actor {
    pub id: Id,
    pub collider: Collider,
    pub riding: Option<Id>,
    pub move_remainder: Vec2,
}

/// A moving solid tile.
#[derive(Debug)]
pub struct Block {
    pub id: Id,
    pub tile: Tile,
    pub move_remainder: Vec2,
    pub collider: Collider,
}

impl Actor {
    pub fn new(id: Id, collider: Collider) -> (a: Actor)
        ensures
            a.id == id,
            a.collider == collider,
            a.riding is None,
            a.move_remainder == (Vec2 { x: 0, y: 0 }),
    {
        Actor { id, collider, riding: None, move_remainder: Vec2 { x: 0, y: 0 } }
    }

    /// Whether the wall and feet sensors can be computed without overflow.
    pub open spec fn sensors_fit(self) -> bool {
        let b = self.collider@;
        &&& self.collider.well_sized()
        &&& b.min.x <= b.max.x
        &&& b.min.y <= b.max.y
        &&& b.max.x - b.min.x <= 0x1000_0000_0000
        &&& b.max.y - b.min.y <= 0x1000_0000_0000
        &&& -0x1000_0000_0000_0000 <= b.min.x
        &&& -0x1000_0000_0000_0000 <= b.min.y
        &&& b.max.x <= 0x1000_0000_0000_0000
        &&& b.max.y <= 0x1000_0000_0000_0000
    }

    /// The sensor for walls: 110% as wide and 90% as high as the actor, around its center.
    pub open spec fn spec_wall_collider(self) -> Aabb2 {
        let s = self.collider@.spec_size();
        let c = self.collider@.spec_center();
        let ex = s.x * 55 / 100;
        let ey = s.y * 45 / 100;
        Aabb2 {
            min: Vec2 { x: (c.x - ex) as i64, y: (c.y - ey) as i64 },
            max: Vec2 { x: (c.x + ex) as i64, y: (c.y + ey) as i64 },
        }
    }

    /// The sensor for the ground: 90% as wide as the actor, reaching a tenth of a
    /// unit below its feet.
    pub open spec fn spec_feet_collider(self) -> Aabb2 {
        let s = self.collider@.spec_size();
        let f = self.collider.spec_feet();
        let ex = s.x * 45 / 100;
        Aabb2 {
            min: Vec2 { x: (f.x - ex) as i64, y: (f.y - FEET_SENSOR_DEPTH) as i64 },
            max: Vec2 { x: (f.x + ex) as i64, y: f.y },
        }
    }

    pub fn wall_collider(&self) -> (c: Collider)
        requires
            self.sensors_fit(),
        ensures
            c@ == self.spec_wall_collider(),
    {
        let s = self.collider.size();
        let ex = s.x * 55 / 100;
        let ey = s.y * 45 / 100;
        let mut c = Collider::new(Aabb2::point(Vec2 { x: 0, y: 0 }).extend_symmetric(Vec2 { x: ex, y: ey }));
        let p = self.collider.pos();
        c.translate(p);
        c
    }

    pub fn feet_collider(&self) -> (c: Collider)
        requires
            self.sensors_fit(),
        ensures
            c@ == self.spec_feet_collider(),
    {
        let w = self.collider.raw().width();
        let ex = w * 45 / 100;
        let mut c = Collider::new(
            Aabb2::point(Vec2 { x: 0, y: 0 }).extend_symmetric(Vec2 { x: ex, y: 0 }).extend_down(FEET_SENSOR_DEPTH),
        );
        let f = self.collider.feet();
        c.translate(f);
        c
    }
}

/// A tenth of a world unit.
pub const FEET_SENSOR_DEPTH: i64 = 1600;

/// The sign of `v`: `-1`, `0` or `1`.
pub open spec fn signum(v: int) -> int {
    if v > 0 { 1 } else if v < 0 { -1 } else { 0 }
}

/// The absolute value of `v`.
pub open spec fn abs(v: int) -> int {
    if v < 0 { -v } else { v }
}

/// Adds `delta` to the sub-pixel remainder and splits it into whole pixel steps
/// (a sign and a count per axis) and what is left, which keeps the sign of the
/// total and is smaller than a step.
pub fn calc_move(remainder: &mut Vec2, delta: Vec2) -> (r: (Vec2, Vec2))
    requires
        old(remainder).add_fits(delta),
        old(remainder).x + delta.x > i64::MIN,
        old(remainder).y + delta.y > i64::MIN,
    ensures
        ({
            let tx = old(remainder).x + delta.x;
            let ty = old(remainder).y + delta.y;
            &&& r.0 == (Vec2 { x: signum(tx) as i64, y: signum(ty) as i64 })
            &&& r.1 == (Vec2 { x: (abs(tx) / (MOVE_STEP as int)) as i64, y: (abs(ty) / (MOVE_STEP as int)) as i64 })
            &&& final(remainder).x == tx - signum(tx) * (abs(tx) / (MOVE_STEP as int)) * MOVE_STEP
            &&& final(remainder).y == ty - signum(ty) * (abs(ty) / (MOVE_STEP as int)) * MOVE_STEP
        }),
{
    let t = remainder.add(delta);
    let (sx, dx) = split_steps(t.x);
    let (sy, dy) = split_steps(t.y);
    *remainder = Vec2 { x: t.x - sx * dx * MOVE_STEP, y: t.y - sy * dy * MOVE_STEP };
    (Vec2 { x: sx, y: sy }, Vec2 { x: dx, y: dy })
}

fn split_steps(t: i64) -> (r: (i64, i64))
    requires
        t > i64::MIN,
    ensures
        r.0 == signum(t as int),
        r.1 == abs(t as int) / (MOVE_STEP as int),
        fits(t - r.0 * r.1 * MOVE_STEP),
        abs(t - r.0 * r.1 * MOVE_STEP) < MOVE_STEP,
{
    let a = if t < 0 { -t } else { t };
    let d = a / MOVE_STEP;
    proof {
        vstd::arithmetic::div_mod::lemma_fundamental_div_mod(a as int, MOVE_STEP as int);
    }
    if t > 0 {
        (1, d)
    } else if t < 0 {
        (-1, d)
    } else {
        (0, 0)
    }
}

/// The box of the cell at `pos`.
pub open spec fn cell_box(grid: Grid, pos: IVec2) -> Aabb2 {
    let p = grid.spec_grid_to_world(pos);
    Aabb2 { min: p, max: Vec2 { x: (p.x + grid.cell_size.x) as i64, y: (p.y + grid.cell_size.y) as i64 } }
}

/// Whether the cell at `pos` stops a collider: a tile that is not air and, for a
/// drill, not drillable.
pub open spec fn blocks_at(tiles: TileMap, pos: IVec2, drill: bool, rules: Rules) -> bool {
    match tiles@.tile_at(pos.x as int, pos.y as int) {
        Some(t) => t != air() && !(drill && rules.spec_tile(t).unwrap().drillable),
        None => false,
    }
}

/// The collision with the cell at `pos`, if its tile stops the collider and the
/// collider is not moving away from it.
pub open spec fn cell_hit(collider: Collider, velocity: Vec2, grid: Grid, tiles: TileMap, drill: bool, rules: Rules, pos: IVec2)
    -> Option<(IVec2, Collision)> {
    if blocks_at(tiles, pos, drill, rules) {
        match spec_collide(collider@, cell_box(grid, pos)) {
            Some(c) => if c.normal.x * velocity.x + c.normal.y * velocity.y <= 0 { Some((pos, c)) } else { None },
            None => None,
        }
    } else {
        None
    }
}

/// The deeper of two hits, the later one on a tie.
pub open spec fn deeper(a: Option<(IVec2, Collision)>, b: Option<(IVec2, Collision)>) -> Option<(IVec2, Collision)> {
    match (a, b) {
        (_, None) => a,
        (None, Some(_)) => b,
        (Some(x), Some(y)) => if y.1.penetration >= x.1.penetration { b } else { a },
    }
}

/// The deepest hit among the rows `lo..hi` of column `x`, scanning up, starting from `best`.
pub open spec fn deepest_in_column(
    collider: Collider, velocity: Vec2, grid: Grid, tiles: TileMap, drill: bool, rules: Rules,
    x: int, lo: int, hi: int, best: Option<(IVec2, Collision)>,
) -> Option<(IVec2, Collision)>
    decreases hi - lo,
{
    if hi <= lo {
        best
    } else {
        deeper(
            deepest_in_column(collider, velocity, grid, tiles, drill, rules, x, lo, hi - 1, best),
            cell_hit(collider, velocity, grid, tiles, drill, rules, IVec2 { x: x as isize, y: (hi - 1) as isize }),
        )
    }
}

/// The deepest hit among the columns `lo..hi` of box `b`, scanning right.
pub open spec fn deepest_in_box(
    collider: Collider, velocity: Vec2, grid: Grid, tiles: TileMap, drill: bool, rules: Rules,
    b: IAabb2, lo: int, hi: int,
) -> Option<(IVec2, Collision)>
    decreases hi - lo,
{
    if hi <= lo {
        None
    } else {
        deepest_in_column(
            collider, velocity, grid, tiles, drill, rules, hi - 1, b.min.y as int, b.max.y + 1,
            deepest_in_box(collider, velocity, grid, tiles, drill, rules, b, lo, hi - 1),
        )
    }
}

/// Whether a drill at `(x, y)` finds rules for the tile there.
pub open spec fn drill_known(tiles: TileMap, x: int, y: int, drill: bool, rules: Rules) -> bool {
    drill ==> match tiles@.tile_at(x, y) {
        Some(t) => t != air() ==> rules.knows(t),
        None => true,
    }
}

/// Whether the cell `(x, y)` can be checked against `collider` without overflow.
pub open spec fn cell_ok(collider: Collider, grid: Grid, tiles: TileMap, drill: bool, rules: Rules, x: int, y: int) -> bool {
    let pos = IVec2 { x: x as isize, y: y as isize };
    &&& grid.grid_to_world_fits(pos)
    &&& grid.spec_grid_to_world(pos).add_fits(grid.cell_size)
    &&& collide_fits(collider@, cell_box(grid, pos))
    &&& drill_known(tiles, x, y, drill, rules)
}

/// What `collide_tiles` needs: the covered cells, their boxes and the collisions in
/// range, and rules for the tiles a drill meets.
pub open spec fn collide_tiles_ok(collider: Collider, grid: Grid, tiles: TileMap, drill: bool, rules: Rules) -> bool {
    let g = collider.spec_grid_aabb(grid);
    &&& tiles@.well_formed()
    &&& collider.grid_aabb_fits(grid)
    &&& g.max.x < isize::MAX
    &&& g.max.y < isize::MAX
    &&& forall|x: int, y: int| g.min.x <= x <= g.max.x && g.min.y <= y <= g.max.y ==> #[trigger] cell_ok(collider, grid, tiles, drill, rules, x, y)
}

/// The deepest collision of `collider` with the tiles it covers, ignoring tiles it
/// moves away from and, when drilling, drillable ones; on a tie the last cell
/// scanned (column by column, bottom to top) counts.
pub fn collide_tiles(
    collider: &Collider,
    velocity: Vec2,
    grid: &Grid,
    tiles: &TileMap,
    drill: bool,
    rules: &Rules,
) -> (r: Option<(IVec2, Collision)>)
    requires
        collide_tiles_ok(*collider, *grid, *tiles, drill, *rules),
        velocity_ok(velocity),
    ensures
        ({
            let g = collider.spec_grid_aabb(*grid);
            r == deepest_in_box(*collider, velocity, *grid, *tiles, drill, *rules, g, g.min.x as int, g.max.x + 1)
        }),
{
    let g = collider.grid_aabb(grid);
    let mut best: Option<(IVec2, Collision)> = None;
    let mut x = g.min.x;
    while x <= g.max.x
        invariant
            collide_tiles_ok(*collider, *grid, *tiles, drill, *rules),
            g == collider.spec_grid_aabb(*grid),
            g.min.x <= x <= g.max.x + 1,
            g.min.y <= g.max.y,
            velocity_ok(velocity),
            best == deepest_in_box(*collider, velocity, *grid, *tiles, drill, *rules, g, g.min.x as int, x as int),
        decreases g.max.x + 1 - x,
    {
        let ghost start = best;
        let mut y = g.min.y;
        while y <= g.max.y
            invariant
                collide_tiles_ok(*collider, *grid, *tiles, drill, *rules),
                g == collider.spec_grid_aabb(*grid),
                g.min.x <= x <= g.max.x,
                g.min.y <= y <= g.max.y + 1,
                velocity_ok(velocity),
                best == deepest_in_column(*collider, velocity, *grid, *tiles, drill, *rules, x as int, g.min.y as int, y as int, start),
            decreases g.max.y + 1 - y,
        {
            let pos = IVec2 { x, y };
            proof {
                assert(cell_ok(*collider, *grid, *tiles, drill, *rules, x as int, y as int));
            }
            let hit = cell_hit_exec(collider, velocity, grid, tiles, drill, rules, pos);
            best = match (best, hit) {
                (_, None) => best,
                (None, Some(h)) => Some(h),
                (Some(a), Some(h)) => if h.1.penetration >= a.1.penetration { Some(h) } else { Some(a) },
            };
            y += 1;
        }
        x += 1;
    }
    best
}

fn cell_hit_exec(
    collider: &Collider,
    velocity: Vec2,
    grid: &Grid,
    tiles: &TileMap,
    drill: bool,
    rules: &Rules,
    pos: IVec2,
) -> (r: Option<(IVec2, Collision)>)
    requires
        tiles@.well_formed(),
        grid.grid_to_world_fits(pos),
        grid.spec_grid_to_world(pos).add_fits(grid.cell_size),
        collide_fits(collider@, cell_box(*grid, pos)),
        drill_known(*tiles, pos.x as int, pos.y as int, drill, *rules),
        velocity_ok(velocity),
    ensures
        r == cell_hit(*collider, velocity, *grid, *tiles, drill, *rules, pos),
{
    let stops = match tiles.get_tile_isize(pos) {
        Some(t) => !is_air(t) && !(drill && rules.tile(t).drillable),
        None => false,
    };
    if !stops {
        return None;
    }
    let p = grid.grid_to_world(pos);
    let cell = Collider::new(Aabb2::point(p).extend_positive(grid.cell_size));
    match collider.collide(&cell) {
        Some(c) => {
            let vx: i64 = if c.normal.x > 0 { velocity.x } else if c.normal.x < 0 { -velocity.x } else { 0 };
            let vy: i64 = if c.normal.y > 0 { velocity.y } else if c.normal.y < 0 { -velocity.y } else { 0 };
            assert(vx + vy == c.normal.x * velocity.x + c.normal.y * velocity.y) by (nonlinear_arith)
                requires
                    -1 <= c.normal.x <= 1,
                    -1 <= c.normal.y <= 1,
                    vx == (if c.normal.x > 0 { velocity.x as int } else if c.normal.x < 0 { -velocity.x } else { 0 }),
                    vy == (if c.normal.y > 0 { velocity.y as int } else if c.normal.y < 0 { -velocity.y } else { 0 }),
            ;
            if vx + vy <= 0 {
                Some((pos, c))
            } else {
                None
            }
        },
        None => None,
    }
}

/// How far from the origin an actor may go: 2^40 sub-units, about 6.9 * 10^7 world units.
pub const WORLD_LIMIT: i64 = 0x100_0000_0000;

/// The largest cell size and grid offset for which every position in the world can
/// be mapped to cells without overflow.
pub const CELL_LIMIT: i64 = 0x4_0000;

/// Whether the box lies within `WORLD_LIMIT` of the origin and is not inverted.
pub open spec fn in_world(b: Aabb2) -> bool {
    &&& -WORLD_LIMIT <= b.min.x <= b.max.x <= WORLD_LIMIT
    &&& -WORLD_LIMIT <= b.min.y <= b.max.y <= WORLD_LIMIT
}

/// Whether the grid has positive cells and offsets no larger than `CELL_LIMIT`.
pub open spec fn grid_sane(grid: Grid) -> bool {
    &&& 1 <= grid.cell_size.x <= CELL_LIMIT
    &&& 1 <= grid.cell_size.y <= CELL_LIMIT
    &&& -CELL_LIMIT <= grid.offset.x <= CELL_LIMIT
    &&& -CELL_LIMIT <= grid.offset.y <= CELL_LIMIT
}

/// Whether the rules list every tile of the map that is not air.
pub open spec fn tiles_known(tiles: TileMap, rules: Rules) -> bool {
    forall|i: int| 0 <= i < tiles@.tiles.len() && tiles@.tiles[i] != air() ==> rules.knows(#[trigger] tiles@.tiles[i])
}

/// The bound on a cell index of a position in the world.
pub const CELL_INDEX_LIMIT: i64 = 1_200_000_000;

/// A position in the world maps to a cell index within `CELL_INDEX_LIMIT` on a sane grid.
pub proof fn lemma_cell_in_world(w: int, c: int, o: int)
    requires
        -WORLD_LIMIT - GRID_EPS <= w <= WORLD_LIMIT,
        1 <= c <= CELL_LIMIT,
        -CELL_LIMIT <= o <= CELL_LIMIT,
    ensures
        fits(w * c),
        fits(o * COORD_ONE),
        fits(scaled_grid_pos(w, c, o)),
        -CELL_INDEX_LIMIT <= scaled_grid_pos(w, c, o) / (COORD_ONE_SQ as int) <= CELL_INDEX_LIMIT,
{
    let m: int = if w >= 0 { w } else { -w };
    assert(0 <= m * c <= 0x0400_0000_0040_0000) by (nonlinear_arith)
        requires
            0 <= m <= 0x100_0000_0010,
            1 <= c <= 0x4_0000,
    ;
    assert(w * c == m * c || w * c == -(m * c)) by (nonlinear_arith)
        requires
            m == w || m == -w,
    ;
    let s = scaled_grid_pos(w, c, o);
    assert(-0x0400_0001_0000_0000 <= s <= 0x0400_0001_0000_0000);
    assert(-CELL_INDEX_LIMIT <= s / (COORD_ONE_SQ as int) <= CELL_INDEX_LIMIT) by (nonlinear_arith)
        requires
            -0x0400_0001_0000_0000 <= s <= 0x0400_0001_0000_0000,
    ;
}

/// A cell index within `CELL_INDEX_LIMIT` maps back to a world position without overflow.
pub proof fn lemma_cell_start_fits(g: int, c: int, o: int)
    requires
        -CELL_INDEX_LIMIT <= g <= CELL_INDEX_LIMIT,
        1 <= c <= CELL_LIMIT,
        -CELL_LIMIT <= o <= CELL_LIMIT,
    ensures
        fits(g * COORD_ONE),
        fits(g * COORD_ONE - o),
        fits((g * COORD_ONE - o) * COORD_ONE),
        -0x0500_0000_0000_0000 <= spec_cell_to_world(g, c, o) <= 0x0500_0000_0000_0000,
{
    let a = (g * COORD_ONE - o) * COORD_ONE;
    assert(-0x0500_0000_0000_0000 <= a <= 0x0500_0000_0000_0000);
    assert(-0x0500_0000_0000_0000 <= a / c <= 0x0500_0000_0000_0000) by (nonlinear_arith)
        requires
            -0x0500_0000_0000_0000 <= a <= 0x0500_0000_0000_0000,
            1 <= c,
    ;
}

/// Every box in the world can be checked against the tiles of any map on a sane
/// grid; a drill needs rules for the tiles of the map.
pub proof fn lemma_world_checkable(collider: Collider, grid: Grid, tiles: TileMap, drill: bool, rules: Rules)
    requires
        in_world(collider@),
        grid_sane(grid),
        tiles@.well_formed(),
        drill ==> tiles_known(tiles, rules),
    ensures
        collide_tiles_ok(collider, grid, tiles, drill, rules),
{
    let b = collider@;
    let top = Vec2 { x: (b.max.x - GRID_EPS) as i64, y: (b.max.y - GRID_EPS) as i64 };
    lemma_cell_in_world(b.min.x as int, grid.cell_size.x as int, grid.offset.x as int);
    lemma_cell_in_world(b.min.y as int, grid.cell_size.y as int, grid.offset.y as int);
    lemma_cell_in_world(top.x as int, grid.cell_size.x as int, grid.offset.x as int);
    lemma_cell_in_world(top.y as int, grid.cell_size.y as int, grid.offset.y as int);
    let g = collider.spec_grid_aabb(grid);
    assert forall|x: int, y: int| g.min.x <= x <= g.max.x && g.min.y <= y <= g.max.y implies #[trigger] cell_ok(collider, grid, tiles, drill, rules, x, y) by {
        let pos = IVec2 { x: x as isize, y: y as isize };
        lemma_cell_start_fits(x, grid.cell_size.x as int, grid.offset.x as int);
        lemma_cell_start_fits(y, grid.cell_size.y as int, grid.offset.y as int);
        if drill {
            if tiles@.in_bounds(x, y) {
                crate::tilemap::lemma_cell_index(x, y, tiles@.size.x as int, tiles@.size.y as int);
                assert(tiles@.tiles[x + y * tiles@.size.x] == tiles@.tiles[x + y * tiles@.size.x]);
            }
        }
    }
}

/// The first block that `collider` overlaps, from index `i` on.
pub open spec fn first_block_hit(collider: Collider, blocks: Seq<Block>, i: int) -> Option<(ColliderId, Collision)>
    decreases blocks.len() - i,
{
    if i >= blocks.len() || i < 0 {
        None
    } else {
        match spec_collide(collider@, blocks[i].collider@) {
            Some(c) => Some((ColliderId::Entity(blocks[i].id), c)),
            None => first_block_hit(collider, blocks, i + 1),
        }
    }
}

/// What `actor_collides` finds: the deepest tile hit, or else the first block hit.
pub open spec fn spec_actor_collides(
    collider: Collider, velocity: Vec2, grid: Grid, tiles: TileMap, blocks: Seq<Block>, drill: bool, rules: Rules,
) -> Option<(ColliderId, Collision)> {
    let g = collider.spec_grid_aabb(grid);
    match deepest_in_box(collider, velocity, grid, tiles, drill, rules, g, g.min.x as int, g.max.x + 1) {
        Some((pos, c)) => Some((ColliderId::Tile(pos), c)),
        None => first_block_hit(collider, blocks, 0),
    }
}

/// Whether the velocity is small enough for the dot products of collision checks.
pub open spec fn velocity_ok(v: Vec2) -> bool {
    &&& -0x1000_0000_0000_0000 <= v.x <= 0x1000_0000_0000_0000
    &&& -0x1000_0000_0000_0000 <= v.y <= 0x1000_0000_0000_0000
}

/// What an actor runs into: the deepest tile, or else the first block it overlaps.
pub fn actor_collides(
    collider: &Collider,
    velocity: Vec2,
    grid: &Grid,
    tiles: &TileMap,
    blocks: &Vec<Block>,
    drill: bool,
    rules: &Rules,
) -> (r: Option<(ColliderId, Collision)>)
    requires
        collide_tiles_ok(*collider, *grid, *tiles, drill, *rules),
        velocity_ok(velocity),
        forall|i: int| 0 <= i < blocks@.len() ==> collide_fits(collider@, (#[trigger] blocks@[i]).collider@),
    ensures
        r == spec_actor_collides(*collider, velocity, *grid, *tiles, blocks@, drill, *rules),
{
    match collide_tiles(collider, velocity, grid, tiles, drill, rules) {
        Some((pos, c)) => Some((ColliderId::Tile(pos), c)),
        None => {
            let n = blocks.len();
            let mut i: usize = 0;
            while i < n
                invariant
                    n == blocks@.len(),
                    i <= n,
                    forall|i: int| 0 <= i < blocks@.len() ==> collide_fits(collider@, (#[trigger] blocks@[i]).collider@),
                    first_block_hit(*collider, blocks@, 0) == first_block_hit(*collider, blocks@, i as int),
                    ({
                        let g = collider.spec_grid_aabb(*grid);
                        deepest_in_box(*collider, velocity, *grid, *tiles, drill, *rules, g, g.min.x as int, g.max.x + 1) is None
                    }),
                decreases n - i,
            {
                match collider.collide(&blocks[i].collider) {
                    Some(c) => {
                        return Some((ColliderId::Entity(blocks[i].id), c));
                    },
                    None => {},
                }
                i += 1;
            }
            None
        },
    }
}

/// The largest penetration of a hit that `move_axis` pushes an actor out of.
pub const PENETRATION_LIMIT: i64 = 0x800_0000_0000;

/// Whether the box lies within sixteen times `WORLD_LIMIT` of the origin: where a
/// push out of an obstacle can leave an actor that was in the world.
pub open spec fn near_world(b: Aabb2) -> bool {
    &&& -16 * WORLD_LIMIT <= b.min.x <= b.max.x <= 16 * WORLD_LIMIT
    &&& -16 * WORLD_LIMIT <= b.min.y <= b.max.y <= 16 * WORLD_LIMIT
}

/// Whether a hit, if any, has a unit normal along an axis and a positive
/// penetration of at most `bound`.
pub open spec fn hit_within<T>(h: Option<(T, Collision)>, bound: int) -> bool {
    match h {
        Some(x) => 0 < x.1.penetration <= bound && unit_axis(x.1.normal),
        None => true,
    }
}

/// Whether a tile hit, if any, is at a cell of the map.
pub open spec fn tile_hit_in_map(h: Option<(IVec2, Collision)>, tiles: TileMap) -> bool {
    match h {
        Some(x) => tiles@.tile_at(x.0.x as int, x.0.y as int) is Some,
        None => true,
    }
}

/// Whether `id` names a cell of the map or one of the blocks.
pub open spec fn id_known(id: ColliderId, tiles: TileMap, blocks: Seq<Block>) -> bool {
    match id {
        ColliderId::Tile(pos) => tiles@.tile_at(pos.x as int, pos.y as int) is Some,
        ColliderId::Entity(id) => exists|j: int| 0 <= j < blocks.len() && (#[trigger] blocks[j]).id == id,
    }
}

/// Whether a hit names a cell of the map or one of the blocks.
pub open spec fn hit_known(h: Option<(ColliderId, Collision)>, tiles: TileMap, blocks: Seq<Block>) -> bool {
    match h {
        Some((id, _)) => id_known(id, tiles, blocks),
        None => true,
    }
}

/// The bound on the penetration of a tile hit.
pub open spec fn tile_hit_bound(collider: Collider, grid: Grid) -> int {
    (collider@.max.x - collider@.min.x) + (collider@.max.y - collider@.min.y) + grid.cell_size.x + grid.cell_size.y
}

proof fn lemma_column_within(
    collider: Collider, velocity: Vec2, grid: Grid, tiles: TileMap, drill: bool, rules: Rules,
    x: int, lo: int, hi: int, best: Option<(IVec2, Collision)>,
)
    requires
        hit_within(best, tile_hit_bound(collider, grid)),
        tile_hit_in_map(best, tiles),
        collider@.min.x <= collider@.max.x,
        collider@.min.y <= collider@.max.y,
        forall|y: int| lo <= y < hi ==> #[trigger] cell_ok(collider, grid, tiles, drill, rules, x, y),
    ensures
        hit_within(
            deepest_in_column(collider, velocity, grid, tiles, drill, rules, x, lo, hi, best),
            tile_hit_bound(collider, grid),
        ),
        tile_hit_in_map(deepest_in_column(collider, velocity, grid, tiles, drill, rules, x, lo, hi, best), tiles),
    decreases hi - lo,
{
    if hi > lo {
        lemma_column_within(collider, velocity, grid, tiles, drill, rules, x, lo, hi - 1, best);
        let pos = IVec2 { x: x as isize, y: (hi - 1) as isize };
        assert(cell_ok(collider, grid, tiles, drill, rules, x, hi - 1));
        if spec_collide(collider@, cell_box(grid, pos)) is Some {
            crate::collider::lemma_collide_penetration(collider@, cell_box(grid, pos));
        }
    }
}

proof fn lemma_box_within(
    collider: Collider, velocity: Vec2, grid: Grid, tiles: TileMap, drill: bool, rules: Rules,
    b: IAabb2, lo: int, hi: int,
)
    requires
        collider@.min.x <= collider@.max.x,
        collider@.min.y <= collider@.max.y,
        forall|x: int, y: int| lo <= x < hi && b.min.y <= y <= b.max.y ==> #[trigger] cell_ok(collider, grid, tiles, drill, rules, x, y),
    ensures
        hit_within(deepest_in_box(collider, velocity, grid, tiles, drill, rules, b, lo, hi), tile_hit_bound(collider, grid)),
        tile_hit_in_map(deepest_in_box(collider, velocity, grid, tiles, drill, rules, b, lo, hi), tiles),
    decreases hi - lo,
{
    if hi > lo {
        lemma_box_within(collider, velocity, grid, tiles, drill, rules, b, lo, hi - 1);
        assert forall|y: int| b.min.y <= y < b.max.y + 1 implies #[trigger] cell_ok(collider, grid, tiles, drill, rules, hi - 1, y) by {
            assert(cell_ok(collider, grid, tiles, drill, rules, hi - 1, y));
        }
        lemma_column_within(
            collider, velocity, grid, tiles, drill, rules, hi - 1, b.min.y as int, b.max.y + 1,
            deepest_in_box(collider, velocity, grid, tiles, drill, rules, b, lo, hi - 1),
        );
    }
}

proof fn lemma_blocks_within(collider: Collider, tiles: TileMap, blocks: Seq<Block>, i: int)
    requires
        in_world(collider@),
        forall|j: int| 0 <= j < blocks.len() ==> in_world((#[trigger] blocks[j]).collider@),
    ensures
        hit_within(first_block_hit(collider, blocks, i), PENETRATION_LIMIT as int),
        hit_known(first_block_hit(collider, blocks, i), tiles, blocks),
    decreases blocks.len() - i,
{
    if 0 <= i < blocks.len() {
        lemma_blocks_within(collider, tiles, blocks, i + 1);
        if spec_collide(collider@, blocks[i].collider@) is Some {
            crate::collider::lemma_collide_penetration(collider@, blocks[i].collider@);
        }
    }
}

/// Everything an actor in the world can hit has a positive penetration of at most
/// `PENETRATION_LIMIT`.
pub proof fn lemma_hit_within(
    collider: Collider, velocity: Vec2, grid: Grid, tiles: TileMap, blocks: Seq<Block>, drill: bool, rules: Rules,
)
    requires
        in_world(collider@),
        grid_sane(grid),
        tiles@.well_formed(),
        drill ==> tiles_known(tiles, rules),
        forall|j: int| 0 <= j < blocks.len() ==> in_world((#[trigger] blocks[j]).collider@),
    ensures
        hit_within(spec_actor_collides(collider, velocity, grid, tiles, blocks, drill, rules), PENETRATION_LIMIT as int),
        hit_known(spec_actor_collides(collider, velocity, grid, tiles, blocks, drill, rules), tiles, blocks),
{
    lemma_world_checkable(collider, grid, tiles, drill, rules);
    let g = collider.spec_grid_aabb(grid);
    lemma_box_within(collider, velocity, grid, tiles, drill, rules, g, g.min.x as int, g.max.x + 1);
    lemma_blocks_within(collider, tiles, blocks, 0);
}

/// Moving `collider` by up to `n` steps of `step`. After each step the thing it runs
/// into (see `spec_actor_collides`) ends the move and the collider is pushed out of
/// it by `normal * penetration`; a step that would leave the world is not taken and
/// ends the move.
pub open spec fn spec_move_axis(
    collider: Collider, n: int, step: Vec2, velocity: Vec2, grid: Grid, tiles: TileMap, blocks: Seq<Block>,
    drill: bool, rules: Rules,
) -> (Collider, Option<(ColliderId, Collision)>)
    decreases n,
{
    if n <= 0 {
        (collider, None)
    } else {
        let moved = Collider::spec_new(collider@.spec_translate(step));
        if !in_world(moved@) {
            (collider, None)
        } else {
            match spec_actor_collides(moved, velocity, grid, tiles, blocks, drill, rules) {
                Some((id, col)) => (Collider::spec_new(moved@.spec_translate(push_out(col))), Some((id, col))),
                None => spec_move_axis(moved, n - 1, step, velocity, grid, tiles, blocks, drill, rules),
            }
        }
    }
}

/// Whether `move_axis` and `move_actor` can work in this world.
pub open spec fn world_ok(grid: Grid, tiles: TileMap, blocks: Seq<Block>, drill: bool, rules: Rules) -> bool {
    &&& grid_sane(grid)
    &&& tiles@.well_formed()
    &&& drill ==> tiles_known(tiles, rules)
    &&& forall|j: int| 0 <= j < blocks.len() ==> in_world((#[trigger] blocks[j]).collider@)
}

fn box_in_world(b: Aabb2) -> (r: bool)
    ensures
        r == in_world(b),
{
    -WORLD_LIMIT <= b.min.x && b.min.x <= b.max.x && b.max.x <= WORLD_LIMIT && -WORLD_LIMIT <= b.min.y
        && b.min.y <= b.max.y && b.max.y <= WORLD_LIMIT
}

/// Moves `collider` step by step along one axis; see `spec_move_axis`.
pub fn move_axis(
    collider: &mut Collider,
    n: i64,
    step: Vec2,
    velocity: Vec2,
    grid: &Grid,
    tiles: &TileMap,
    blocks: &Vec<Block>,
    drill: bool,
    rules: &Rules,
) -> (r: Option<(ColliderId, Collision)>)
    requires
        near_world(old(collider)@),
        -MOVE_STEP <= step.x <= MOVE_STEP,
        -MOVE_STEP <= step.y <= MOVE_STEP,
        velocity_ok(velocity),
        world_ok(*grid, *tiles, blocks@, drill, *rules),
    ensures
        (*final(collider), r) == spec_move_axis(*old(collider), n as int, step, velocity, *grid, *tiles, blocks@, drill, *rules),
        near_world(final(collider)@),
{
    let mut k: i64 = 0;
    while k < n
        invariant
            0 <= k,
            n > 0 ==> k <= n,
            near_world(collider@),
            -MOVE_STEP <= step.x <= MOVE_STEP,
            -MOVE_STEP <= step.y <= MOVE_STEP,
            velocity_ok(velocity),
            world_ok(*grid, *tiles, blocks@, drill, *rules),
            spec_move_axis(*old(collider), n as int, step, velocity, *grid, *tiles, blocks@, drill, *rules)
                == spec_move_axis(*collider, n - k, step, velocity, *grid, *tiles, blocks@, drill, *rules),
        decreases n - k,
    {
        let mut moved = *collider;
        moved.translate(step);
        proof {
            crate::collider::lemma_collider_is_box(moved);
        }
        if !box_in_world(moved.raw()) {
            return None;
        }
        proof {
            lemma_world_checkable(moved, *grid, *tiles, drill, *rules);
            lemma_hit_within(moved, velocity, *grid, *tiles, blocks@, drill, *rules);
            assert forall|i: int| 0 <= i < blocks@.len() implies collide_fits(moved@, (#[trigger] blocks@[i]).collider@) by {
                assert(in_world(blocks@[i].collider@));
            }
        }
        match actor_collides(&moved, velocity, grid, tiles, blocks, drill, rules) {
            Some((id, col)) => {
                let px: i64 = if col.normal.x > 0 { col.penetration } else if col.normal.x < 0 { -col.penetration } else { 0 };
                let py: i64 = if col.normal.y > 0 { col.penetration } else if col.normal.y < 0 { -col.penetration } else { 0 };
                let push = Vec2 { x: px, y: py };
                assert(push == push_out(col));
                moved.translate(push);
                proof {
                    crate::collider::lemma_collider_is_box(moved);
                }
                *collider = moved;
                return Some((id, col));
            },
            None => {
                *collider = moved;
            },
        }
        k += 1;
    }
    None
}

/// Moves an actor by `delta` plus its sub-pixel remainder, one pixel at a time:
/// first along x, then along y, each axis stopping at the first thing it runs into.
/// Reports what each axis ran into. `velocity` decides which tiles the actor moves
/// away from, and a drilling actor passes drillable tiles.
pub fn move_actor(
    actor: &mut Actor,
    delta: Vec2,
    velocity: Vec2,
    grid: &Grid,
    tiles: &TileMap,
    blocks: &Vec<Block>,
    drill: bool,
    rules: &Rules,
) -> (r: MoveCollision)
    requires
        near_world(old(actor).collider@),
        old(actor).move_remainder.add_fits(delta),
        old(actor).move_remainder.x + delta.x > i64::MIN,
        old(actor).move_remainder.y + delta.y > i64::MIN,
        velocity_ok(velocity),
        world_ok(*grid, *tiles, blocks@, drill, *rules),
    ensures
        ({
            let tx = old(actor).move_remainder.x + delta.x;
            let ty = old(actor).move_remainder.y + delta.y;
            let step_x = Vec2 { x: (signum(tx) * MOVE_STEP) as i64, y: 0 };
            let step_y = Vec2 { x: 0, y: (signum(ty) * MOVE_STEP) as i64 };
            let (cx, hx) = spec_move_axis(old(actor).collider, abs(tx) / (MOVE_STEP as int), step_x, velocity, *grid, *tiles, blocks@, drill, *rules);
            let (cy, hy) = spec_move_axis(cx, abs(ty) / (MOVE_STEP as int), step_y, velocity, *grid, *tiles, blocks@, drill, *rules);
            &&& final(actor).collider == cy
            &&& r == (MoveCollision { x: hx, y: hy })
            &&& final(actor).move_remainder.x == tx - signum(tx) * (abs(tx) / (MOVE_STEP as int)) * MOVE_STEP
            &&& final(actor).move_remainder.y == ty - signum(ty) * (abs(ty) / (MOVE_STEP as int)) * MOVE_STEP
            &&& final(actor).id == old(actor).id
            &&& final(actor).riding == old(actor).riding
        }),
        near_world(final(actor).collider@),
{
    let (sign, steps) = calc_move(&mut actor.move_remainder, delta);
    let step_x = Vec2 { x: sign.x * MOVE_STEP, y: 0 };
    let step_y = Vec2 { x: 0, y: sign.y * MOVE_STEP };
    let hx = move_axis(&mut actor.collider, steps.x, step_x, velocity, grid, tiles, blocks, drill, rules);
    let hy = move_axis(&mut actor.collider, steps.y, step_y, velocity, grid, tiles, blocks, drill, rules);
    MoveCollision { x: hx, y: hy }
}

/// What a move along one axis runs into is a known cell or block, hit along an
/// axis with a bounded penetration.
pub proof fn lemma_move_axis_hit(
    collider: Collider, n: int, step: Vec2, velocity: Vec2, grid: Grid, tiles: TileMap, blocks: Seq<Block>,
    drill: bool, rules: Rules,
)
    requires
        world_ok(grid, tiles, blocks, drill, rules),
    ensures
        hit_within(spec_move_axis(collider, n, step, velocity, grid, tiles, blocks, drill, rules).1, PENETRATION_LIMIT as int),
        hit_known(spec_move_axis(collider, n, step, velocity, grid, tiles, blocks, drill, rules).1, tiles, blocks),
    decreases n,
{
    if n > 0 {
        let moved = Collider::spec_new(collider@.spec_translate(step));
        if in_world(moved@) {
            lemma_hit_within(moved, velocity, grid, tiles, blocks, drill, rules);
            lemma_move_axis_hit(moved, n - 1, step, velocity, grid, tiles, blocks, drill, rules);
        }
    }
}

} // verus!
