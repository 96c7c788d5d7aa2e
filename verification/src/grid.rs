//! The grid that maps world coordinates to tile cells.
use vstd::prelude::*;
use crate::geom::{fits, fits_isize, floor_div, floor_mod, IVec2, Vec2, COORD_ONE};

verus! {

/// `COORD_ONE * COORD_ONE`: the scale of a product of two coordinates.
pub const COORD_ONE_SQ: i64 = 256_000_000;

/// A grid of cells. A world position `w` lies at the grid position
/// `w * cell_size + offset` (the product taken in world units), whose integer part
/// is the cell and whose fractional part is the offset inside it.
#[derive(Clone, Copy, Debug, PartialEq, Eq, Structural)]
pub struct Grid {
    pub cell_size: Vec2,
    pub offset: Vec2,
}

/// The grid position of one world coordinate, scaled by `COORD_ONE_SQ`.
pub open spec fn scaled_grid_pos(world: int, cell: int, offset: int) -> int {
    world * cell + offset * COORD_ONE
}

/// The world coordinate of the start of cell `g`, rounded down.
pub open spec fn spec_cell_to_world(g: int, cell: int, offset: int) -> int {
    ((g * COORD_ONE - offset) * COORD_ONE) / cell
}

impl Grid {
    /// Whether `world_to_grid` can work on `w` without overflow.
    pub open spec fn world_to_grid_fits(self, w: Vec2) -> bool {
        &&& fits(w.x * self.cell_size.x)
        &&& fits(w.y * self.cell_size.y)
        &&& fits(self.offset.x * COORD_ONE)
        &&& fits(self.offset.y * COORD_ONE)
        &&& fits(scaled_grid_pos(w.x as int, self.cell_size.x as int, self.offset.x as int))
        &&& fits(scaled_grid_pos(w.y as int, self.cell_size.y as int, self.offset.y as int))
        &&& fits_isize(scaled_grid_pos(w.x as int, self.cell_size.x as int, self.offset.x as int) / (COORD_ONE_SQ as int))
        &&& fits_isize(scaled_grid_pos(w.y as int, self.cell_size.y as int, self.offset.y as int) / (COORD_ONE_SQ as int))
    }

    /// The cell that contains the world position `w`.
    pub open spec fn spec_cell(self, w: Vec2) -> IVec2 {
        IVec2 {
            x: (scaled_grid_pos(w.x as int, self.cell_size.x as int, self.offset.x as int) / (COORD_ONE_SQ as int)) as isize,
            y: (scaled_grid_pos(w.y as int, self.cell_size.y as int, self.offset.y as int) / (COORD_ONE_SQ as int)) as isize,
        }
    }

    /// The position of `w` inside its cell, in `[0, COORD_ONE)` on each axis.
    pub open spec fn spec_cell_offset(self, w: Vec2) -> Vec2 {
        Vec2 {
            x: ((scaled_grid_pos(w.x as int, self.cell_size.x as int, self.offset.x as int) % (COORD_ONE_SQ as int)) / (COORD_ONE as int)) as i64,
            y: ((scaled_grid_pos(w.y as int, self.cell_size.y as int, self.offset.y as int) % (COORD_ONE_SQ as int)) / (COORD_ONE as int)) as i64,
        }
    }

    /// Whether `grid_to_world` can work on `g` without overflow.
    pub open spec fn grid_to_world_fits(self, g: IVec2) -> bool {
        &&& self.cell_size.x > 0
        &&& self.cell_size.y > 0
        &&& fits(g.x * COORD_ONE)
        &&& fits(g.y * COORD_ONE)
        &&& fits(g.x * COORD_ONE - self.offset.x)
        &&& fits(g.y * COORD_ONE - self.offset.y)
        &&& fits((g.x * COORD_ONE - self.offset.x) * COORD_ONE)
        &&& fits((g.y * COORD_ONE - self.offset.y) * COORD_ONE)
    }

    pub open spec fn spec_grid_to_world(self, g: IVec2) -> Vec2 {
        Vec2 {
            x: spec_cell_to_world(g.x as int, self.cell_size.x as int, self.offset.x as int) as i64,
            y: spec_cell_to_world(g.y as int, self.cell_size.y as int, self.offset.y as int) as i64,
        }
    }

    /// The default grid: one world unit per cell, no offset.
    pub open spec fn is_unit(self) -> bool {
        self.cell_size == (Vec2 { x: COORD_ONE, y: COORD_ONE }) && self.offset == (Vec2 { x: 0, y: 0 })
    }

    pub fn new(cell_size: Vec2) -> (g: Grid)
        ensures
            g.cell_size == cell_size,
            g.offset == (Vec2 { x: 0, y: 0 }),
    {
        Grid { cell_size, offset: Vec2 { x: 0, y: 0 } }
    }

    pub fn default() -> (g: Grid)
        ensures
            g.is_unit(),
    {
        Grid::new(Vec2 { x: COORD_ONE, y: COORD_ONE })
    }

    /// Converts the start of a cell to world coordinates.
    pub fn grid_to_world(&self, g: IVec2) -> (w: Vec2)
        requires
            self.grid_to_world_fits(g),
        ensures
            w == self.spec_grid_to_world(g),
    {
        let gx = g.x as i64;
        let gy = g.y as i64;
        let x = floor_div((gx * COORD_ONE - self.offset.x) * COORD_ONE, self.cell_size.x);
        let y = floor_div((gy * COORD_ONE - self.offset.y) * COORD_ONE, self.cell_size.y);
        Vec2 { x, y }
    }

    /// Converts a world position to the cell that contains it and the
    /// position inside that cell.
    pub fn world_to_grid(&self, w: Vec2) -> (res: (IVec2, Vec2))
        requires
            self.world_to_grid_fits(w),
        ensures
            res.0 == self.spec_cell(w),
            res.1 == self.spec_cell_offset(w),
            0 <= res.1.x < COORD_ONE,
            0 <= res.1.y < COORD_ONE,
    {
        let sx = w.x * self.cell_size.x + self.offset.x * COORD_ONE;
        let sy = w.y * self.cell_size.y + self.offset.y * COORD_ONE;
        let cx = floor_div(sx, COORD_ONE_SQ);
        let cy = floor_div(sy, COORD_ONE_SQ);
        let rx = floor_mod(sx, COORD_ONE_SQ);
        let ry = floor_mod(sy, COORD_ONE_SQ);
        let ox = rx / COORD_ONE;
        let oy = ry / COORD_ONE;
        (IVec2 { x: cx as isize, y: cy as isize }, Vec2 { x: ox, y: oy })
    }
}

} // verus!
