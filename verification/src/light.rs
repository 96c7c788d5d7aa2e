//! Where the light of a room stops: the sides of its tiles that face air or a
//! tile drawn on a lower layer.
use vstd::prelude::*;
use crate::room::RoomLayer;
use crate::rules::Rules;
use crate::tilemap::{air, is_air, TileMapView};

verus! {

/// The neighbour across side `k` of a cell (bottom, right, top, left), by its
/// place among the eight neighbours.
pub open spec fn side_neighbour(k: int) -> int {
    2 * k + 1
}

/// Whether light stops at side `k` of cell `i`: the cell holds a tile, and the
/// cell across lies inside the map and is air or on a lower layer.
pub open spec fn casts_edge(m: TileMapView, rules: Rules, i: int, k: int) -> bool {
    let t = m.tiles[i];
    &&& t != air()
    &&& match m.neighbour(i, side_neighbour(k)) {
        Some(n) => n == air() || rules.spec_layer(n) < rules.spec_layer(t),
        None => false,
    }
}

/// The edges of cell `i` among its first `k` sides, as pairs of cell and side.
pub open spec fn cell_edges(m: TileMapView, rules: Rules, i: int, k: int) -> Seq<(usize, usize)>
    decreases k,
{
    if k <= 0 {
        seq![]
    } else {
        cell_edges(m, rules, i, k - 1) + if casts_edge(m, rules, i, k - 1) {
            seq![(i as usize, (k - 1) as usize)]
        } else {
            seq![]
        }
    }
}

/// The edges of the first `n` cells, cell by cell and side by side.
pub open spec fn light_edges(m: TileMapView, rules: Rules, n: int) -> Seq<(usize, usize)>
    decreases n,
{
    if n <= 0 {
        seq![]
    } else {
        light_edges(m, rules, n - 1) + cell_edges(m, rules, n - 1, 4)
    }
}

/// Whether the rules list every tile whose layer `light_edges` compares.
pub open spec fn edges_known(m: TileMapView, rules: Rules) -> bool {
    forall|i: int, k: int|
        0 <= i < m.tiles.len() && 0 <= k < 4 && m.tiles[i] != air() ==>
        match #[trigger] m.neighbour(i, side_neighbour(k)) {
            Some(n) => n != air() ==> rules.knows(n) && rules.knows(m.tiles[i]),
            None => true,
        }
}

impl RoomLayer {
    /// The edges at which the layer's tiles stop light, each as its cell's index
    /// and the side (0 bottom, 1 right, 2 top, 3 left), cell by cell and side by
    /// side. The renderer builds the shadow geometry from them.
    pub fn calculate_light_geometry(&self, rules: &Rules) -> (r: Vec<(usize, usize)>)
        requires
            self.tiles@.well_formed(),
            self.tiles.tiles@.len() < isize::MAX,
            edges_known(self.tiles@, *rules),
        ensures
            r@ == light_edges(self.tiles@, *rules, self.tiles@.tiles.len() as int),
    {
        let n = self.tiles.tiles.len();
        let mut out: Vec<(usize, usize)> = Vec::new();
        let mut i: usize = 0;
        while i < n
            invariant
                n == self.tiles@.tiles.len(),
                i <= n,
                self.tiles@.well_formed(),
                n < isize::MAX,
                edges_known(self.tiles@, *rules),
                out@ == light_edges(self.tiles@, *rules, i as int),
            decreases n - i,
        {
            let tile = &self.tiles.tiles[i];
            assert(tile@ == self.tiles@.tiles[i as int]);
            if is_air(tile) {
                reveal_with_fuel(cell_edges, 5);
            } else {
                let ghost start = out@;
                let nb = self.tiles.get_tile_neighbours(i);
                let mut k: usize = 0;
                while k < 4
                    invariant
                        k <= 4,
                        i < n,
                        n == self.tiles@.tiles.len(),
                        tile@ == self.tiles@.tiles[i as int],
                        tile@ != air(),
                        edges_known(self.tiles@, *rules),
                        forall|j: int| 0 <= j < 8 ==> match #[trigger] nb[j] {
                            Some(t) => self.tiles@.neighbour(i as int, j) == Some(t@),
                            None => self.tiles@.neighbour(i as int, j) is None,
                        },
                        out@ == start + cell_edges(self.tiles@, *rules, i as int, k as int),
                    decreases 4 - k,
                {
                    let across = nb[2 * k + 1];
                    let stops = match across {
                        Some(t) => {
                            if is_air(t) {
                                true
                            } else {
                                assert(self.tiles@.neighbour(i as int, side_neighbour(k as int)) == Some(t@));
                                rules.tile(t).layer < rules.tile(tile).layer
                            }
                        },
                        None => false,
                    };
                    assert(stops == casts_edge(self.tiles@, *rules, i as int, k as int));
                    if stops {
                        out.push((i, k));
                    }
                    proof {
                        assert(out@ == start + cell_edges(self.tiles@, *rules, i as int, k as int + 1));
                    }
                    k += 1;
                }
            }
            i += 1;
        }
        out
    }
}

} // verus!
