//! Tile maps: a rectangle of named tiles, and how each tile joins its neighbours.
use vstd::prelude::*;
use crate::geom::{fits_isize, IVec2, UVec2};
use crate::assets::Assets;
use crate::rules::{Rules, Tile};
use crate::tileset::{pattern_matches, sample_step, Connection};

verus! {

/// The name of the empty tile.
pub open spec fn air() -> Seq<char> {
    seq!['a', 'i', 'r']
}

/// A fresh empty tile.
pub fn air_tile() -> (t: Tile)
    ensures
        t@ == air(),
{
    proof {
        reveal_strlit("air");
    }
    "air".to_owned()
}

/// Whether `t` is the empty tile.
pub fn is_air(t: &Tile) -> (b: bool)
    ensures
        b == (t@ == air()),
{
    *t == air_tile()
}

/// A rectangle of tiles, stored row by row from the bottom.
#[derive(Debug)]
pub struct TileMap {
    pub size: UVec2,
    pub tiles: Vec<Tile>,
    /// The tile image chosen for each cell, an index into its tile set.
    pub geometry: Option<Vec<usize>>,
}

/// What a tile map holds: its size and the names of its tiles.
pub struct TileMapView {
    pub size: UVec2,
    pub tiles: Seq<Seq<char>>,
}

/// The offset of neighbour `k`, counter-clockwise from the bottom-left one.
pub open spec fn neighbour_delta(k: int) -> (int, int) {
    (sample_step(k).0 - 1, sample_step(k).1 - 1)
}

/// How neighbour `n` (nothing outside the map) joins a tile named `center`.
pub open spec fn spec_connection(rules: Rules, n: Option<Seq<char>>, center: Seq<char>) -> Connection {
    match n {
        None => Connection::Same,
        Some(t) => if t == air() {
            Connection::Empty
        } else if t == center || rules.spec_layer(t) > rules.spec_layer(center) {
            Connection::Same
        } else {
            Connection::Other
        },
    }
}

/// Whether the rules list what `spec_connection` looks up.
pub open spec fn connection_known(rules: Rules, n: Option<Seq<char>>, center: Seq<char>) -> bool {
    match n {
        Some(t) => t != air() && t != center ==> rules.knows(t) && rules.knows(center),
        None => true,
    }
}

impl TileMapView {
    pub open spec fn well_formed(self) -> bool {
        self.tiles.len() == self.size.x * self.size.y
    }

    pub open spec fn in_bounds(self, x: int, y: int) -> bool {
        0 <= x < self.size.x && 0 <= y < self.size.y
    }

    /// The tile at `(x, y)`, nothing outside the map.
    pub open spec fn tile_at(self, x: int, y: int) -> Option<Seq<char>> {
        if self.in_bounds(x, y) {
            Some(self.tiles[x + y * self.size.x])
        } else {
            None
        }
    }

    pub open spec fn index_pos(self, index: int) -> (int, int) {
        (index % self.size.x as int, index / self.size.x as int)
    }

    pub open spec fn neighbour(self, index: int, k: int) -> Option<Seq<char>> {
        let (x, y) = self.index_pos(index);
        self.tile_at(x + neighbour_delta(k).0, y + neighbour_delta(k).1)
    }

    /// The tile whose connections are computed: the given one, or the one at `index`.
    pub open spec fn center(self, index: int, tile: Option<Seq<char>>) -> Option<Seq<char>> {
        match tile {
            Some(t) => Some(t),
            None => self.tile_at(self.index_pos(index).0, self.index_pos(index).1),
        }
    }

    pub open spec fn connection(self, index: int, tile: Option<Seq<char>>, rules: Rules, k: int) -> Connection {
        match self.center(index, tile) {
            None => Connection::Empty,
            Some(c) => spec_connection(rules, self.neighbour(index, k), c),
        }
    }

    /// How the tile at `index` (or `tile` put there) joins each of its eight neighbours.
    pub open spec fn connections(self, index: int, tile: Option<Seq<char>>, rules: Rules) -> [Connection; 8] {
        [
            self.connection(index, tile, rules, 0),
            self.connection(index, tile, rules, 1),
            self.connection(index, tile, rules, 2),
            self.connection(index, tile, rules, 3),
            self.connection(index, tile, rules, 4),
            self.connection(index, tile, rules, 5),
            self.connection(index, tile, rules, 6),
            self.connection(index, tile, rules, 7),
        ]
    }

    pub open spec fn connections_known(self, index: int, tile: Option<Seq<char>>, rules: Rules) -> bool {
        match self.center(index, tile) {
            None => true,
            Some(c) => forall|k: int| 0 <= k < 8 ==> connection_known(rules, #[trigger] self.neighbour(index, k), c),
        }
    }

    /// What `get_tile_connections` needs: a row width to find positions by,
    /// indices small enough for grid coordinates, and rules for what it compares.
    pub open spec fn connections_ok(self, index: int, tile: Option<Seq<char>>, rules: Rules) -> bool {
        &&& self.well_formed()
        &&& self.size.x > 0
        &&& 0 <= index < isize::MAX
        &&& self.connections_known(index, tile, rules)
    }
}

impl TileMapView {
    /// Whether cell `i` has a tile set and rules, and some tile of its set suits
    /// its neighbourhood.
    pub open spec fn cell_shapable(self, assets: Assets, i: int) -> bool {
        let t = self.tiles[i];
        &&& assets.sprites.tiles.knows(t)
        &&& self.connections_known(i, None, assets.rules)
        &&& exists|j: int|
            0 <= j < assets.sprites.tiles.spec_tile_set(t).unwrap().config.tiles@.len()
                && #[trigger] pattern_matches(
                assets.sprites.tiles.spec_tile_set(t).unwrap().config.tiles@[j].0,
                self.connections(i, None, assets.rules),
            )
    }

    /// Whether a tile image can be chosen for every cell.
    pub open spec fn shapable(self, assets: Assets) -> bool {
        &&& self.well_formed()
        &&& self.tiles.len() < isize::MAX
        &&& forall|i: int| 0 <= i < self.tiles.len() ==> #[trigger] self.cell_shapable(assets, i)
    }

    /// Whether `geometry` picks, for every cell, a tile image of its set that suits
    /// its neighbourhood.
    pub open spec fn geometry_fits(self, assets: Assets, geometry: Seq<usize>) -> bool {
        &&& geometry.len() == self.tiles.len()
        &&& forall|i: int| 0 <= i < self.tiles.len() ==> {
            let set = assets.sprites.tiles.spec_tile_set(self.tiles[i]).unwrap();
            &&& #[trigger] geometry[i] < set.config.tiles@.len()
            &&& pattern_matches(set.config.tiles@[geometry[i] as int].0, self.connections(i, None, assets.rules))
        }
    }

    /// The map with tile `t` at cell `(x, y)`.
    pub open spec fn with_tile(self, x: int, y: int, t: Seq<char>) -> TileMapView {
        TileMapView { size: self.size, tiles: self.tiles.update(x + y * self.size.x, t) }
    }

    /// The map cut or padded with air to `size`, keeping the bottom-left corner.
    pub open spec fn resized(self, size: UVec2) -> TileMapView {
        TileMapView {
            size,
            tiles: Seq::new(
                (size.x * size.y) as nat,
                |i: int| {
                    let x = i % size.x as int;
                    let y = i / size.x as int;
                    match self.tile_at(x, y) {
                        Some(t) => t,
                        None => air(),
                    }
                },
            ),
        }
    }

    /// The map with its tiles moved by `delta` cells; what leaves the map is
    /// lost and what is uncovered is air.
    pub open spec fn translated(self, delta: IVec2) -> TileMapView {
        TileMapView {
            size: self.size,
            tiles: Seq::new(
                self.tiles.len(),
                |i: int| {
                    let x = i % self.size.x as int;
                    let y = i / self.size.x as int;
                    match self.tile_at(x - delta.x, y - delta.y) {
                        Some(t) => t,
                        None => air(),
                    }
                },
            ),
        }
    }
}

impl View for TileMap {
    type V = TileMapView;

    open spec fn view(&self) -> TileMapView {
        TileMapView { size: self.size, tiles: self.tiles@.map_values(|t: Tile| t@) }
    }
}

impl TileMap {
    /// The geometry as a sequence, if the map has one.
    pub open spec fn geometry_view(&self) -> Option<Seq<usize>> {
        match self.geometry {
            Some(g) => Some(g@),
            None => None,
        }
    }
}

impl TileMap {
    /// Renames every tile `from` to `to`; the chosen tile images stay.
    pub fn rename_tile(&mut self, from: &Tile, to: &Tile)
        ensures
            final(self).size == old(self).size,
            final(self).geometry == old(self).geometry,
            final(self)@.tiles == old(self)@.tiles.map_values(|t: Seq<char>| if t == from@ { to@ } else { t }),
    {
        let n = self.tiles.len();
        let mut i: usize = 0;
        while i < n
            invariant
                n == self.tiles@.len(),
                n == old(self).tiles@.len(),
                i <= n,
                self.size == old(self).size,
                self.geometry == old(self).geometry,
                forall|j: int| 0 <= j < i ==> (#[trigger] self.tiles@[j])@ == (if old(self).tiles@[j]@ == from@ { to@ } else { old(self).tiles@[j]@ }),
                forall|j: int| i <= j < n ==> #[trigger] self.tiles@[j] == old(self).tiles@[j],
            decreases n - i,
        {
            if self.tiles[i] == *from {
                self.tiles.set(i, to.clone());
            }
            i += 1;
        }
        assert(self@.tiles =~= old(self)@.tiles.map_values(|t: Seq<char>| if t == from@ { to@ } else { t }));
    }
}

impl TileMap {
    /// Whether a tile image can be chosen for every cell: every tile has a tile set
    /// and rules for the neighbours it is compared with, and its set has a tile for
    /// its neighbourhood. See `TileMapView::shapable`.
    pub fn can_shape(&self, assets: &Assets) -> (b: bool)
        ensures
            b == self@.shapable(*assets),
    {
        let n = self.tiles.len();
        match self.size.x.checked_mul(self.size.y) {
            Some(m) => {
                if m != n {
                    return false;
                }
            },
            None => {
                return false;
            },
        }
        if n >= isize::MAX as usize {
            return false;
        }
        let mut i: usize = 0;
        while i < n
            invariant
                n == self.tiles@.len(),
                self@.well_formed(),
                self.tiles@.len() < isize::MAX,
                i <= n,
                forall|j: int| 0 <= j < i ==> #[trigger] self@.cell_shapable(*assets, j),
            decreases n - i,
        {
            proof {
                assert(self.tiles@[i as int]@ == self@.tiles[i as int]);
                assert(self.size.x > 0) by (nonlinear_arith)
                    requires
                        self.size.x * self.size.y == n,
                        n > i,
                ;
                lemma_pos_small(i as int, self.size.x as int);
                let (x, y) = self@.index_pos(i as int);
                vstd::arithmetic::div_mod::lemma_fundamental_div_mod(i as int, self.size.x as int);
                assert(y < self.size.y) by (nonlinear_arith)
                    requires
                        i == self.size.x * y + x,
                        0 <= x,
                        i < self.size.x * self.size.y,
                        self.size.x > 0,
                ;
                assert(x + y * self.size.x == i) by (nonlinear_arith)
                    requires
                        i == self.size.x * y + x,
                ;
                assert(self@.center(i as int, None) == Some(self@.tiles[i as int]));
            }
            let t = &self.tiles[i];
            let set = match assets.sprites.tiles.find_tile_set(t) {
                Some(s) => s,
                None => {
                    assert(!self@.cell_shapable(*assets, i as int));
                    return false;
                },
            };
            let nb = self.get_tile_neighbours(i);
            let mut k: usize = 0;
            while k < 8
                invariant
                    k <= 8,
                    i < n,
                    n == self.tiles@.len(),
                    self@.well_formed(),
                    *t == self.tiles@[i as int],
                    self@.center(i as int, None) == Some(t@),
                    forall|m: int| 0 <= m < 8 ==> match #[trigger] nb[m] {
                        Some(u) => self@.neighbour(i as int, m) == Some(u@),
                        None => self@.neighbour(i as int, m) is None,
                    },
                    forall|m: int| 0 <= m < k ==> connection_known(assets.rules, #[trigger] self@.neighbour(i as int, m), t@),
                decreases 8 - k,
            {
                match nb[k] {
                    Some(u) => {
                        if !is_air(u) && *u != *t {
                            if !assets.rules.knows_tile(u) || !assets.rules.knows_tile(t) {
                                assert(!connection_known(assets.rules, self@.neighbour(i as int, k as int), t@));
                                assert(!self@.connections_known(i as int, None, assets.rules));
                                assert(!self@.cell_shapable(*assets, i as int));
                                return false;
                            }
                        }
                    },
                    None => {},
                }
                k += 1;
            }
            let connections = self.get_tile_connections(i, None, &assets.rules);
            let options = set.get_tile_connected(connections);
            if options.len() == 0 {
                proof {
                    if self@.cell_shapable(*assets, i as int) {
                        let j = choose|j: int|
                            0 <= j < set.config.tiles@.len() && #[trigger] pattern_matches(set.config.tiles@[j].0, connections);
                        assert(set.spec_fits(connections)(j));
                        assert(options@.contains(j as usize));
                    }
                }
                return false;
            }
            proof {
                let j = options@[0] as int;
                assert(set.spec_fits(connections)(j));
                assert(pattern_matches(set.config.tiles@[j].0, connections));
                let tv = self@.tiles[i as int];
                assert(assets.sprites.tiles.spec_tile_set(tv).unwrap() == *set);
                assert(connections == self@.connections(i as int, None, assets.rules));
                assert(pattern_matches(assets.sprites.tiles.spec_tile_set(tv).unwrap().config.tiles@[j].0, self@.connections(i as int, None, assets.rules)));
                assert(self@.cell_shapable(*assets, i as int));
            }
            i += 1;
        }
        true
    }
}

impl TileMap {
    /// Whether the map has a tile for every cell, and an image for every tile once
    /// they are chosen.
    pub fn is_well_formed(&self) -> (b: bool)
        ensures
            b == self.well_formed(),
    {
        let n = self.tiles.len();
        let cells = match self.size.x.checked_mul(self.size.y) {
            Some(m) => m == n,
            None => false,
        };
        let images = match &self.geometry {
            Some(g) => g.len() == self.tiles.len(),
            None => true,
        };
        cells && images
    }

    /// Whether the map, cut or padded to `size`, could get its tile images.
    pub fn can_resize(&self, size: UVec2, assets: &Assets) -> (b: bool)
        requires
            self.well_formed(),
            size.x * size.y <= usize::MAX,
        ensures
            b == self@.resized(size).shapable(*assets),
    {
        let m = TileMap { size, tiles: self.resized_tiles(size), geometry: None };
        assert(m@.tiles =~= self@.resized(size).tiles);
        m.can_shape(assets)
    }
}

impl Clone for TileMap {
    fn clone(&self) -> (r: Self)
        ensures
            r.size == self.size,
            r.tiles@ == self.tiles@,
            r.geometry_view() == self.geometry_view(),
    {
        let geometry = match &self.geometry {
            Some(g) => Some(g.clone()),
            None => None,
        };
        proof {
            if self.geometry is Some {
                assert(geometry.unwrap()@ =~= self.geometry.unwrap()@);
            }
        }
        TileMap { size: self.size, tiles: self.tiles.clone(), geometry }
    }
}

/// The index of the cell at `pos` in a map `width` cells wide; nothing when
/// `pos` lies beyond the right edge.
pub fn pos_to_index(pos: UVec2, width: usize) -> (r: Option<usize>)
    requires
        pos.x < width ==> pos.x + pos.y * width <= usize::MAX,
    ensures
        r == (if pos.x >= width { None } else { Some((pos.x + pos.y * width) as usize) }),
{
    if pos.x >= width {
        None
    } else {
        Some(pos.x + pos.y * width)
    }
}

/// The cell at `index` in a map `width` cells wide.
pub fn index_to_pos(index: usize, width: usize) -> (p: UVec2)
    requires
        width > 0,
    ensures
        p.x == index % width,
        p.y == index / width,
{
    UVec2 { x: index % width, y: index / width }
}

impl TileMap {
    pub open spec fn well_formed(&self) -> bool {
        &&& self@.well_formed()
        &&& match self.geometry {
            Some(g) => g@.len() == self.tiles@.len(),
            None => true,
        }
    }

    /// The chosen tile image of each cell, once computed.
    pub open spec fn spec_geometry(&self) -> Option<Seq<usize>> {
        match self.geometry {
            Some(g) => Some(g@),
            None => None,
        }
    }

    /// A map of `size` cells, all air, with no tile images chosen yet.
    pub fn new(size: UVec2) -> (m: TileMap)
        requires
            size.x * size.y <= usize::MAX,
        ensures
            m.size == size,
            m.well_formed(),
            m@.tiles == Seq::new((size.x * size.y) as nat, |i: int| air()),
            m.spec_geometry() is None,
    {
        let n = size.x * size.y;
        let mut tiles: Vec<Tile> = Vec::new();
        let mut i: usize = 0;
        while i < n
            invariant
                i <= n,
                tiles@.len() == i,
                forall|j: int| 0 <= j < i ==> #[trigger] tiles@[j]@ == air(),
            decreases n - i,
        {
            tiles.push(air_tile());
            i += 1;
        }
        let m = TileMap { size, tiles, geometry: None };
        assert(m@.tiles =~= Seq::new((size.x * size.y) as nat, |i: int| air()));
        m
    }

    /// A map from its parts, as read back from storage.
    pub fn from_parts(size: UVec2, tiles: Vec<Tile>, geometry: Option<Vec<usize>>) -> (m: TileMap)
        ensures
            m.size == size,
            m.tiles == tiles,
            m.spec_geometry() == (match geometry {
                Some(g) => Some(g@),
                None => None,
            }),
    {
        TileMap { size, tiles, geometry }
    }

    /// The chosen tile images, as stored.
    pub fn geometry(&self) -> (g: Option<&Vec<usize>>)
        ensures
            match g {
                Some(v) => self.spec_geometry() == Some(v@),
                None => self.spec_geometry() is None,
            },
    {
        match &self.geometry {
            Some(v) => Some(v),
            None => None,
        }
    }

    /// The tile image chosen for cell `tile`; the images must have been chosen.
    pub fn get_tile_index(&self, tile: usize) -> (i: usize)
        requires
            self.spec_geometry() is Some,
            tile < self.spec_geometry().unwrap().len(),
        ensures
            i == self.spec_geometry().unwrap()[tile as int],
    {
        match &self.geometry {
            Some(g) => g[tile],
            None => 0,
        }
    }

    /// The tile at `pos`, nothing outside the map.
    pub fn get_tile_isize(&self, pos: IVec2) -> (r: Option<&Tile>)
        requires
            self@.well_formed(),
        ensures
            match r {
                Some(t) => self@.tile_at(pos.x as int, pos.y as int) == Some(t@)
                    && *t == self.tiles@[pos.x + pos.y * self.size.x],
                None => self@.tile_at(pos.x as int, pos.y as int) is None,
            },
    {
        if pos.x < 0 || pos.y < 0 {
            return None;
        }
        let x = pos.x as usize;
        let y = pos.y as usize;
        if x >= self.size.x || y >= self.size.y {
            return None;
        }
        let _n = self.tiles.len();
        proof {
            lemma_cell_index(x as int, y as int, self.size.x as int, self.size.y as int);
            assert(self.tiles@.len() == self@.tiles.len());
        }
        let i = x + y * self.size.x;
        Some(&self.tiles[i])
    }

    /// The eight neighbours of cell `tile`, counter-clockwise from the bottom-left one.
    pub fn get_tile_neighbours(&self, tile: usize) -> (r: [Option<&Tile>; 8])
        requires
            self@.well_formed(),
            self.size.x > 0,
            tile < isize::MAX,
        ensures
            forall|k: int| 0 <= k < 8 ==> match #[trigger] r[k] {
                Some(t) => self@.neighbour(tile as int, k) == Some(t@),
                None => self@.neighbour(tile as int, k) is None,
            },
    {
        let p = index_to_pos(tile, self.size.x);
        proof {
            lemma_pos_small(tile as int, self.size.x as int);
        }
        let x = p.x as isize;
        let y = p.y as isize;
        let r = [
            self.get_tile_isize(IVec2 { x: x - 1, y: y - 1 }),
            self.get_tile_isize(IVec2 { x: x, y: y - 1 }),
            self.get_tile_isize(IVec2 { x: x + 1, y: y - 1 }),
            self.get_tile_isize(IVec2 { x: x + 1, y: y }),
            self.get_tile_isize(IVec2 { x: x + 1, y: y + 1 }),
            self.get_tile_isize(IVec2 { x: x, y: y + 1 }),
            self.get_tile_isize(IVec2 { x: x - 1, y: y + 1 }),
            self.get_tile_isize(IVec2 { x: x - 1, y: y }),
        ];
        r
    }

    /// How cell `index` (or `tile`, as if it stood there) joins its eight neighbours:
    /// nothing outside the map counts as joining, air as empty, and another tile as
    /// joining when it is the same or drawn on a higher layer.
    pub fn get_tile_connections(&self, index: usize, tile: Option<&Tile>, rules: &Rules) -> (r: [Connection; 8])
        requires
            self@.connections_ok(
                index as int,
                match tile {
                    Some(t) => Some(t@),
                    None => None,
                },
                *rules,
            ),
        ensures
            r == self@.connections(
                index as int,
                match tile {
                    Some(t) => Some(t@),
                    None => None,
                },
                *rules,
            ),
            forall|k: int| 0 <= k < 8 ==> {
                let w = self.size.x as int;
                let nx = index as int % w + sample_step(k).0 - 1;
                let ny = index as int / w + sample_step(k).1 - 1;
                let gt = match tile {
                    Some(t) => Some(t@),
                    None => None,
                };
                self@.center(index as int, gt) is Some ==> {
                    &&& !(0 <= nx < w && 0 <= ny < self.size.y) ==> #[trigger] r[k] == Connection::Same
                    &&& (0 <= nx < w && 0 <= ny < self.size.y && self@.tiles[nx + ny * w] == air())
                        ==> r[k] == Connection::Empty
                }
            },
    {
        let ghost gt = match tile {
            Some(t) => Some(t@),
            None => None,
        };
        let center = match tile {
            Some(t) => Some(t),
            None => {
                let p = index_to_pos(index, self.size.x);
                proof {
                    lemma_pos_small(index as int, self.size.x as int);
                }
                self.get_tile_isize(IVec2 { x: p.x as isize, y: p.y as isize })
            },
        };
        match center {
            None => {
                let r = [
                    Connection::Empty,
                    Connection::Empty,
                    Connection::Empty,
                    Connection::Empty,
                    Connection::Empty,
                    Connection::Empty,
                    Connection::Empty,
                    Connection::Empty,
                ];
                proof {
                    assert(r@ =~= self@.connections(index as int, gt, *rules)@);
                }
                r
            },
            Some(c) => {
                let n = self.get_tile_neighbours(index);
                proof {
                    assert(self@.center(index as int, gt) == Some(c@));
                }
                let r = [
                    connection(rules, n[0], c),
                    connection(rules, n[1], c),
                    connection(rules, n[2], c),
                    connection(rules, n[3], c),
                    connection(rules, n[4], c),
                    connection(rules, n[5], c),
                    connection(rules, n[6], c),
                    connection(rules, n[7], c),
                ];
                proof {
                    assert forall|k: int| 0 <= k < 8 implies r[k] == self@.connection(index as int, gt, *rules, k) by {
                        let _ = n[k];
                    }
                    assert(r@ =~= self@.connections(index as int, gt, *rules)@);
                }
                r
            },
        }
    }
}

impl TileMap {
    /// Chooses at random, for every cell, one of the tile images of its set that
    /// suit its neighbourhood.
    pub fn update_geometry(&mut self, assets: &Assets)
        requires
            old(self)@.shapable(*assets),
        ensures
            final(self).size == old(self).size,
            final(self).tiles == old(self).tiles,
            final(self).well_formed(),
            final(self).spec_geometry() is Some,
            final(self)@.geometry_fits(*assets, final(self).spec_geometry().unwrap()),
    {
        let n = self.tiles.len();
        let mut geometry: Vec<usize> = Vec::new();
        let mut i: usize = 0;
        while i < n
            invariant
                n == self.tiles@.len(),
                self@.shapable(*assets),
                i <= n,
                geometry@.len() == i,
                forall|j: int| 0 <= j < i ==> {
                    let set = assets.sprites.tiles.spec_tile_set(self@.tiles[j]).unwrap();
                    &&& #[trigger] geometry@[j] < set.config.tiles@.len()
                    &&& pattern_matches(set.config.tiles@[geometry@[j] as int].0, self@.connections(j, None, assets.rules))
                },
            decreases n - i,
        {
            proof {
                assert(self@.cell_shapable(*assets, i as int));
                assert(self.tiles@[i as int]@ == self@.tiles[i as int]);
                assert(self.size.x > 0) by (nonlinear_arith)
                    requires
                        self.size.x * self.size.y == n,
                        n > i,
                ;
            }
            let connections = self.get_tile_connections(i, None, &assets.rules);
            let set = assets.sprites.tiles.get_tile_set(&self.tiles[i]);
            let options = set.get_tile_connected(connections);
            proof {
                let p = set.spec_fits(connections);
                let j = choose|j: int|
                    0 <= j < set.config.tiles@.len() && #[trigger] pattern_matches(set.config.tiles@[j].0, connections);
                assert(p(j));
                assert(options@.contains(j as usize));
            }
            let k = random_index(options.len());
            proof {
                let p = set.spec_fits(connections);
                assert(p(options@[k as int] as int));
            }
            geometry.push(options[k]);
            i += 1;
        }
        self.geometry = Some(geometry);
    }

    /// Puts `tile` at `pos` and chooses the tile images anew; outside the map
    /// nothing changes.
    pub fn set_tile(&mut self, pos: UVec2, tile: Tile, assets: &Assets)
        requires
            old(self).well_formed(),
            old(self)@.in_bounds(pos.x as int, pos.y as int) ==> old(self)@.with_tile(
                pos.x as int,
                pos.y as int,
                tile@,
            ).shapable(*assets),
        ensures
            old(self)@.in_bounds(pos.x as int, pos.y as int) ==> {
                &&& final(self)@ == old(self)@.with_tile(pos.x as int, pos.y as int, tile@)
                &&& final(self).well_formed()
                &&& final(self).spec_geometry() is Some
                &&& final(self)@.geometry_fits(*assets, final(self).spec_geometry().unwrap())
            },
            !old(self)@.in_bounds(pos.x as int, pos.y as int) ==> *final(self) == *old(self),
    {
        if pos.x < self.size.x && pos.y < self.size.y {
            let _n = self.tiles.len();
            proof {
                lemma_cell_index(pos.x as int, pos.y as int, self.size.x as int, self.size.y as int);
            }
            let i = pos.x + pos.y * self.size.x;
            self.tiles.set(i, tile);
            proof {
                assert(self@.tiles =~= old(self)@.with_tile(pos.x as int, pos.y as int, tile@).tiles);
            }
            self.update_geometry(assets);
        }
    }

    /// `set_tile` at a signed position: nothing happens at negative coordinates.
    pub fn set_tile_isize(&mut self, pos: IVec2, tile: Tile, assets: &Assets)
        requires
            old(self).well_formed(),
            old(self)@.in_bounds(pos.x as int, pos.y as int) ==> old(self)@.with_tile(
                pos.x as int,
                pos.y as int,
                tile@,
            ).shapable(*assets),
        ensures
            old(self)@.in_bounds(pos.x as int, pos.y as int) ==> {
                &&& final(self)@ == old(self)@.with_tile(pos.x as int, pos.y as int, tile@)
                &&& final(self).well_formed()
                &&& final(self).spec_geometry() is Some
                &&& final(self)@.geometry_fits(*assets, final(self).spec_geometry().unwrap())
            },
            !old(self)@.in_bounds(pos.x as int, pos.y as int) ==> *final(self) == *old(self),
    {
        if pos.x < 0 || pos.y < 0 {
            return;
        }
        self.set_tile(UVec2 { x: pos.x as usize, y: pos.y as usize }, tile, assets);
    }

    /// The tiles of the map cut or padded with air to `size`.
    fn resized_tiles(&self, size: UVec2) -> (tiles: Vec<Tile>)
        requires
            self.well_formed(),
            size.x * size.y <= usize::MAX,
        ensures
            tiles@.map_values(|t: Tile| t@) == self@.resized(size).tiles,
    {
        let mut tiles: Vec<Tile> = Vec::new();
        let mut y: usize = 0;
        while y < size.y
            invariant
                self.well_formed(),
                size.x * size.y <= usize::MAX,
                y <= size.y,
                tiles@.len() == y * size.x,
                forall|j: int| 0 <= j < tiles@.len() ==> #[trigger] tiles@[j]@ == self@.resized(size).tiles[j],
            decreases size.y - y,
        {
            let mut x: usize = 0;
            while x < size.x
                invariant
                    self.well_formed(),
                    size.x * size.y <= usize::MAX,
                    y < size.y,
                    x <= size.x,
                    tiles@.len() == y * size.x + x,
                    forall|j: int| 0 <= j < tiles@.len() ==> #[trigger] tiles@[j]@ == self@.resized(size).tiles[j],
                decreases size.x - x,
            {
                let ghost j = (y * size.x + x) as int;
                proof {
                    lemma_cell_index(x as int, y as int, size.x as int, size.y as int);
                    vstd::arithmetic::div_mod::lemma_fundamental_div_mod_converse(j, size.x as int, y as int, x as int);
                }
                let t = if x < self.size.x && y < self.size.y {
                    let _n = self.tiles.len();
                    proof {
                        lemma_cell_index(x as int, y as int, self.size.x as int, self.size.y as int);
                    }
                    self.tiles[x + y * self.size.x].clone()
                } else {
                    air_tile()
                };
                tiles.push(t);
                x += 1;
            }
            proof {
                assert(y * size.x + size.x == (y + 1) * size.x) by (nonlinear_arith);
            }
            y += 1;
        }
        proof {
            assert(size.y * size.x == size.x * size.y) by (nonlinear_arith);
            assert(tiles@.map_values(|t: Tile| t@) =~= self@.resized(size).tiles);
        }
        tiles
    }

    /// Cuts or pads the map with air to `size`, keeping the bottom-left corner,
    /// and chooses the tile images anew.
    pub fn change_size(&mut self, size: UVec2, assets: &Assets)
        requires
            old(self).well_formed(),
            size.x * size.y <= usize::MAX,
            old(self)@.resized(size).shapable(*assets),
        ensures
            final(self)@ == old(self)@.resized(size),
            final(self).well_formed(),
            final(self).spec_geometry() is Some,
            final(self)@.geometry_fits(*assets, final(self).spec_geometry().unwrap()),
    {
        let tiles = self.resized_tiles(size);
        self.size = size;
        self.tiles = tiles;
        self.update_geometry(assets);
    }

    /// The tiles of the map moved by `delta` cells.
    fn translated_tiles(&self, delta: IVec2) -> (tiles: Vec<Tile>)
        requires
            self.well_formed(),
            self.size.x <= isize::MAX,
            self.size.y <= isize::MAX,
            fits_isize(self.size.x - delta.x),
            fits_isize(self.size.y - delta.y),
            fits_isize(-delta.x),
            fits_isize(-delta.y),
        ensures
            tiles@.map_values(|t: Tile| t@) == self@.translated(delta).tiles,
    {
        let w = self.size.x;
        let h = self.size.y;
        let mut tiles: Vec<Tile> = Vec::new();
        let mut y: usize = 0;
        while y < h
            invariant
                self.well_formed(),
                w == self.size.x,
                h == self.size.y,
                w <= isize::MAX,
                h <= isize::MAX,
                fits_isize(w - delta.x),
                fits_isize(h - delta.y),
                fits_isize(-delta.x),
                fits_isize(-delta.y),
                y <= h,
                tiles@.len() == y * w,
                forall|j: int| 0 <= j < tiles@.len() ==> #[trigger] tiles@[j]@ == self@.translated(delta).tiles[j],
            decreases h - y,
        {
            let mut x: usize = 0;
            while x < w
                invariant
                    self.well_formed(),
                    w == self.size.x,
                    h == self.size.y,
                    w <= isize::MAX,
                    h <= isize::MAX,
                    fits_isize(w - delta.x),
                    fits_isize(h - delta.y),
                    fits_isize(-delta.x),
                    fits_isize(-delta.y),
                    y < h,
                    x <= w,
                    tiles@.len() == y * w + x,
                    forall|j: int| 0 <= j < tiles@.len() ==> #[trigger] tiles@[j]@ == self@.translated(delta).tiles[j],
                decreases w - x,
            {
                let ghost j = (y * w + x) as int;
                proof {
                    lemma_cell_index(x as int, y as int, w as int, h as int);
                    vstd::arithmetic::div_mod::lemma_fundamental_div_mod_converse(j, w as int, y as int, x as int);
                }
                let sx = x as isize - delta.x;
                let sy = y as isize - delta.y;
                let t = match self.get_tile_isize(IVec2 { x: sx, y: sy }) {
                    Some(t) => t.clone(),
                    None => air_tile(),
                };
                tiles.push(t);
                x += 1;
            }
            proof {
                assert(y * w + w == (y + 1) * w) by (nonlinear_arith);
            }
            y += 1;
        }
        proof {
            assert(h * w == w * h) by (nonlinear_arith);
            assert(tiles@.map_values(|t: Tile| t@) =~= self@.translated(delta).tiles);
        }
        tiles
    }

    /// Moves the tiles by `delta` cells and chooses the tile images anew.
    pub fn translate(&mut self, delta: IVec2, assets: &Assets)
        requires
            old(self).well_formed(),
            old(self).size.x <= isize::MAX,
            old(self).size.y <= isize::MAX,
            fits_isize(old(self).size.x - delta.x),
            fits_isize(old(self).size.y - delta.y),
            fits_isize(-delta.x),
            fits_isize(-delta.y),
            old(self)@.translated(delta).shapable(*assets),
        ensures
            final(self)@ == old(self)@.translated(delta),
            final(self).well_formed(),
            final(self).spec_geometry() is Some,
            final(self)@.geometry_fits(*assets, final(self).spec_geometry().unwrap()),
    {
        let tiles = self.translated_tiles(delta);
        self.tiles = tiles;
        self.update_geometry(assets);
    }
}

/// A uniformly random index below `n`, by `rand::random_range(0..n)`.
/// The contract states only that the index is below `n`: which one comes
/// out rests on chance.
#[verifier::external_body]
pub(crate) fn random_index(n: usize) -> (i: usize)
    requires
        n > 0,
    ensures
        i < n,
{
    rand::random_range(0..n)
}

fn connection(rules: &Rules, n: Option<&Tile>, center: &Tile) -> (c: Connection)
    requires
        connection_known(
            *rules,
            match n {
                Some(t) => Some(t@),
                None => None,
            },
            center@,
        ),
    ensures
        c == spec_connection(
            *rules,
            match n {
                Some(t) => Some(t@),
                None => None,
            },
            center@,
        ),
{
    match n {
        None => Connection::Same,
        Some(t) => {
            if is_air(t) {
                Connection::Empty
            } else if *t == *center || rules.tile(t).layer > rules.tile(center).layer {
                Connection::Same
            } else {
                Connection::Other
            }
        },
    }
}

/// The cell coordinates of an index are no larger than the index.
pub proof fn lemma_pos_small(index: int, w: int)
    requires
        index >= 0,
        w > 0,
    ensures
        0 <= index % w <= index,
        0 <= index / w <= index,
        index % w < w,
{
    vstd::arithmetic::div_mod::lemma_fundamental_div_mod(index, w);
    vstd::arithmetic::div_mod::lemma_div_is_ordered_by_denominator(index, 1, w);
    vstd::arithmetic::div_mod::lemma_mod_bound(index, w);
    assert(w * (index / w) >= 0) by (nonlinear_arith)
        requires
            w > 0,
            index / w >= 0,
    ;
}

/// The cell `(x, y)` of a `w` by `h` map lies inside its tile list.
pub proof fn lemma_cell_index(x: int, y: int, w: int, h: int)
    requires
        0 <= x < w,
        0 <= y < h,
    ensures
        0 <= x + y * w < w * h,
{
    assert(x + y * w < w * h) by (nonlinear_arith)
        requires
            0 <= x < w,
            0 <= y < h,
    ;
    assert(0 <= y * w) by (nonlinear_arith)
        requires
            0 <= y,
            0 <= x < w,
    ;
}

/// The normal at one corner of a cell, before it is scaled to unit length:
/// `x_air`, `d_air` and `y_air` say whether the neighbours beside the corner along
/// x, across it diagonally and along y are air, and `n` points out of the corner.
/// Each axis counts one where its neighbour is air; a solid diagonal between
/// neighbours of which one is air takes that one's count off the other axis, and an
/// inner corner (air diagonally, solid on both sides) points along `n` on both.
pub open spec fn corner_normal(x_air: bool, d_air: bool, y_air: bool, n: IVec2) -> IVec2 {
    let x: int = if x_air { 1 } else { 0 };
    let y: int = if y_air { 1 } else { 0 };
    let ox: int = if !d_air && x != y { -y } else if d_air && x == y && x == 0 { 1 } else { 0 };
    let oy: int = if !d_air && x != y { -x } else if d_air && x == y && x == 0 { 1 } else { 0 };
    IVec2 { x: ((x + ox) * n.x) as isize, y: ((y + oy) * n.y) as isize }
}

fn corner_normal_exec(x_air: bool, d_air: bool, y_air: bool, n: IVec2) -> (r: IVec2)
    requires
        -1 <= n.x <= 1,
        -1 <= n.y <= 1,
    ensures
        r == corner_normal(x_air, d_air, y_air, n),
{
    let x: isize = if x_air { 1 } else { 0 };
    let y: isize = if y_air { 1 } else { 0 };
    let ox: isize = if !d_air && x != y { -y } else if d_air && x == y && x == 0 { 1 } else { 0 };
    let oy: isize = if !d_air && x != y { -x } else if d_air && x == y && x == 0 { 1 } else { 0 };
    let sx: isize = x + ox;
    let sy: isize = y + oy;
    assert(-2 <= sx * n.x <= 2) by (nonlinear_arith)
        requires
            -1 <= sx <= 2,
            -1 <= n.x <= 1,
    ;
    assert(-2 <= sy * n.y <= 2) by (nonlinear_arith)
        requires
            -1 <= sy <= 2,
            -1 <= n.y <= 1,
    ;
    IVec2 { x: sx * n.x, y: sy * n.y }
}

impl TileMapView {
    /// Whether neighbour `k` (see `neighbour_delta`) of cell `index` is air.
    pub open spec fn air_at(self, index: int, rules: Rules, k: int) -> bool {
        self.connection(index, None, rules, k) is Empty
    }

    /// The normals at the four corners of cell `index`, bottom-left first and
    /// then counter-clockwise, before they are scaled to unit length.
    pub open spec fn tile_normals(self, index: int, rules: Rules) -> [IVec2; 4] {
        [
            corner_normal(self.air_at(index, rules, 7), self.air_at(index, rules, 0), self.air_at(index, rules, 1), IVec2 { x: -1isize, y: -1isize }),
            corner_normal(self.air_at(index, rules, 3), self.air_at(index, rules, 2), self.air_at(index, rules, 1), IVec2 { x: 1, y: -1isize }),
            corner_normal(self.air_at(index, rules, 3), self.air_at(index, rules, 4), self.air_at(index, rules, 5), IVec2 { x: 1, y: 1 }),
            corner_normal(self.air_at(index, rules, 7), self.air_at(index, rules, 6), self.air_at(index, rules, 5), IVec2 { x: -1isize, y: 1 }),
        ]
    }
}

impl TileMap {
    /// The directions of the normals at the four corners of cell `tile`, by which
    /// the lighting shades it; scaling them to unit length is float work left to
    /// the renderer (a zero direction stays zero).
    pub fn get_tile_normals(&self, tile: usize, rules: &Rules) -> (r: [IVec2; 4])
        requires
            self@.connections_ok(tile as int, None, *rules),
        ensures
            r == self@.tile_normals(tile as int, *rules),
    {
        let c = self.get_tile_connections(tile, None, rules);
        let air = [
            matches!(c[0], Connection::Empty),
            matches!(c[1], Connection::Empty),
            matches!(c[2], Connection::Empty),
            matches!(c[3], Connection::Empty),
            matches!(c[4], Connection::Empty),
            matches!(c[5], Connection::Empty),
            matches!(c[6], Connection::Empty),
            matches!(c[7], Connection::Empty),
        ];
        [
            corner_normal_exec(air[7], air[0], air[1], IVec2 { x: -1isize, y: -1isize }),
            corner_normal_exec(air[3], air[2], air[1], IVec2 { x: 1, y: -1isize }),
            corner_normal_exec(air[3], air[4], air[5], IVec2 { x: 1, y: 1 }),
            corner_normal_exec(air[7], air[6], air[5], IVec2 { x: -1isize, y: 1 }),
        ]
    }
}

} // verus!
