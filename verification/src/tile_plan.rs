//! Which tile images a map is drawn with: every tile with the image chosen for
//! its cell, and under it, for each neighbouring kind of tile on a lower layer, an
//! image of that kind cut by a mask so that the lower tile seems to run under it.
use vstd::prelude::*;
use crate::assets::Assets;
use crate::rules::{Rules, Tile};
use crate::tilemap::{air, is_air, TileMap, TileMapView};
use crate::tileset::{Connection, TileSet};

verus! {

/// One image to draw: the tile `tile` in cell `cell`, with the image `image` of
/// its tile set, cut by the image `mask` of the mask set if there is one.
#[derive(Debug)]
pub struct TileDraw {
    pub cell: usize,
    pub tile: Tile,
    pub image: usize,
    pub mask: Option<usize>,
}

/// A `TileDraw` with the tile as text.
pub struct TileDrawView {
    pub cell: usize,
    pub tile: Seq<char>,
    pub image: usize,
    pub mask: Option<usize>,
}

pub open spec fn dview(d: TileDraw) -> TileDrawView {
    TileDrawView { cell: d.cell, tile: d.tile@, image: d.image, mask: d.mask }
}

/// The least index below `n` that satisfies `p`.
pub open spec fn least(p: spec_fn(int) -> bool, n: int) -> Option<int>
    decreases n,
{
    if n <= 0 {
        None
    } else {
        match least(p, n - 1) {
            Some(i) => Some(i),
            None => if p(n - 1) { Some(n - 1) } else { None },
        }
    }
}

proof fn lemma_least(p: spec_fn(int) -> bool, n: int)
    ensures
        match least(p, n) {
            Some(i) => 0 <= i < n && p(i) && forall|j: int| 0 <= j < i ==> !#[trigger] p(j),
            None => forall|j: int| 0 <= j < n ==> !#[trigger] p(j),
        },
    decreases n,
{
    if n > 0 {
        lemma_least(p, n - 1);
    }
}

/// The first image of `set` that suits `conns`.
pub open spec fn first_image(set: TileSet, conns: [Connection; 8]) -> Option<int> {
    least(set.spec_fits(conns), set.config.tiles@.len() as int)
}

/// The kinds of tile among the first `k` neighbours of cell `i` that lie on a
/// lower layer than its tile `t`, each once, in the order of the neighbours.
pub open spec fn lower_neighbours(m: TileMapView, rules: Rules, i: int, t: Seq<char>, k: int) -> Seq<Seq<char>>
    decreases k,
{
    if k <= 0 {
        Seq::empty()
    } else {
        let prev = lower_neighbours(m, rules, i, t, k - 1);
        match m.neighbour(i, k - 1) {
            Some(n) => if n != air() && rules.spec_layer(n) < rules.spec_layer(t) && !prev.contains(n) {
                prev.push(n)
            } else {
                prev
            },
            None => prev,
        }
    }
}

/// The masked image of the lower kind `n` under cell `i`: the first image of its
/// set, and the first of the mask set, that suit cell `i` as if `n` stood there.
pub open spec fn masked_draw(m: TileMapView, assets: Assets, i: int, n: Seq<char>) -> TileDrawView {
    let conns = m.connections(i, Some(n), assets.rules);
    TileDrawView {
        cell: i as usize,
        tile: n,
        image: first_image(assets.sprites.tiles.spec_tile_set(n).unwrap(), conns).unwrap() as usize,
        mask: Some(first_image(assets.sprites.tiles.mask, conns).unwrap() as usize),
    }
}

/// What cell `i` is drawn with: nothing for air; else the masked images of its
/// lower neighbours, then its own image.
pub open spec fn cell_plan(m: TileMapView, geometry: Seq<usize>, assets: Assets, i: int) -> Seq<TileDrawView> {
    let t = m.tiles[i];
    if t == air() {
        Seq::empty()
    } else {
        lower_neighbours(m, assets.rules, i, t, 8).map_values(|n: Seq<char>| masked_draw(m, assets, i, n)).push(
            TileDrawView { cell: i as usize, tile: t, image: geometry[i], mask: None },
        )
    }
}

/// What the first `n` cells are drawn with, cell by cell.
pub open spec fn plan(m: TileMapView, geometry: Seq<usize>, assets: Assets, n: int) -> Seq<TileDrawView>
    decreases n,
{
    if n <= 0 {
        Seq::empty()
    } else {
        plan(m, geometry, assets, n - 1) + cell_plan(m, geometry, assets, n - 1)
    }
}

/// Whether a map can be drawn: its images are chosen, the rules know every tile
/// on it, and every lower neighbour of a tile has a tile set with an image, and
/// the mask set a mask, for the cell.
pub open spec fn plan_ok(map: TileMap, assets: Assets) -> bool {
    let m = map@;
    &&& m.well_formed()
    &&& m.size.x > 0
    &&& m.tiles.len() < isize::MAX
    &&& map.spec_geometry() is Some
    &&& map.spec_geometry().unwrap().len() == m.tiles.len()
    &&& forall|i: int| 0 <= i < m.tiles.len() ==> #[trigger] m.tiles[i] != air() ==> assets.rules.knows(m.tiles[i])
    &&& forall|i: int, j: int| 0 <= i < m.tiles.len() && m.tiles[i] != air()
        && 0 <= j < lower_neighbours(m, assets.rules, i, m.tiles[i], 8).len() ==> {
        let n = #[trigger] lower_neighbours(m, assets.rules, i, m.tiles[i], 8)[j];
        let conns = m.connections(i, Some(n), assets.rules);
        &&& assets.sprites.tiles.knows(n)
        &&& assets.rules.knows(n)
        &&& first_image(assets.sprites.tiles.spec_tile_set(n).unwrap(), conns) is Some
        &&& first_image(assets.sprites.tiles.mask, conns) is Some
    }
}

/// A neighbour that is not air is a cell of the map, so rules that know every
/// such cell know it.
proof fn lemma_neighbour_known(m: TileMapView, rules: Rules, i: int, k: int)
    requires
        m.well_formed(),
        forall|j: int| 0 <= j < m.tiles.len() ==> #[trigger] m.tiles[j] != air() ==> rules.knows(m.tiles[j]),
    ensures
        m.neighbour(i, k) matches Some(n) ==> (n != air() ==> rules.knows(n)),
{
    let (x, y) = m.index_pos(i);
    let d = crate::tilemap::neighbour_delta(k);
    if m.in_bounds(x + d.0, y + d.1) {
        crate::tilemap::lemma_cell_index(x + d.0, y + d.1, m.size.x as int, m.size.y as int);
        let j = (x + d.0) + (y + d.1) * m.size.x;
        assert(m.tiles[j] != air() ==> rules.knows(m.tiles[j]));
    }
}

/// The first index that `get_tile_connected` lists is the first image that suits.
proof fn lemma_first_listed(res: Seq<usize>, n: int, p: spec_fn(int) -> bool)
    requires
        crate::tileset::lists_exactly(res, n, p),
        least(p, n) is Some,
    ensures
        res.len() > 0,
        res[0] as int == least(p, n).unwrap(),
{
    lemma_least(p, n);
    let l = least(p, n).unwrap();
    assert(p(l));
    assert(res.contains(l as usize));
    let j = choose|j: int| 0 <= j < res.len() && res[j] == l as usize;
    if j > 0 {
        assert(res[0] < res[j]);
    }
    assert(p(res[0] as int));
}

fn first_listed(set: &TileSet, conns: [Connection; 8]) -> (r: usize)
    requires
        first_image(*set, conns) is Some,
    ensures
        r as int == first_image(*set, conns).unwrap(),
{
    let v = set.get_tile_connected(conns);
    proof {
        lemma_first_listed(v@, set.config.tiles@.len() as int, set.spec_fits(conns));
    }
    v[0]
}

fn contains_tile(v: &Vec<Tile>, t: &Tile) -> (b: bool)
    ensures
        b == strings_view(v@).contains(t@),
{
    let n = v.len();
    let mut i: usize = 0;
    while i < n
        invariant
            n == v@.len(),
            i <= n,
            forall|j: int| 0 <= j < i ==> v@[j]@ != t@,
        decreases n - i,
    {
        if v[i] == *t {
            assert(strings_view(v@)[i as int] == t@);
            return true;
        }
        i += 1;
    }
    assert forall|j: int| 0 <= j < strings_view(v@).len() implies strings_view(v@)[j] != t@ by {
        assert(strings_view(v@)[j] == v@[j]@);
    }
    false
}

pub open spec fn strings_view(v: Seq<String>) -> Seq<Seq<char>> {
    v.map_values(|s: String| s@)
}

impl TileMap {
    /// The kinds of tile next to cell `i` on a lower layer than its tile `t`.
    fn lower_kinds(&self, i: usize, t: &Tile, rules: &Rules) -> (r: Vec<Tile>)
        requires
            self@.well_formed(),
            self.size.x > 0,
            i < self@.tiles.len(),
            self@.tiles.len() < isize::MAX,
            t@ != air(),
            rules.knows(t@),
            forall|j: int| 0 <= j < self@.tiles.len() ==> #[trigger] self@.tiles[j] != air() ==> rules.knows(self@.tiles[j]),
        ensures
            strings_view(r@) == lower_neighbours(self@, *rules, i as int, t@, 8),
    {
        let ns = self.get_tile_neighbours(i);
        let mut r: Vec<Tile> = Vec::new();
        let layer = rules.tile(t).layer;
        let mut k: usize = 0;
        while k < 8
            invariant
                k <= 8,
                strings_view(r@) == lower_neighbours(self@, *rules, i as int, t@, k as int),
                layer == rules.spec_layer(t@),
                forall|q: int| 0 <= q < 8 ==> match #[trigger] ns[q] {
                    Some(x) => self@.neighbour(i as int, q) == Some(x@),
                    None => self@.neighbour(i as int, q) is None,
                },
                forall|j: int| 0 <= j < self@.tiles.len() ==> #[trigger] self@.tiles[j] != air() ==> rules.knows(self@.tiles[j]),
                self@.well_formed(),
                self.size.x > 0,
                i < self@.tiles.len(),
            decreases 8 - k,
        {
            match ns[k] {
                Some(n) => {
                    assert(self@.neighbour(i as int, k as int) == Some(n@));
                    if !is_air(n) {
                        proof {
                            lemma_neighbour_known(self@, *rules, i as int, k as int);
                        }
                        let lower = rules.tile(n).layer < layer;
                        if lower && !contains_tile(&r, n) {
                            r.push(n.clone());
                            assert(strings_view(r@) =~= strings_view(r@.drop_last()).push(n@));
                        }
                    }
                },
                None => {},
            }
            k += 1;
        }
        r
    }

    /// What the map is drawn with, cell by cell (see `cell_plan`).
    pub fn draw_plan(&self, assets: &Assets) -> (r: Vec<TileDraw>)
        requires
            plan_ok(*self, *assets),
        ensures
            r@.map_values(|d: TileDraw| dview(d)) == plan(self@, self.spec_geometry().unwrap(), *assets, self@.tiles.len() as int),
    {
        let ghost g = self.spec_geometry().unwrap();
        let n = self.tiles.len();
        let mut r: Vec<TileDraw> = Vec::new();
        let mut i: usize = 0;
        while i < n
            invariant
                n == self@.tiles.len(),
                i <= n,
                plan_ok(*self, *assets),
                g == self.spec_geometry().unwrap(),
                r@.map_values(|d: TileDraw| dview(d)) == plan(self@, g, *assets, i as int),
            decreases n - i,
        {
            let t = &self.tiles[i];
            assert(t@ == self@.tiles[i as int]);
            if !is_air(t) {
                let kinds = self.lower_kinds(i, t, &assets.rules);
                let ghost before = r@.map_values(|d: TileDraw| dview(d));
                let m = kinds.len();
                let mut j: usize = 0;
                while j < m
                    invariant
                        m == kinds@.len(),
                        j <= m,
                        i < n,
                        n == self@.tiles.len(),
                        t@ == self@.tiles[i as int],
                        t@ != air(),
                        plan_ok(*self, *assets),
                        strings_view(kinds@) == lower_neighbours(self@, assets.rules, i as int, t@, 8),
                        r@.map_values(|d: TileDraw| dview(d)) == before + strings_view(kinds@).take(j as int).map_values(
                            |k: Seq<char>| masked_draw(self@, *assets, i as int, k),
                        ),
                    decreases m - j,
                {
                    let kind = &kinds[j];
                    assert(strings_view(kinds@)[j as int] == kind@);
                    assert(lower_neighbours(self@, assets.rules, i as int, t@, 8)[j as int] == kind@);
                    proof {
                        assert forall|q: int| 0 <= q < 8 implies crate::tilemap::connection_known(assets.rules, #[trigger] self@.neighbour(i as int, q), kind@) by {
                            lemma_neighbour_known(self@, assets.rules, i as int, q);
                        }
                    }
                    let conns = self.get_tile_connections(i, Some(kind), &assets.rules);
                    let set = assets.sprites.tiles.get_tile_set(kind);
                    let image = first_listed(set, conns);
                    let mask = first_listed(&assets.sprites.tiles.mask, conns);
                    let ghost r_old = r@;
                    let d = TileDraw { cell: i, tile: kind.clone(), image, mask: Some(mask) };
                    assert(dview(d) == masked_draw(self@, *assets, i as int, kind@));
                    r.push(d);
                    proof {
                        let f = |k: Seq<char>| masked_draw(self@, *assets, i as int, k);
                        let ks = strings_view(kinds@);
                        assert(r@.map_values(|d: TileDraw| dview(d)) =~= r_old.map_values(|d: TileDraw| dview(d)).push(dview(d)));
                        assert(ks.take(j as int + 1) =~= ks.take(j as int).push(kind@));
                        assert(ks.take(j as int + 1).map_values(f) =~= ks.take(j as int).map_values(f).push(f(kind@)));
                        assert(r@.map_values(|d: TileDraw| dview(d)) =~= before + ks.take(j as int + 1).map_values(f));
                    }
                    j += 1;
                }
                assert(strings_view(kinds@).take(m as int) =~= strings_view(kinds@));
                let image = self.get_tile_index(i);
                let ghost r_old = r@;
                let d = TileDraw { cell: i, tile: t.clone(), image, mask: None };
                r.push(d);
                proof {
                    assert(r@.map_values(|d: TileDraw| dview(d)) =~= r_old.map_values(|d: TileDraw| dview(d)).push(dview(d)));
                    assert(cell_plan(self@, g, *assets, i as int) =~= strings_view(kinds@).map_values(
                        |k: Seq<char>| masked_draw(self@, *assets, i as int, k),
                    ).push(dview(d)));
                    assert(r@.map_values(|d: TileDraw| dview(d)) =~= plan(self@, g, *assets, i as int + 1));
                }
            } else {
                assert(plan(self@, g, *assets, i as int + 1) =~= plan(self@, g, *assets, i as int));
            }
            i += 1;
        }
        r
    }
}

} // verus!
