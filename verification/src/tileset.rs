//! Tile sets: which tile images fit which neighbourhoods, and how a tile set
//! configuration is read off a template image.
use vstd::prelude::*;
use crate::geom::{Coord, UVec2, Vec2, COORD_ONE};

verus! {

/// Texture coordinates of the four corners of a tile, counter-clockwise from
/// the bottom-left one; `COORD_ONE` spans the whole texture.
pub type UvRect = [Vec2; 4];

/// How a tile relates to one of its neighbours.
#[derive(Clone, Copy, Debug, PartialEq, Eq, Structural)]
pub enum Connection {
    /// No tile (air) there.
    Empty,
    /// A tile that joins this one.
    Same,
    /// A tile that does not join this one.
    Other,
}

/// A constraint on one neighbour, as drawn in a tile set template.
#[derive(Clone, Copy, Debug, PartialEq, Eq, Structural)]
pub enum ConnectionFilter {
    /// Anything but air.
    Filled,
    /// Only air.
    Empty,
    /// Anything.
    Any,
    /// Only a joining tile.
    Same,
    /// Anything but a joining tile.
    Other,
}

/// A tile set configuration: the tiles of a tile set, each with the
/// neighbourhood it is drawn for and its place in the texture.
#[derive(Clone, Debug)]
pub struct TileSetConfig {
    pub size: UVec2,
    pub tiles: Vec<([ConnectionFilter; 8], UvRect)>,
}

/// A tile set. The texture itself belongs to the renderer; the library keeps
/// what decides which tile goes where.
#[derive(Clone, Debug)]
pub struct TileSet {
    pub config: TileSetConfig,
}

/// An RGBA image, row by row from the top, four bytes per pixel.
#[derive(Clone, Debug)]
pub struct Image {
    pub width: u32,
    pub height: u32,
    pub pixels: Vec<[u8; 4]>,
}

impl ConnectionFilter {
    pub open spec fn spec_matches(self, c: Connection) -> bool {
        match self {
            ConnectionFilter::Filled => c != Connection::Empty,
            ConnectionFilter::Empty => c == Connection::Empty,
            ConnectionFilter::Any => true,
            ConnectionFilter::Same => c == Connection::Same,
            ConnectionFilter::Other => c != Connection::Same,
        }
    }

    /// The color code of a template pixel: a transparent pixel is no filter;
    /// magenta, white, green, blue and red stand for `Filled`, `Empty`, `Any`,
    /// `Same` and `Other`.
    pub open spec fn spec_from_color(color: [u8; 4]) -> Option<ConnectionFilter> {
        if color[3] == 0 {
            None
        } else if color[0] == 255 && color[1] == 0 && color[2] == 255 {
            Some(ConnectionFilter::Filled)
        } else if color[0] == 255 && color[1] == 255 && color[2] == 255 {
            Some(ConnectionFilter::Empty)
        } else if color[0] == 0 && color[1] == 255 && color[2] == 0 {
            Some(ConnectionFilter::Any)
        } else if color[0] == 0 && color[1] == 0 && color[2] == 255 {
            Some(ConnectionFilter::Same)
        } else if color[0] == 255 && color[1] == 0 && color[2] == 0 {
            Some(ConnectionFilter::Other)
        } else {
            None
        }
    }

    /// Whether a pixel is transparent or one of the five filter colors.
    pub open spec fn known_color(color: [u8; 4]) -> bool {
        color[3] == 0 || Self::spec_from_color(color) is Some
    }

    pub fn from_color(color: [u8; 4]) -> (f: Option<ConnectionFilter>)
        requires
            Self::known_color(color),
        ensures
            f == Self::spec_from_color(color),
    {
        if color[3] == 0 {
            None
        } else if color[0] == 255 && color[1] == 0 && color[2] == 255 {
            Some(ConnectionFilter::Filled)
        } else if color[0] == 255 && color[1] == 255 && color[2] == 255 {
            Some(ConnectionFilter::Empty)
        } else if color[0] == 0 && color[1] == 255 && color[2] == 0 {
            Some(ConnectionFilter::Any)
        } else if color[0] == 0 && color[1] == 0 && color[2] == 255 {
            Some(ConnectionFilter::Same)
        } else {
            Some(ConnectionFilter::Other)
        }
    }

    pub fn matches(&self, connection: Connection) -> (b: bool)
        ensures
            b == self.spec_matches(connection),
    {
        match self {
            ConnectionFilter::Filled => !matches!(connection, Connection::Empty),
            ConnectionFilter::Empty => matches!(connection, Connection::Empty),
            ConnectionFilter::Any => true,
            ConnectionFilter::Same => matches!(connection, Connection::Same),
            ConnectionFilter::Other => !matches!(connection, Connection::Same),
        }
    }
}

/// Whether every neighbour satisfies its filter.
pub open spec fn pattern_matches(pattern: [ConnectionFilter; 8], connections: [Connection; 8]) -> bool {
    forall|k: int| 0 <= k < 8 ==> #[trigger] pattern[k].spec_matches(connections[k])
}

/// `res` lists, in increasing order, exactly the indices below `n` that satisfy `p`.
pub open spec fn lists_exactly(res: Seq<usize>, n: int, p: spec_fn(int) -> bool) -> bool {
    &&& forall|j: int| 0 <= j < res.len() ==> 0 <= #[trigger] res[j] < n && p(res[j] as int)
    &&& forall|j: int, k: int| 0 <= j < k < res.len() ==> res[j] < res[k]
    &&& forall|i: int| 0 <= i < n && #[trigger] p(i) ==> res.contains(i as usize)
}

impl TileSet {
    /// The indices of the tiles drawn for a matching neighbourhood.
    pub open spec fn spec_fits(self, connections: [Connection; 8]) -> spec_fn(int) -> bool {
        |i: int| pattern_matches(self.config.tiles@[i].0, connections)
    }

    pub fn get_tile_geometry(&self, index: usize) -> (uv: UvRect)
        requires
            index < self.config.tiles@.len(),
        ensures
            uv == self.config.tiles@[index as int].1,
    {
        self.config.tiles[index].1
    }

    /// The indices, in increasing order, of all tiles whose neighbourhood
    /// pattern matches `connections`.
    pub fn get_tile_connected(&self, connections: [Connection; 8]) -> (res: Vec<usize>)
        ensures
            lists_exactly(res@, self.config.tiles@.len() as int, self.spec_fits(connections)),
    {
        let mut res: Vec<usize> = Vec::new();
        let n = self.config.tiles.len();
        let mut i: usize = 0;
        while i < n
            invariant
                n == self.config.tiles@.len(),
                i <= n,
                lists_exactly(res@, i as int, self.spec_fits(connections)),
                forall|j: int| 0 <= j < res@.len() ==> res@[j] < i,
            decreases n - i,
        {
            let pattern = &self.config.tiles[i].0;
            let mut all = true;
            let mut k: usize = 0;
            while k < 8
                invariant
                    k <= 8,
                    i < self.config.tiles@.len(),
                    *pattern == self.config.tiles@[i as int].0,
                    all == (forall|m: int| 0 <= m < k ==> #[trigger] pattern[m].spec_matches(connections[m])),
                decreases 8 - k,
            {
                let ok = pattern[k].matches(connections[k]);
                all = all && ok;
                k += 1;
            }
            proof {
                assert(all == pattern_matches(*pattern, connections));
            }
            let ghost old_res = res@;
            if all {
                res.push(i);
            }
            proof {
                let p = self.spec_fits(connections);
                assert(p(i as int) == all);
                assert forall|m: int| 0 <= m < (i + 1) && #[trigger] p(m) implies res@.contains(m as usize) by {
                    if m < i {
                        assert(old_res.contains(m as usize));
                        let j = choose|j: int| 0 <= j < old_res.len() && old_res[j] == m as usize;
                        assert(res@[j] == m as usize);
                    } else {
                        assert(res@[res@.len() - 1] == i);
                    }
                }
            }
            i += 1;
        }
        res
    }
}

/// The texture coordinates of the tile at `pos` of a tile set laid out as a
/// `set_size` grid, rounded down to whole coordinate units.
pub open spec fn spec_tile_uv_xy(pos: UVec2, set_size: UVec2) -> UvRect {
    [
        Vec2 { x: (pos.x * COORD_ONE / set_size.x as int) as i64, y: (pos.y * COORD_ONE / set_size.y as int) as i64 },
        Vec2 { x: ((pos.x + 1) * COORD_ONE / set_size.x as int) as i64, y: (pos.y * COORD_ONE / set_size.y as int) as i64 },
        Vec2 { x: ((pos.x + 1) * COORD_ONE / set_size.x as int) as i64, y: ((pos.y + 1) * COORD_ONE / set_size.y as int) as i64 },
        Vec2 { x: (pos.x * COORD_ONE / set_size.x as int) as i64, y: ((pos.y + 1) * COORD_ONE / set_size.y as int) as i64 },
    ]
}

/// Positions small enough for `get_tile_uv_xy`.
pub open spec fn uv_fits(pos: UVec2, set_size: UVec2) -> bool {
    &&& set_size.x > 0
    &&& set_size.y > 0
    &&& pos.x < 0x7fff_ffff
    &&& pos.y < 0x7fff_ffff
}

fn uv_coord(p: usize, n: usize) -> (c: Coord)
    requires
        n > 0,
        p <= 0x8000_0000,
    ensures
        c == p * COORD_ONE / n as int,
{
    let p64 = p as u64;
    let n64 = n as u64;
    proof {
        assert(p64 * 16000 <= 0x8000_0000 * 16000);
        vstd::arithmetic::div_mod::lemma_div_is_ordered_by_denominator((p64 * 16000) as int, 1, n64 as int);
    }
    let q = (p64 * 16000) / n64;
    q as i64
}

/// The texture coordinates of the tile at `pos` of a `set_size` tile set.
pub fn get_tile_uv_xy(pos: UVec2, set_size: UVec2) -> (uv: UvRect)
    requires
        uv_fits(pos, set_size),
    ensures
        uv == spec_tile_uv_xy(pos, set_size),
{
    let x0 = uv_coord(pos.x, set_size.x);
    let x1 = uv_coord(pos.x + 1, set_size.x);
    let y0 = uv_coord(pos.y, set_size.y);
    let y1 = uv_coord(pos.y + 1, set_size.y);
    let uv = [Vec2 { x: x0, y: y0 }, Vec2 { x: x1, y: y0 }, Vec2 { x: x1, y: y1 }, Vec2 { x: x0, y: y1 }];
    assert(uv@ =~= spec_tile_uv_xy(pos, set_size)@);
    uv
}

/// The texture coordinates of the tile with the given row-major index.
pub fn get_tile_uv(index: usize, set_size: UVec2) -> (uv: UvRect)
    requires
        set_size.x > 0,
        set_size.y > 0,
        index % set_size.x < 0x7fff_ffff,
        index / set_size.x < 0x7fff_ffff,
    ensures
        uv == spec_tile_uv_xy(
            UVec2 { x: index % set_size.x, y: index / set_size.x },
            set_size,
        ),
{
    let pos = UVec2 { x: index % set_size.x, y: index / set_size.x };
    get_tile_uv_xy(pos, set_size)
}

/// The corners, edge middles and sides of a tile that a template samples,
/// in the order of the neighbours: counter-clockwise from the bottom-left.
pub open spec fn sample_step(k: int) -> (int, int) {
    if k == 0 { (0, 0) }
    else if k == 1 { (1, 0) }
    else if k == 2 { (2, 0) }
    else if k == 3 { (2, 1) }
    else if k == 4 { (2, 2) }
    else if k == 5 { (1, 2) }
    else if k == 6 { (0, 2) }
    else { (0, 1) }
}

impl Image {
    pub open spec fn well_formed(self) -> bool {
        self.pixels@.len() == self.width * self.height
    }

    /// The pixel at `(x, y)`, counting `y` from the bottom row.
    pub open spec fn pixel_from_bottom(self, x: int, y: int) -> [u8; 4] {
        self.pixels@[(self.height - y - 1) * self.width + x]
    }
}

/// The size in pixels of one tile of a template cut into `size` tiles.
pub open spec fn tile_px(img: Image, size: UVec2) -> (int, int) {
    (img.width as int / size.x as int, img.height as int / size.y as int)
}

/// The pixel that the template uses for neighbour `k` of the tile at `(x, y)`.
pub open spec fn sample_at(img: Image, size: UVec2, x: int, y: int, k: int) -> (int, int) {
    let (tx, ty) = tile_px(img, size);
    let (sx, sy) = sample_step(k);
    (x * tx + sx * (tx - 1) / 2, y * ty + sy * (ty - 1) / 2)
}

pub open spec fn cell_filter(img: Image, size: UVec2, x: int, y: int, k: int) -> Option<ConnectionFilter> {
    let (px, py) = sample_at(img, size, x, y, k);
    ConnectionFilter::spec_from_color(img.pixel_from_bottom(px, py))
}

/// The neighbourhood pattern drawn for the tile at `(x, y)`, if none of its
/// samples is transparent.
pub open spec fn cell_pattern(img: Image, size: UVec2, x: int, y: int) -> Option<[ConnectionFilter; 8]> {
    if forall|k: int| 0 <= k < 8 ==> #[trigger] cell_filter(img, size, x, y, k) is Some {
        Some([
            cell_filter(img, size, x, y, 0).unwrap(),
            cell_filter(img, size, x, y, 1).unwrap(),
            cell_filter(img, size, x, y, 2).unwrap(),
            cell_filter(img, size, x, y, 3).unwrap(),
            cell_filter(img, size, x, y, 4).unwrap(),
            cell_filter(img, size, x, y, 5).unwrap(),
            cell_filter(img, size, x, y, 6).unwrap(),
            cell_filter(img, size, x, y, 7).unwrap(),
        ])
    } else {
        None
    }
}

/// The tiles read from the first `n` cells of the template, row by row from the bottom.
pub open spec fn template_tiles(img: Image, size: UVec2, n: nat) -> Seq<([ConnectionFilter; 8], UvRect)>
    decreases n,
{
    if n == 0 {
        Seq::empty()
    } else {
        let c = (n - 1) as int;
        let x = c % size.x as int;
        let y = c / size.x as int;
        let prev = template_tiles(img, size, (n - 1) as nat);
        match cell_pattern(img, size, x, y) {
            Some(pattern) => prev.push((pattern, spec_tile_uv_xy(UVec2 { x: x as usize, y: y as usize }, size))),
            None => prev,
        }
    }
}

/// What `generate_from` needs of its template: a whole number of pixels per tile,
/// at least one, and only known colors where it samples.
pub open spec fn template_ok(img: Image, size: UVec2) -> bool {
    &&& img.well_formed()
    &&& 0 < size.x <= img.width
    &&& 0 < size.y <= img.height
    &&& size.x < 0x7fff_ffff
    &&& size.y < 0x7fff_ffff
    &&& img.width <= 0x7fff_ffff
    &&& img.height <= 0x7fff_ffff
    &&& forall|x: int, y: int, k: int|
        0 <= x < size.x && 0 <= y < size.y && 0 <= k < 8 ==> {
            let (px, py) = #[trigger] sample_at(img, size, x, y, k);
            ConnectionFilter::known_color(img.pixel_from_bottom(px, py))
        }
}

proof fn lemma_sample_in_image(img: Image, size: UVec2, x: int, y: int, k: int)
    requires
        0 < size.x <= img.width,
        0 < size.y <= img.height,
        0 <= x < size.x,
        0 <= y < size.y,
        0 <= k < 8,
    ensures
        ({
            let (px, py) = sample_at(img, size, x, y, k);
            &&& 0 <= px < img.width
            &&& 0 <= py < img.height
            &&& px <= x * tile_px(img, size).0 + tile_px(img, size).0 - 1
        }),
{
    let (tx, ty) = tile_px(img, size);
    let (sx, sy) = sample_step(k);
    vstd::arithmetic::div_mod::lemma_fundamental_div_mod(img.width as int, size.x as int);
    vstd::arithmetic::div_mod::lemma_fundamental_div_mod(img.height as int, size.y as int);
    assert(tx >= 1) by {
        vstd::arithmetic::div_mod::lemma_div_is_ordered(size.x as int, img.width as int, size.x as int);
        vstd::arithmetic::div_mod::lemma_div_by_self(size.x as int);
    }
    assert(ty >= 1) by {
        vstd::arithmetic::div_mod::lemma_div_is_ordered(size.y as int, img.height as int, size.y as int);
        vstd::arithmetic::div_mod::lemma_div_by_self(size.y as int);
    }
    assert(0 <= sx * (tx - 1) / 2 <= tx - 1) by {
        assert(0 <= sx <= 2);
        assert(0 <= sx * (tx - 1) <= 2 * (tx - 1)) by (nonlinear_arith)
            requires
                0 <= sx <= 2,
                tx >= 1,
        ;
    }
    assert(0 <= sy * (ty - 1) / 2 <= ty - 1) by {
        assert(0 <= sy <= 2);
        assert(0 <= sy * (ty - 1) <= 2 * (ty - 1)) by (nonlinear_arith)
            requires
                0 <= sy <= 2,
                ty >= 1,
        ;
    }
    assert(x * tx + tx <= size.x * tx) by (nonlinear_arith)
        requires
            x + 1 <= size.x,
            tx >= 1,
    ;
    assert(y * ty + ty <= size.y * ty) by (nonlinear_arith)
        requires
            y + 1 <= size.y,
            ty >= 1,
    ;
    assert(size.x * tx <= img.width);
    assert(size.y * ty <= img.height);
    assert(0 <= x * tx) by (nonlinear_arith)
        requires
            x >= 0,
            tx >= 1,
    ;
    assert(0 <= y * ty) by (nonlinear_arith)
        requires
            y >= 0,
            ty >= 1,
    ;
}

fn sample(img: &Image, px: u32, py: u32) -> (f: Option<ConnectionFilter>)
    requires
        img.well_formed(),
        px < img.width,
        py < img.height,
        ConnectionFilter::known_color(img.pixel_from_bottom(px as int, py as int)),
    ensures
        f == ConnectionFilter::spec_from_color(img.pixel_from_bottom(px as int, py as int)),
{
    let row = (img.height - py - 1) as usize;
    let len = img.pixels.len();
    proof {
        assert(row * img.width + px < img.width * img.height) by (nonlinear_arith)
            requires
                row < img.height,
                px < img.width,
        ;
    }
    let i = row * (img.width as usize) + px as usize;
    ConnectionFilter::from_color(img.pixels[i])
}

impl TileSetConfig {
    /// Reads a tile set configuration off a template image cut into `size` tiles:
    /// each tile marks, with colored pixels at its corners and edge middles, the
    /// neighbourhood it is drawn for. Tiles with a transparent mark are left out.
    pub fn generate_from(texture: &Image, size: UVec2) -> (config: TileSetConfig)
        requires
            template_ok(*texture, size),
        ensures
            config.size == size,
            config.tiles@ == template_tiles(*texture, size, (size.x * size.y) as nat),
    {
        let sx = size.x as u32;
        let sy = size.y as u32;
        let tx = texture.width / sx;
        let ty = texture.height / sy;
        let mut tiles: Vec<([ConnectionFilter; 8], UvRect)> = Vec::new();
        let mut y: u32 = 0;
        while y < sy
            invariant
                template_ok(*texture, size),
                sx == size.x,
                sy == size.y,
                tx == tile_px(*texture, size).0,
                ty == tile_px(*texture, size).1,
                y <= sy,
                tiles@ == template_tiles(*texture, size, (y * size.x) as nat),
            decreases sy - y,
        {
            let mut x: u32 = 0;
            while x < sx
                invariant
                    template_ok(*texture, size),
                    sx == size.x,
                    sy == size.y,
                    tx == tile_px(*texture, size).0,
                    ty == tile_px(*texture, size).1,
                    y < sy,
                    x <= sx,
                    tiles@ == template_tiles(*texture, size, (y * size.x + x) as nat),
                decreases sx - x,
            {
                let f0 = self::sample_k(texture, size, x, y, tx, ty, 0);
                let f1 = self::sample_k(texture, size, x, y, tx, ty, 1);
                let f2 = self::sample_k(texture, size, x, y, tx, ty, 2);
                let f3 = self::sample_k(texture, size, x, y, tx, ty, 3);
                let f4 = self::sample_k(texture, size, x, y, tx, ty, 4);
                let f5 = self::sample_k(texture, size, x, y, tx, ty, 5);
                let f6 = self::sample_k(texture, size, x, y, tx, ty, 6);
                let f7 = self::sample_k(texture, size, x, y, tx, ty, 7);
                let ghost n: nat = (y * size.x + x) as nat;
                proof {
                    assert((n as int) % (size.x as int) == x && (n as int) / (size.x as int) == y) by {
                        vstd::arithmetic::div_mod::lemma_fundamental_div_mod_converse(n as int, size.x as int, y as int, x as int);
                    }
                    assert((n + 1) as nat - 1 == n);
                }
                match (f0, f1, f2, f3, f4, f5, f6, f7) {
                    (Some(c0), Some(c1), Some(c2), Some(c3), Some(c4), Some(c5), Some(c6), Some(c7)) => {
                        let uv = get_tile_uv_xy(UVec2 { x: x as usize, y: y as usize }, size);
                        proof {
                            assert(forall|k: int| 0 <= k < 8 ==> #[trigger] cell_filter(*texture, size, x as int, y as int, k) is Some) by {
                                assert(cell_filter(*texture, size, x as int, y as int, 0) is Some);
                                assert(cell_filter(*texture, size, x as int, y as int, 1) is Some);
                                assert(cell_filter(*texture, size, x as int, y as int, 2) is Some);
                                assert(cell_filter(*texture, size, x as int, y as int, 3) is Some);
                                assert(cell_filter(*texture, size, x as int, y as int, 4) is Some);
                                assert(cell_filter(*texture, size, x as int, y as int, 5) is Some);
                                assert(cell_filter(*texture, size, x as int, y as int, 6) is Some);
                                assert(cell_filter(*texture, size, x as int, y as int, 7) is Some);
                            }
                        }
                        tiles.push(([c0, c1, c2, c3, c4, c5, c6, c7], uv));
                    },
                    _ => {
                        proof {
                            assert(!(forall|k: int| 0 <= k < 8 ==> #[trigger] cell_filter(*texture, size, x as int, y as int, k) is Some)) by {
                                if f0 is None { assert(cell_filter(*texture, size, x as int, y as int, 0) is None); }
                                else if f1 is None { assert(cell_filter(*texture, size, x as int, y as int, 1) is None); }
                                else if f2 is None { assert(cell_filter(*texture, size, x as int, y as int, 2) is None); }
                                else if f3 is None { assert(cell_filter(*texture, size, x as int, y as int, 3) is None); }
                                else if f4 is None { assert(cell_filter(*texture, size, x as int, y as int, 4) is None); }
                                else if f5 is None { assert(cell_filter(*texture, size, x as int, y as int, 5) is None); }
                                else if f6 is None { assert(cell_filter(*texture, size, x as int, y as int, 6) is None); }
                                else { assert(cell_filter(*texture, size, x as int, y as int, 7) is None); }
                            }
                        }
                    },
                }
                proof {
                    assert((y * size.x + x + 1) as nat == n + 1);
                }
                x += 1;
            }
            proof {
                assert((y * size.x + size.x) == (y + 1) * size.x) by (nonlinear_arith);
            }
            y += 1;
        }
        proof {
            assert(sy * size.x == size.x * size.y) by (nonlinear_arith)
                requires
                    sy == size.y,
            ;
        }
        TileSetConfig { size, tiles }
    }
}

/// The pixel that the template samples for neighbour `k` of the tile at `(x, y)`.
fn sample_pos(img: &Image, size: UVec2, x: u32, y: u32, tx: u32, ty: u32, k: u32) -> (p: (u32, u32))
    requires
        img.well_formed(),
        k < 8,
        x < size.x,
        y < size.y,
        0 < size.x <= img.width,
        0 < size.y <= img.height,
        img.width <= 0x7fff_ffff,
        img.height <= 0x7fff_ffff,
        tx == tile_px(*img, size).0,
        ty == tile_px(*img, size).1,
    ensures
        p.0 == sample_at(*img, size, x as int, y as int, k as int).0,
        p.1 == sample_at(*img, size, x as int, y as int, k as int).1,
        p.0 < img.width,
        p.1 < img.height,
{
    proof {
        lemma_sample_in_image(*img, size, x as int, y as int, k as int);
    }
    let (dx, dy): (u32, u32) = if k == 0 { (0, 0) }
        else if k == 1 { (1, 0) }
        else if k == 2 { (2, 0) }
        else if k == 3 { (2, 1) }
        else if k == 4 { (2, 2) }
        else if k == 5 { (1, 2) }
        else if k == 6 { (0, 2) }
        else { (0, 1) };
    proof {
        vstd::arithmetic::div_mod::lemma_fundamental_div_mod(img.width as int, size.x as int);
        vstd::arithmetic::div_mod::lemma_fundamental_div_mod(img.height as int, size.y as int);
        assert(size.x * tx <= img.width);
        assert(size.y * ty <= img.height);
        assert(x * tx + tx <= img.width) by (nonlinear_arith)
            requires
                x + 1 <= size.x,
                size.x * tx <= img.width,
        ;
        assert(y * ty + ty <= img.height) by (nonlinear_arith)
            requires
                y + 1 <= size.y,
                size.y * ty <= img.height,
        ;
        assert(tx <= img.width);
        assert(ty <= img.height);
        assert(tx >= 1) by {
            vstd::arithmetic::div_mod::lemma_div_is_ordered(size.x as int, img.width as int, size.x as int);
            vstd::arithmetic::div_mod::lemma_div_by_self(size.x as int);
        }
        assert(ty >= 1) by {
            vstd::arithmetic::div_mod::lemma_div_is_ordered(size.y as int, img.height as int, size.y as int);
            vstd::arithmetic::div_mod::lemma_div_by_self(size.y as int);
        }
    }
    assert(dx <= 2 && dy <= 2);
    assert(dx * (tx - 1) <= 2 * 0x7fff_ffff) by (nonlinear_arith)
        requires
            dx <= 2,
            1 <= tx <= 0x7fff_ffff,
    ;
    assert(dy * (ty - 1) <= 2 * 0x7fff_ffff) by (nonlinear_arith)
        requires
            dy <= 2,
            1 <= ty <= 0x7fff_ffff,
    ;
    let px = x * tx + dx * (tx - 1) / 2;
    let py = y * ty + dy * (ty - 1) / 2;
    (px, py)
}


/// Reads the filter for neighbour `k` of the tile at `(x, y)`.
fn sample_k(img: &Image, size: UVec2, x: u32, y: u32, tx: u32, ty: u32, k: u32) -> (f: Option<ConnectionFilter>)
    requires
        img.well_formed(),
        k < 8,
        x < size.x,
        y < size.y,
        0 < size.x <= img.width,
        0 < size.y <= img.height,
        img.width <= 0x7fff_ffff,
        img.height <= 0x7fff_ffff,
        tx == tile_px(*img, size).0,
        ty == tile_px(*img, size).1,
        ({
            let (px, py) = sample_at(*img, size, x as int, y as int, k as int);
            ConnectionFilter::known_color(img.pixel_from_bottom(px, py))
        }),
    ensures
        f == cell_filter(*img, size, x as int, y as int, k as int),
{
    let (px, py) = sample_pos(img, size, x, y, tx, ty, k);
    sample(img, px, py)
}

/// The pixel at `(px, py)`, counting `py` from the bottom row.
fn pixel_at(img: &Image, px: u32, py: u32) -> (c: [u8; 4])
    requires
        img.well_formed(),
        px < img.width,
        py < img.height,
    ensures
        c == img.pixel_from_bottom(px as int, py as int),
{
    let row = (img.height - py - 1) as usize;
    let len = img.pixels.len();
    proof {
        assert(row * img.width + px < img.width * img.height) by (nonlinear_arith)
            requires
                row < img.height,
                px < img.width,
        ;
    }
    let i = row * (img.width as usize) + px as usize;
    img.pixels[i]
}

impl ConnectionFilter {
    /// Whether `color` is transparent or one of the five filter colors.
    pub fn color_known(color: [u8; 4]) -> (b: bool)
        ensures
            b == Self::known_color(color),
    {
        color[3] == 0 || (color[0] == 255 && color[1] == 0 && color[2] == 255)
            || (color[0] == 255 && color[1] == 255 && color[2] == 255)
            || (color[0] == 0 && color[1] == 255 && color[2] == 0)
            || (color[0] == 0 && color[1] == 0 && color[2] == 255)
            || (color[0] == 255 && color[1] == 0 && color[2] == 0)
    }
}

/// Whether every sample of the tiles in the first `y` rows, and of the first `x`
/// tiles of row `y`, has a known color.
pub open spec fn samples_known(img: Image, size: UVec2, y: int, x: int) -> bool {
    forall|cx: int, cy: int, k: int|
        0 <= cx < size.x && 0 <= cy < size.y && 0 <= k < 8 && (cy < y || (cy == y && cx < x)) ==> {
            let (px, py) = #[trigger] sample_at(img, size, cx, cy, k);
            ConnectionFilter::known_color(img.pixel_from_bottom(px, py))
        }
}

/// Whether `texture` can be read as a template cut into `size` tiles, as
/// `generate_from` needs; see `template_ok`.
pub fn check_template(texture: &Image, size: UVec2) -> (b: bool)
    ensures
        b == template_ok(*texture, size),
{
    let n = texture.pixels.len();
    let w = texture.width as u64;
    let h = texture.height as u64;
    assert(w * h <= 0xffff_ffff * 0xffff_ffff) by (nonlinear_arith)
        requires
            w <= 0xffff_ffff,
            h <= 0xffff_ffff,
    ;
    if n as u64 != w * h {
        return false;
    }
    if size.x == 0 || size.y == 0 || size.x > texture.width as usize || size.y > texture.height as usize {
        return false;
    }
    if size.x >= 0x7fff_ffff || size.y >= 0x7fff_ffff || texture.width > 0x7fff_ffff || texture.height > 0x7fff_ffff {
        return false;
    }
    let sx = size.x as u32;
    let sy = size.y as u32;
    let tx = texture.width / sx;
    let ty = texture.height / sy;
    let mut y: u32 = 0;
    while y < sy
        invariant
            texture.well_formed(),
            0 < size.x <= texture.width,
            0 < size.y <= texture.height,
            size.x < 0x7fff_ffff,
            size.y < 0x7fff_ffff,
            texture.width <= 0x7fff_ffff,
            texture.height <= 0x7fff_ffff,
            sx == size.x,
            sy == size.y,
            tx == tile_px(*texture, size).0,
            ty == tile_px(*texture, size).1,
            y <= sy,
            samples_known(*texture, size, y as int, 0),
        decreases sy - y,
    {
        let mut x: u32 = 0;
        while x < sx
            invariant
                texture.well_formed(),
                0 < size.x <= texture.width,
                0 < size.y <= texture.height,
                size.x < 0x7fff_ffff,
                size.y < 0x7fff_ffff,
                texture.width <= 0x7fff_ffff,
                texture.height <= 0x7fff_ffff,
                sx == size.x,
                sy == size.y,
                tx == tile_px(*texture, size).0,
                ty == tile_px(*texture, size).1,
                y < sy,
                x <= sx,
                samples_known(*texture, size, y as int, x as int),
            decreases sx - x,
        {
            let mut k: u32 = 0;
            while k < 8
                invariant
                    texture.well_formed(),
                    0 < size.x <= texture.width,
                    0 < size.y <= texture.height,
                    texture.width <= 0x7fff_ffff,
                    texture.height <= 0x7fff_ffff,
                    tx == tile_px(*texture, size).0,
                    ty == tile_px(*texture, size).1,
                    y < size.y,
                    x < size.x,
                    k <= 8,
                    samples_known(*texture, size, y as int, x as int),
                    forall|j: int| 0 <= j < k ==> {
                        let (px, py) = #[trigger] sample_at(*texture, size, x as int, y as int, j);
                        ConnectionFilter::known_color(texture.pixel_from_bottom(px, py))
                    },
                decreases 8 - k,
            {
                let (px, py) = sample_pos(texture, size, x, y, tx, ty, k);
                let c = pixel_at(texture, px, py);
                if !ConnectionFilter::color_known(c) {
                    proof {
                        let _ = sample_at(*texture, size, x as int, y as int, k as int);
                    }
                    return false;
                }
                k += 1;
            }
            proof {
                assert forall|cx: int, cy: int, j: int|
                    0 <= cx < size.x && 0 <= cy < size.y && 0 <= j < 8 && (cy < y || (cy == y && cx < x + 1)) implies {
                        let (px, py) = #[trigger] sample_at(*texture, size, cx, cy, j);
                        ConnectionFilter::known_color(texture.pixel_from_bottom(px, py))
                    } by {
                    if cy == y && cx == x {
                    } else {
                        assert(samples_known(*texture, size, y as int, x as int));
                        let _ = sample_at(*texture, size, cx, cy, j);
                    }
                }
            }
            x += 1;
        }
        proof {
            assert forall|cx: int, cy: int, j: int|
                0 <= cx < size.x && 0 <= cy < size.y && 0 <= j < 8 && (cy < y + 1 || (cy == y + 1 && cx < 0)) implies {
                    let (px, py) = #[trigger] sample_at(*texture, size, cx, cy, j);
                    ConnectionFilter::known_color(texture.pixel_from_bottom(px, py))
                } by {
                assert(samples_known(*texture, size, y as int, x as int));
                let _ = sample_at(*texture, size, cx, cy, j);
            }
        }
        y += 1;
    }
    true
}

impl TileSetConfig {
    /// `generate_from`, where the texture is a template that can be read;
    /// nothing otherwise (a pixel of an unknown color where the template samples,
    /// or a size that does not cut the texture into tiles).
    pub fn try_generate_from(texture: &Image, size: UVec2) -> (r: Option<TileSetConfig>)
        ensures
            r is Some == template_ok(*texture, size),
            r matches Some(config) ==> {
                &&& config.size == size
                &&& config.tiles@ == template_tiles(*texture, size, (size.x * size.y) as nat)
            },
    {
        if check_template(texture, size) {
            Some(TileSetConfig::generate_from(texture, size))
        } else {
            None
        }
    }
}

} // verus!
