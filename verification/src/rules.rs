//! The game rules: movement constants and the properties of each kind of tile.
use vstd::prelude::*;
use crate::geom::{Coord, IVec2, Time, Vec2, COORD_ONE};

verus! {

/// The name of a kind of tile, such as `"air"` or `"stone"`.
pub type Tile = String;

/// The game rules. Speeds are in coordinate units per second, accelerations in
/// coordinate units per second squared, ratios in `COORD_ONE`ths.
#[derive(Clone, Debug)]
pub struct Rules {
    pub gravity: Vec2,
    pub move_speed: Coord,
    pub acceleration: Coord,
    pub deceleration: Coord,
    pub jump_buffer_time: Time,
    pub coyote_time: Time,
    pub edge_correction_max: Coord,
    pub free_fall_speed: Coord,
    pub wall_slide_speed: Coord,
    pub jump: JumpRules,
    pub drill: DrillRules,
    /// The rules of each kind of tile, each listed once (see `well_formed`).
    pub tiles: Vec<(Tile, TileRules)>,
}

#[derive(Clone, Copy, Debug, PartialEq, Eq, Structural)]
pub struct TileRules {
    pub drillable: bool,
    pub acceleration: Coord,
    pub deceleration: Coord,
    pub drill_bounciness: Coord,
    pub direction: Option<IVec2>,
    /// Tiles of a higher layer are drawn over (and join) tiles of a lower one.
    pub layer: i32,
}

#[derive(Clone, Copy, Debug, PartialEq, Eq, Structural)]
pub struct JumpRules {
    pub normal_push: Coord,
    pub normal_strength: Coord,
    pub wall_strength: Coord,
    pub wall_angle: Coord,
    pub wall_timeout: Time,
    pub fall_multiplier: Coord,
    pub low_multiplier: Coord,
}

#[derive(Clone, Copy, Debug, PartialEq, Eq, Structural)]
pub struct DrillRules {
    pub can_dash: bool,
    pub release_time: Time,
    pub speed_min: Coord,
    pub speed_inc: Coord,
    pub dash_time: Time,
    pub dash_speed_min: Coord,
    pub dash_speed_inc: Coord,
    pub jump_speed_min: Coord,
    pub jump_speed_inc: Coord,
}

impl TileRules {
    /// The rules of a tile that a rules file leaves unspecified: not drillable,
    /// acceleration 50, deceleration 30, bounciness 0.8, no direction, layer 0.
    pub fn default() -> (r: TileRules)
        ensures
            !r.drillable,
            r.acceleration == 50 * COORD_ONE,
            r.deceleration == 30 * COORD_ONE,
            r.drill_bounciness == 4 * COORD_ONE / 5,
            r.direction is None,
            r.layer == 0,
    {
        TileRules {
            drillable: false,
            acceleration: 50 * COORD_ONE,
            deceleration: 30 * COORD_ONE,
            drill_bounciness: 4 * COORD_ONE / 5,
            direction: None,
            layer: 0,
        }
    }
}

/// The position of the first entry named `t` among the first `n` entries.
pub open spec fn first_entry<V>(entries: Seq<(Tile, V)>, t: Seq<char>, n: int) -> Option<int>
    decreases n,
{
    if n <= 0 {
        None
    } else {
        match first_entry(entries, t, n - 1) {
            Some(i) => Some(i),
            None => if entries[n - 1].0@ == t { Some(n - 1) } else { None },
        }
    }
}

impl Rules {
    /// The rules of tile `t`, if the rules list it.
    pub open spec fn spec_tile(self, t: Seq<char>) -> Option<TileRules> {
        match first_entry(self.tiles@, t, self.tiles@.len() as int) {
            Some(i) => Some(self.tiles@[i].1),
            None => None,
        }
    }

    pub open spec fn knows(self, t: Seq<char>) -> bool {
        self.spec_tile(t) is Some
    }

    /// The layer of tile `t`.
    pub open spec fn spec_layer(self, t: Seq<char>) -> i32 {
        self.spec_tile(t).unwrap().layer
    }

    /// Whether the rules list `tile`.
    pub fn knows_tile(&self, tile: &Tile) -> (b: bool)
        ensures
            b == self.knows(tile@),
    {
        let n = self.tiles.len();
        let mut i: usize = 0;
        while i < n
            invariant
                n == self.tiles@.len(),
                i <= n,
                first_entry(self.tiles@, tile@, i as int) is None,
            decreases n - i,
        {
            if self.tiles[i].0 == *tile {
                proof {
                    lemma_first_entry_stays(self.tiles@, tile@, i as int + 1, n as int);
                }
                return true;
            }
            i += 1;
        }
        false
    }

    /// The rules of `tile`; the tile must be listed.
    pub fn tile(&self, tile: &Tile) -> (r: &TileRules)
        requires
            self.knows(tile@),
        ensures
            Some(*r) == self.spec_tile(tile@),
    {
        let n = self.tiles.len();
        let mut i: usize = 0;
        while i < n
            invariant
                n == self.tiles@.len(),
                i <= n,
                first_entry(self.tiles@, tile@, i as int) is None,
                self.knows(tile@),
            decreases n - i,
        {
            if self.tiles[i].0 == *tile {
                proof {
                    lemma_first_entry_stays(self.tiles@, tile@, i as int + 1, n as int);
                }
                return &self.tiles[i].1;
            }
            i += 1;
        }
        proof {
            assert(first_entry(self.tiles@, tile@, n as int) is None);
        }
        &self.tiles[0].1
    }
}

/// Once an entry is found among the first `m` entries, more entries do not change it.
pub proof fn lemma_first_entry_stays<V>(entries: Seq<(Tile, V)>, t: Seq<char>, m: int, n: int)
    requires
        0 <= m <= n,
        first_entry(entries, t, m) is Some,
    ensures
        first_entry(entries, t, n) == first_entry(entries, t, m),
    decreases n - m,
{
    if n > m {
        lemma_first_entry_stays(entries, t, m, n - 1);
    }
}

/// If no entry is found among the first `n` entries, none is found among fewer.
pub proof fn lemma_first_entry_extends<V>(entries: Seq<(Tile, V)>, t: Seq<char>, m: int, n: int)
    requires
        0 <= m <= n,
        first_entry(entries, t, n) is None,
    ensures
        first_entry(entries, t, m) is None,
    decreases n - m,
{
    if n > m {
        if first_entry(entries, t, n - 1) is Some {
            assert(first_entry(entries, t, n) is Some);
        }
        lemma_first_entry_extends(entries, t, m, n - 1);
    }
}

/// Whether no two entries have the same name: the entries are then a map from
/// names, which `first_entry` reads regardless of their order.
pub open spec fn names_unique<V>(entries: Seq<(Tile, V)>) -> bool {
    forall|i: int, j: int| 0 <= i < j < entries.len() ==> (#[trigger] entries[i]).0@ != (#[trigger] entries[j]).0@
}

/// Where names are unique, looking up the name of an entry finds that entry.
pub proof fn lemma_unique_lookup<V>(entries: Seq<(Tile, V)>, i: int)
    requires
        names_unique(entries),
        0 <= i < entries.len(),
    ensures
        first_entry(entries, entries[i].0@, entries.len() as int) == Some(i),
{
    lemma_first_entry_none_before(entries, i, i);
    assert(first_entry(entries, entries[i].0@, i + 1) == Some(i));
    lemma_first_entry_stays(entries, entries[i].0@, i + 1, entries.len() as int);
}

proof fn lemma_first_entry_none_before<V>(entries: Seq<(Tile, V)>, i: int, m: int)
    requires
        names_unique(entries),
        0 <= m <= i < entries.len(),
    ensures
        first_entry(entries, entries[i].0@, m) is None,
    decreases m,
{
    if m > 0 {
        lemma_first_entry_none_before(entries, i, m - 1);
        assert(entries[m - 1].0@ != entries[i].0@);
    }
}

/// Whether no two entries of `entries` have the same name.
pub fn check_names_unique<V>(entries: &Vec<(Tile, V)>) -> (b: bool)
    ensures
        b == names_unique(entries@),
{
    let n = entries.len();
    let mut i: usize = 0;
    while i < n
        invariant
            n == entries@.len(),
            i <= n,
            forall|a: int, b: int| 0 <= a < b < n && a < i ==> (#[trigger] entries@[a]).0@ != (#[trigger] entries@[b]).0@,
        decreases n - i,
    {
        let mut j: usize = i + 1;
        while j < n
            invariant
                n == entries@.len(),
                i < n,
                i < j <= n,
                forall|a: int, b: int| 0 <= a < b < n && a < i ==> (#[trigger] entries@[a]).0@ != (#[trigger] entries@[b]).0@,
                forall|b: int| i < b < j ==> entries@[i as int].0@ != (#[trigger] entries@[b]).0@,
            decreases n - j,
        {
            if entries[i].0 == entries[j].0 {
                proof {
                    assert(entries@[i as int].0@ == entries@[j as int].0@);
                    assert(!names_unique(entries@));
                }
                return false;
            }
            j += 1;
        }
        i += 1;
    }
    true
}

impl Rules {
    /// Each tile is listed once, as in the map of tile rules of a rules file.
    pub open spec fn well_formed(self) -> bool {
        names_unique(self.tiles@)
    }
}

} // verus!
