//! The parts of the game assets that the room logic reads: the rules and the
//! tile sets of each kind of tile.
use vstd::prelude::*;
use crate::rules::{first_entry, lemma_first_entry_stays, Rules, Tile};
use crate::tileset::TileSet;

verus! {

/// The tile sets of each kind of tile, and the set of masks drawn between layers.
#[derive(Clone, Debug)]
pub struct TileSprites {
    pub mask: TileSet,
    /// The tile set of each kind of tile, each listed once (see `well_formed`).
    pub tiles: Vec<(Tile, TileSet)>,
}

#[derive(Clone, Debug)]
pub struct Sprites {
    pub tiles: TileSprites,
}

#[derive(Clone, Debug)]
pub struct Assets {
    pub sprites: Sprites,
    pub rules: Rules,
}

impl TileSprites {
    pub open spec fn spec_tile_set(self, t: Seq<char>) -> Option<TileSet> {
        match first_entry(self.tiles@, t, self.tiles@.len() as int) {
            Some(i) => Some(self.tiles@[i].1),
            None => None,
        }
    }

    pub open spec fn knows(self, t: Seq<char>) -> bool {
        self.spec_tile_set(t) is Some
    }

    /// The tile set of `tile`, if it has one.
    pub fn find_tile_set(&self, tile: &Tile) -> (s: Option<&TileSet>)
        ensures
            match s {
                Some(s) => self.spec_tile_set(tile@) == Some(*s),
                None => !self.knows(tile@),
            },
    {
        let n = self.tiles.len();
        let mut i: usize = 0;
        while i < n
            invariant
                n == self.tiles@.len(),
                i <= n,
                first_entry(self.tiles@, tile@, i as int) is None,
            decreases n - i,
        {
            if self.tiles[i].0 == *tile {
                proof {
                    lemma_first_entry_stays(self.tiles@, tile@, i as int + 1, n as int);
                }
                return Some(&self.tiles[i].1);
            }
            i += 1;
        }
        None
    }

    /// The tile set of `tile`; the tile must have one.
    pub fn get_tile_set(&self, tile: &Tile) -> (s: &TileSet)
        requires
            self.knows(tile@),
        ensures
            Some(*s) == self.spec_tile_set(tile@),
    {
        let n = self.tiles.len();
        let mut i: usize = 0;
        while i < n
            invariant
                n == self.tiles@.len(),
                i <= n,
                first_entry(self.tiles@, tile@, i as int) is None,
                self.knows(tile@),
            decreases n - i,
        {
            if self.tiles[i].0 == *tile {
                proof {
                    lemma_first_entry_stays(self.tiles@, tile@, i as int + 1, n as int);
                }
                return &self.tiles[i].1;
            }
            i += 1;
        }
        &self.tiles[0].1
    }
}

impl TileSprites {
    /// Each tile has one entry, as in the map of tile sets the assets load.
    pub open spec fn well_formed(self) -> bool {
        crate::rules::names_unique(self.tiles@)
    }
}

impl Assets {
    /// Each tile is listed once in the rules and once among the tile sets.
    pub open spec fn well_formed(self) -> bool {
        &&& self.rules.well_formed()
        &&& self.sprites.tiles.well_formed()
    }

    /// Whether the assets are well formed.
    pub fn check_well_formed(&self) -> (b: bool)
        ensures
            b == self.well_formed(),
    {
        crate::rules::check_names_unique(&self.rules.tiles) && crate::rules::check_names_unique(&self.sprites.tiles.tiles)
    }
}

} // verus!
