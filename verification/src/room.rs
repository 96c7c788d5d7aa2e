//! Rooms: three layers of tiles and props, and the entities placed in them.
use vstd::prelude::*;
use crate::assets::Assets;
use crate::collider::Collider;
use crate::geom::{fits, fits_isize, Aabb2, IVec2, UVec2, Vec2, COORD_ONE};
use crate::grid::Grid;
use crate::placeable::{Coin, Hazard, Npc, Placeable, PlaceableId, Prop, PropType, Sprite, SpotlightSource};
use crate::rules::Tile;
use crate::tilemap::{air, air_tile, TileMap, TileMapView};
use crate::removal::{remove_all, remove_ok, removal_order, take_indices};

verus! {

/// One layer of a room: its tiles and the props drawn with them.
#[derive(Debug)]
pub struct RoomLayer {
    pub tiles: TileMap,
    pub props: Vec<Prop>,
}

#[derive(Debug)]
pub struct RoomLayers {
    pub background: RoomLayer,
    pub main: RoomLayer,
    pub foreground: RoomLayer,
}

/// The layer the editor works on.
#[derive(Clone, Copy, Debug, PartialEq, Eq, Structural)]
pub enum ActiveLayer {
    Background,
    Main,
    Foreground,
}

/// A passage to another room.
#[derive(Debug)]
pub struct RoomTransition {
    pub collider: Collider,
    /// Name of the room to which the transition moves.
    pub to_room: String,
    /// Offset applied to entities to move them into the new room's coordinate system.
    pub offset: IVec2,
}

/// A room.
#[derive(Debug)]
pub struct Room {
    pub drill_allowed: bool,
    pub grid: Grid,
    pub size: UVec2,
    pub spawn_point: Vec2,
    pub layers: RoomLayers,
    pub hazards: Vec<Hazard>,
    pub coins: Vec<Coin>,
    pub npcs: Vec<Npc>,
    pub spotlights: Vec<SpotlightSource>,
    pub transitions: Vec<RoomTransition>,
}

/// Whether `b` holds the same character as `a`: all but the way its text is stored.
pub open spec fn same_npc(a: Npc, b: Npc) -> bool {
    &&& b.interact_collider == a.interact_collider
    &&& b.sprite == a.sprite
    &&& b.npc_type == a.npc_type
    &&& b.text.char_delay == a.text.char_delay
    &&& b.text.events@ == a.text.events@
}

/// Whether two layers hold the same tiles, geometry and props.
pub open spec fn same_layer(a: RoomLayer, b: RoomLayer) -> bool {
    &&& a.tiles.size == b.tiles.size
    &&& a.tiles.tiles@ == b.tiles.tiles@
    &&& a.tiles.geometry_view() == b.tiles.geometry_view()
    &&& a.props@ == b.props@
}

/// Whether two rooms hold the same things.
pub open spec fn same_room(a: Room, b: Room) -> bool {
    &&& a.drill_allowed == b.drill_allowed
    &&& a.grid == b.grid
    &&& a.size == b.size
    &&& a.spawn_point == b.spawn_point
    &&& same_layer(a.layers.background, b.layers.background)
    &&& same_layer(a.layers.main, b.layers.main)
    &&& same_layer(a.layers.foreground, b.layers.foreground)
    &&& a.hazards@ == b.hazards@
    &&& a.coins@ == b.coins@
    &&& a.npcs@.len() == b.npcs@.len()
    &&& forall|i: int| 0 <= i < a.npcs@.len() ==> same_npc(#[trigger] a.npcs@[i], b.npcs@[i])
    &&& a.spotlights@ == b.spotlights@
    &&& a.transitions@ == b.transitions@
}

impl Clone for RoomTransition {
    fn clone(&self) -> (r: Self)
        ensures
            r == *self,
    {
        RoomTransition { collider: self.collider, to_room: self.to_room.clone(), offset: self.offset }
    }
}

impl Clone for RoomLayer {
    fn clone(&self) -> (r: Self)
        ensures
            same_layer(*self, r),
    {
        let props = self.props.clone();
        assert(props@ =~= self.props@);
        RoomLayer { tiles: self.tiles.clone(), props }
    }
}

impl Clone for RoomLayers {
    fn clone(&self) -> (r: Self)
        ensures
            same_layer(self.background, r.background),
            same_layer(self.main, r.main),
            same_layer(self.foreground, r.foreground),
    {
        RoomLayers { background: self.background.clone(), main: self.main.clone(), foreground: self.foreground.clone() }
    }
}

impl Clone for Room {
    fn clone(&self) -> (r: Self)
        ensures
            same_room(*self, r),
    {
        let hazards = self.hazards.clone();
        let coins = self.coins.clone();
        let npcs = self.npcs.clone();
        let spotlights = self.spotlights.clone();
        let transitions = self.transitions.clone();
        assert(hazards@ =~= self.hazards@);
        assert(coins@ =~= self.coins@);
        assert(spotlights@ =~= self.spotlights@);
        assert(transitions@ =~= self.transitions@);
        Room {
            drill_allowed: self.drill_allowed,
            grid: self.grid,
            size: self.size,
            spawn_point: self.spawn_point,
            layers: self.layers.clone(),
            hazards,
            coins,
            npcs,
            spotlights,
            transitions,
        }
    }
}

impl RoomLayer {
    pub fn new(size: UVec2) -> (l: RoomLayer)
        requires
            size.x * size.y <= usize::MAX,
        ensures
            l.tiles.size == size,
            l.tiles.well_formed(),
            l.tiles@.tiles == Seq::new((size.x * size.y) as nat, |i: int| crate::tilemap::air()),
            l.props@.len() == 0,
    {
        RoomLayer { tiles: TileMap::new(size), props: Vec::new() }
    }
}

impl RoomLayers {
    pub open spec fn spec_get(self, layer: ActiveLayer) -> RoomLayer {
        match layer {
            ActiveLayer::Background => self.background,
            ActiveLayer::Main => self.main,
            ActiveLayer::Foreground => self.foreground,
        }
    }

    /// The layers with `layer` replaced by `l`.
    pub open spec fn with_layer(self, layer: ActiveLayer, l: RoomLayer) -> RoomLayers {
        match layer {
            ActiveLayer::Background => RoomLayers { background: l, ..self },
            ActiveLayer::Main => RoomLayers { main: l, ..self },
            ActiveLayer::Foreground => RoomLayers { foreground: l, ..self },
        }
    }

    pub fn new(size: UVec2) -> (l: RoomLayers)
        requires
            size.x * size.y <= usize::MAX,
        ensures
            forall|a: ActiveLayer| {
                &&& (#[trigger] l.spec_get(a)).tiles.size == size
                &&& l.spec_get(a).tiles.well_formed()
                &&& l.spec_get(a).tiles@.tiles == Seq::new((size.x * size.y) as nat, |i: int| crate::tilemap::air())
                &&& l.spec_get(a).props@.len() == 0
            },
    {
        RoomLayers { background: RoomLayer::new(size), main: RoomLayer::new(size), foreground: RoomLayer::new(size) }
    }

    pub fn get(&self, layer: ActiveLayer) -> (l: &RoomLayer)
        ensures
            *l == self.spec_get(layer),
    {
        match layer {
            ActiveLayer::Background => &self.background,
            ActiveLayer::Main => &self.main,
            ActiveLayer::Foreground => &self.foreground,
        }
    }

    pub fn get_mut(&mut self, layer: ActiveLayer) -> (l: &mut RoomLayer)
        ensures
            *l == old(self).spec_get(layer),
            *final(self) == old(self).with_layer(layer, *final(l)),
    {
        match layer {
            ActiveLayer::Background => &mut self.background,
            ActiveLayer::Main => &mut self.main,
            ActiveLayer::Foreground => &mut self.foreground,
        }
    }
}

impl Room {
    pub open spec fn spec_layer(self, layer: ActiveLayer) -> RoomLayer {
        self.layers.spec_get(layer)
    }

    /// An empty room of `size` cells on the unit grid, with the spawn point in
    /// the middle cell; the drill is allowed.
    pub fn new(size: UVec2) -> (r: Room)
        requires
            size.x * size.y <= usize::MAX,
            size.x <= isize::MAX,
            size.y <= isize::MAX,
            fits((size.x / 2) * COORD_ONE * COORD_ONE),
            fits((size.y / 2) * COORD_ONE * COORD_ONE),
        ensures
            r.grid.is_unit(),
            r.size == size,
            r.spawn_point == (Vec2 { x: ((size.x / 2) * COORD_ONE) as i64, y: ((size.y / 2) * COORD_ONE) as i64 }),
            r.drill_allowed,
            forall|a: ActiveLayer| {
                &&& (#[trigger] r.spec_layer(a)).tiles.size == size
                &&& r.spec_layer(a).tiles.well_formed()
                &&& r.spec_layer(a).tiles@.tiles == Seq::new((size.x * size.y) as nat, |i: int| crate::tilemap::air())
                &&& r.spec_layer(a).props@.len() == 0
            },
            r.hazards@.len() == 0,
            r.coins@.len() == 0,
            r.npcs@.len() == 0,
            r.spotlights@.len() == 0,
            r.transitions@.len() == 0,
    {
        let grid = Grid::default();
        let center = IVec2 { x: (size.x / 2) as isize, y: (size.y / 2) as isize };
        proof {
            lemma_unit_grid_to_world(grid, center);
        }
        let spawn_point = grid.grid_to_world(center);
        Room {
            spawn_point,
            hazards: Vec::new(),
            coins: Vec::new(),
            npcs: Vec::new(),
            layers: RoomLayers::new(size),
            transitions: Vec::new(),
            drill_allowed: true,
            spotlights: Vec::new(),
            grid,
            size,
        }
    }

    /// Whether the corners of the room can be converted to world coordinates.
    pub open spec fn bounds_fit(self) -> bool {
        &&& self.size.x <= isize::MAX
        &&& self.size.y <= isize::MAX
        &&& self.grid.grid_to_world_fits(IVec2 { x: 0, y: 0 })
        &&& self.grid.grid_to_world_fits(IVec2 { x: self.size.x as isize, y: self.size.y as isize })
    }

    /// The world box covered by the room's cells.
    pub open spec fn spec_bounds(self) -> Aabb2 {
        Aabb2::spec_from_corners(
            self.grid.spec_grid_to_world(IVec2 { x: 0, y: 0 }),
            self.grid.spec_grid_to_world(IVec2 { x: self.size.x as isize, y: self.size.y as isize }),
        )
    }

    pub fn bounds(&self) -> (b: Aabb2)
        requires
            self.bounds_fit(),
        ensures
            b == self.spec_bounds(),
    {
        Aabb2::from_corners(
            self.grid.grid_to_world(IVec2 { x: 0, y: 0 }),
            self.grid.grid_to_world(IVec2 { x: self.size.x as isize, y: self.size.y as isize }),
        )
    }

    /// Puts `tile` at `pos` in `layer`; see `TileMap::set_tile_isize`.
    pub fn place_tile(&mut self, pos: IVec2, tile: Tile, layer: ActiveLayer, assets: &Assets)
        requires
            old(self).spec_layer(layer).tiles.well_formed(),
            old(self).spec_layer(layer).tiles@.in_bounds(pos.x as int, pos.y as int)
                ==> old(self).spec_layer(layer).tiles@.with_tile(pos.x as int, pos.y as int, tile@).shapable(*assets),
        ensures
            final(self).layers == old(self).layers.with_layer(layer, final(self).spec_layer(layer)),
            final(self).spec_layer(layer).props == old(self).spec_layer(layer).props,
            old(self).spec_layer(layer).tiles@.in_bounds(pos.x as int, pos.y as int) ==> {
                &&& final(self).spec_layer(layer).tiles@ == old(self).spec_layer(layer).tiles@.with_tile(
                    pos.x as int,
                    pos.y as int,
                    tile@,
                )
                &&& final(self).spec_layer(layer).tiles.well_formed()
                &&& final(self).spec_layer(layer).tiles@.geometry_fits(
                    *assets,
                    final(self).spec_layer(layer).tiles.spec_geometry().unwrap(),
                )
            },
            !old(self).spec_layer(layer).tiles@.in_bounds(pos.x as int, pos.y as int) ==> final(self).layers
                == old(self).layers,
            Self::same_entities(*old(self), *final(self)),
    {
        let l = self.layers.get_mut(layer);
        l.tiles.set_tile_isize(pos, tile, assets);
    }

    /// Whether two rooms hold the same entities and settings (their layers may differ).
    pub open spec fn same_entities(a: Room, b: Room) -> bool {
        &&& a.drill_allowed == b.drill_allowed
        &&& a.grid == b.grid
        &&& a.size == b.size
        &&& a.spawn_point == b.spawn_point
        &&& a.hazards == b.hazards
        &&& a.coins == b.coins
        &&& a.npcs == b.npcs
        &&& a.spotlights == b.spotlights
        &&& a.transitions == b.transitions
    }

    /// What `place_block` needs: a placed tile leaves its layer's tile images choosable.
    pub open spec fn place_block_ok(self, block: Placeable, layer: ActiveLayer, assets: Assets) -> bool {
        match block {
            Placeable::Tile((tile, pos)) => {
                &&& self.spec_layer(layer).tiles.well_formed()
                &&& self.spec_layer(layer).tiles@.in_bounds(pos.x as int, pos.y as int)
                    ==> self.spec_layer(layer).tiles@.with_tile(pos.x as int, pos.y as int, tile@).shapable(assets)
            },
            _ => true,
        }
    }

    /// How `place_block` leaves the room `after`, from `before`, having put `block` in
    /// `layer` and returned `id`.
    pub open spec fn block_placed(before: Room, after: Room, block: Placeable, layer: ActiveLayer, id: PlaceableId) -> bool {
        match block {
            Placeable::Tile((tile, pos)) => {
                &&& id == PlaceableId::Tile(pos)
                &&& after.layers == before.layers.with_layer(layer, after.spec_layer(layer))
                &&& after.spec_layer(layer).props == before.spec_layer(layer).props
                &&& before.spec_layer(layer).tiles@.in_bounds(pos.x as int, pos.y as int) ==> {
                    &&& after.spec_layer(layer).tiles@ == before.spec_layer(layer).tiles@.with_tile(
                        pos.x as int,
                        pos.y as int,
                        tile@,
                    )
                    &&& after.spec_layer(layer).tiles.well_formed()
                }
                &&& !before.spec_layer(layer).tiles@.in_bounds(pos.x as int, pos.y as int)
                    ==> after.layers == before.layers
                &&& Self::same_entities(before, after)
            },
            Placeable::Hazard(h) => {
                &&& id == PlaceableId::Hazard(before.hazards@.len() as usize)
                &&& after.hazards@ == before.hazards@.push(h)
                &&& after == (Room { hazards: after.hazards, ..before })
            },
            Placeable::Prop(p) => {
                &&& id == PlaceableId::Prop(before.spec_layer(layer).props@.len() as usize)
                &&& after.spec_layer(layer).props@ == before.spec_layer(layer).props@.push(p)
                &&& after.spec_layer(layer).tiles == before.spec_layer(layer).tiles
                &&& after.layers == before.layers.with_layer(layer, after.spec_layer(layer))
                &&& Self::same_entities(before, after)
            },
            Placeable::Coin(c) => {
                &&& id == PlaceableId::Coin(before.coins@.len() as usize)
                &&& after.coins@ == before.coins@.push(c)
                &&& after == (Room { coins: after.coins, ..before })
            },
            Placeable::Npc(n) => {
                &&& id == PlaceableId::Npc(before.npcs@.len() as usize)
                &&& after.npcs@ == before.npcs@.push(n)
                &&& after == (Room { npcs: after.npcs, ..before })
            },
            Placeable::Spotlight(s) => {
                &&& id == PlaceableId::Spotlight(before.spotlights@.len() as usize)
                &&& after.spotlights@ == before.spotlights@.push(s)
                &&& after == (Room { spotlights: after.spotlights, ..before })
            },
        }
    }

    /// Puts a thing back into the room and returns where it went: a tile at its
    /// position in `layer`, a prop at the end of the layer's props, anything else
    /// at the end of its list.
    pub fn place_block(&mut self, block: Placeable, layer: ActiveLayer, assets: &Assets) -> (id: PlaceableId)
        requires
            old(self).place_block_ok(block, layer, *assets),
        ensures
            Self::block_placed(*old(self), *final(self), block, layer, id),
    {
        match block {
            Placeable::Tile((tile, pos)) => {
                self.place_tile(pos, tile, layer, assets);
                PlaceableId::Tile(pos)
            },
            Placeable::Hazard(hazard) => {
                self.hazards.push(hazard);
                PlaceableId::Hazard(self.hazards.len() - 1)
            },
            Placeable::Prop(prop) => {
                let l = self.layers.get_mut(layer);
                l.props.push(prop);
                PlaceableId::Prop(l.props.len() - 1)
            },
            Placeable::Coin(coin) => {
                self.coins.push(coin);
                PlaceableId::Coin(self.coins.len() - 1)
            },
            Placeable::Npc(npc) => {
                self.npcs.push(npc);
                PlaceableId::Npc(self.npcs.len() - 1)
            },
            Placeable::Spotlight(light) => {
                self.spotlights.push(light);
                PlaceableId::Spotlight(self.spotlights.len() - 1)
            },
        }
    }

    /// Whether `place_coin` stays in range.
    pub open spec fn place_coin_fits(self, pos: IVec2) -> bool {
        &&& self.grid.grid_to_world_fits(pos)
        &&& self.grid.spec_grid_to_world(pos).add_fits(self.grid.cell_size)
    }

    /// Adds an uncollected coin filling the cell at `pos`.
    pub fn place_coin(&mut self, pos: IVec2)
        requires
            old(self).place_coin_fits(pos),
        ensures
            *final(self) == (Room { coins: final(self).coins, ..*old(self) }),
            final(self).coins@.len() == old(self).coins@.len() + 1,
            final(self).coins@.drop_last() == old(self).coins@,
            final(self).coins@.last().collider@ == ({
                let p = old(self).grid.spec_grid_to_world(pos);
                Aabb2 { min: p, max: Vec2 { x: (p.x + old(self).grid.cell_size.x) as i64, y: (p.y + old(self).grid.cell_size.y) as i64 } }
            }),
            !final(self).coins@.last().collected,
    {
        let p = self.grid.grid_to_world(pos);
        let collider = Collider::new(Aabb2::point(p).extend_positive(self.grid.cell_size));
        self.coins.push(Coin { collider, collected: false });
        proof {
            assert(self.coins@.drop_last() =~= old(self).coins@);
        }
    }

    /// Whether `place_prop` stays in range.
    pub open spec fn place_prop_fits(self, pos: IVec2, size: Vec2) -> bool {
        &&& self.grid.grid_to_world_fits(pos)
        &&& self.grid.spec_grid_to_world(pos).sub_fits(Vec2 { x: (size.x / 2) as i64, y: (size.y / 2) as i64 })
        &&& self.grid.spec_grid_to_world(pos).add_fits(Vec2 { x: (size.x / 2) as i64, y: (size.y / 2) as i64 })
    }

    /// Adds a prop of `size` centered on the corner of the cell at `pos`.
    pub fn place_prop(&mut self, pos: IVec2, size: Vec2, prop: PropType, layer: ActiveLayer)
        requires
            old(self).place_prop_fits(pos, size),
        ensures
            final(self).layers == old(self).layers.with_layer(layer, final(self).spec_layer(layer)),
            final(self).spec_layer(layer).tiles == old(self).spec_layer(layer).tiles,
            Self::same_entities(*old(self), *final(self)),
            final(self).spec_layer(layer).props@.drop_last() == old(self).spec_layer(layer).props@,
            final(self).spec_layer(layer).props@.len() == old(self).spec_layer(layer).props@.len() + 1,
            ({
                let p = final(self).spec_layer(layer).props@.last();
                let c = old(self).grid.spec_grid_to_world(pos);
                &&& p.prop_type == prop
                &&& p.sprite == (Sprite {
                    pos: Aabb2 {
                        min: Vec2 { x: (c.x - size.x / 2) as i64, y: (c.y - size.y / 2) as i64 },
                        max: Vec2 { x: (c.x + size.x / 2) as i64, y: (c.y + size.y / 2) as i64 },
                    },
                    mirror_x: false,
                    mirror_y: false,
                })
            }),
    {
        let p = self.grid.grid_to_world(pos);
        let half = Vec2 { x: crate::geom::floor_div(size.x, 2), y: crate::geom::floor_div(size.y, 2) };
        let sprite = Sprite::new(Aabb2::point(p).extend_symmetric(half));
        let l = self.layers.get_mut(layer);
        l.props.push(Prop { sprite, prop_type: prop });
        proof {
            assert(l.props@.drop_last() =~= old(self).spec_layer(layer).props@);
        }
    }
}

impl Placeable {
    /// `other` is a copy of `self`: equal, except that a character's script is
    /// compared by its steps.
    pub open spec fn copy_of(self, other: Placeable) -> bool {
        match (self, other) {
            (Placeable::Npc(a), Placeable::Npc(b)) => {
                &&& a.interact_collider == b.interact_collider
                &&& a.sprite == b.sprite
                &&& a.npc_type == b.npc_type
                &&& a.text.char_delay == b.text.char_delay
                &&& a.text.events@ == b.text.events@
            },
            _ => self == other,
        }
    }
}

impl Room {
    /// The thing at `id` in `layer`, if there is one.
    pub open spec fn spec_get_block(self, id: PlaceableId, layer: ActiveLayer) -> Option<Placeable> {
        match id {
            PlaceableId::Tile(pos) => {
                let m = self.spec_layer(layer).tiles;
                if m@.in_bounds(pos.x as int, pos.y as int) {
                    Some(Placeable::Tile((m.tiles@[pos.x + pos.y * m.size.x], pos)))
                } else {
                    None
                }
            },
            PlaceableId::Hazard(i) => if i < self.hazards@.len() { Some(Placeable::Hazard(self.hazards@[i as int])) } else { None },
            PlaceableId::Prop(i) => if i < self.spec_layer(layer).props@.len() {
                Some(Placeable::Prop(self.spec_layer(layer).props@[i as int]))
            } else {
                None
            },
            PlaceableId::Coin(i) => if i < self.coins@.len() { Some(Placeable::Coin(self.coins@[i as int])) } else { None },
            PlaceableId::Npc(i) => if i < self.npcs@.len() { Some(Placeable::Npc(self.npcs@[i as int])) } else { None },
            PlaceableId::Spotlight(i) => if i < self.spotlights@.len() {
                Some(Placeable::Spotlight(self.spotlights@[i as int]))
            } else {
                None
            },
        }
    }

    /// A copy of the thing at `id` in `layer`; nothing where there is none.
    pub fn get_block(&self, id: PlaceableId, layer: ActiveLayer) -> (r: Option<Placeable>)
        requires
            self.spec_layer(layer).tiles@.well_formed(),
        ensures
            match (r, self.spec_get_block(id, layer)) {
                (Some(a), Some(b)) => a.copy_of(b),
                (None, None) => true,
                _ => false,
            },
    {
        match id {
            PlaceableId::Tile(pos) => match self.layers.get(layer).tiles.get_tile_isize(pos) {
                Some(tile) => Some(Placeable::Tile((tile.clone(), pos))),
                None => None,
            },
            PlaceableId::Hazard(i) => if i < self.hazards.len() {
                Some(Placeable::Hazard(self.hazards[i].clone()))
            } else {
                None
            },
            PlaceableId::Prop(i) => {
                let l = self.layers.get(layer);
                if i < l.props.len() {
                    Some(Placeable::Prop(l.props[i].clone()))
                } else {
                    None
                }
            },
            PlaceableId::Coin(i) => if i < self.coins.len() {
                Some(Placeable::Coin(self.coins[i].clone()))
            } else {
                None
            },
            PlaceableId::Npc(i) => if i < self.npcs.len() {
                Some(Placeable::Npc(self.npcs[i].clone()))
            } else {
                None
            },
            PlaceableId::Spotlight(i) => if i < self.spotlights.len() {
                Some(Placeable::Spotlight(self.spotlights[i]))
            } else {
                None
            },
        }
    }

    /// Whether every layer can be resized to `size` with its tile images chosen anew.
    pub open spec fn change_size_ok(self, size: UVec2, assets: Assets) -> bool {
        &&& size.x * size.y <= usize::MAX
        &&& forall|a: ActiveLayer| {
            &&& (#[trigger] self.spec_layer(a)).tiles.well_formed()
            &&& self.spec_layer(a).tiles@.resized(size).shapable(assets)
        }
    }

    /// Cuts or pads every layer with air to `size`, keeping the bottom-left corner.
    pub fn change_size(&mut self, size: UVec2, assets: &Assets)
        requires
            old(self).change_size_ok(size, *assets),
        ensures
            final(self).size == size,
            forall|a: ActiveLayer| {
                &&& (#[trigger] final(self).spec_layer(a)).tiles@ == old(self).spec_layer(a).tiles@.resized(size)
                &&& final(self).spec_layer(a).tiles.well_formed()
                &&& final(self).spec_layer(a).props == old(self).spec_layer(a).props
            },
            *final(self) == (Room { size, layers: final(self).layers, ..*old(self) }),
    {
        proof {
            assert(old(self).spec_layer(ActiveLayer::Background) == old(self).layers.background);
            assert(old(self).spec_layer(ActiveLayer::Main) == old(self).layers.main);
            assert(old(self).spec_layer(ActiveLayer::Foreground) == old(self).layers.foreground);
        }
        self.layers.background.tiles.change_size(size, assets);
        self.layers.main.tiles.change_size(size, assets);
        self.layers.foreground.tiles.change_size(size, assets);
        self.size = size;
    }

    /// Changes the size as `change_size` does if every layer can get its tile
    /// images at the new size; returns whether it did. Otherwise nothing changes.
    pub fn try_change_size(&mut self, size: UVec2, assets: &Assets) -> (changed: bool)
        ensures
            changed == old(self).change_size_ok(size, *assets),
            changed ==> {
                &&& final(self).size == size
                &&& forall|a: ActiveLayer| {
                    &&& (#[trigger] final(self).spec_layer(a)).tiles@ == old(self).spec_layer(a).tiles@.resized(size)
                    &&& final(self).spec_layer(a).tiles.well_formed()
                    &&& final(self).spec_layer(a).props == old(self).spec_layer(a).props
                }
                &&& *final(self) == (Room { size, layers: final(self).layers, ..*old(self) })
            },
            !changed ==> *final(self) == *old(self),
    {
        proof {
            assert(old(self).spec_layer(ActiveLayer::Background) == old(self).layers.background);
            assert(old(self).spec_layer(ActiveLayer::Main) == old(self).layers.main);
            assert(old(self).spec_layer(ActiveLayer::Foreground) == old(self).layers.foreground);
        }
        let fits = match size.x.checked_mul(size.y) {
            Some(_) => true,
            None => false,
        };
        if !fits {
            return false;
        }
        let ok = self.layers.background.tiles.is_well_formed() && self.layers.main.tiles.is_well_formed()
            && self.layers.foreground.tiles.is_well_formed()
            && self.layers.background.tiles.can_resize(size, assets)
            && self.layers.main.tiles.can_resize(size, assets)
            && self.layers.foreground.tiles.can_resize(size, assets);
        proof {
            if ok {
                assert forall|a: ActiveLayer| {
                    &&& (#[trigger] self.spec_layer(a)).tiles.well_formed()
                    &&& self.spec_layer(a).tiles@.resized(size).shapable(*assets)
                } by {
                    match a {
                        ActiveLayer::Background => {},
                        ActiveLayer::Main => {},
                        ActiveLayer::Foreground => {},
                    }
                }
            } else {
                if self.change_size_ok(size, *assets) {
                    assert(self.spec_layer(ActiveLayer::Background).tiles.well_formed());
                    assert(self.spec_layer(ActiveLayer::Main).tiles.well_formed());
                    assert(self.spec_layer(ActiveLayer::Foreground).tiles.well_formed());
                }
            }
        }
        if !ok {
            return false;
        }
        self.change_size(size, assets);
        true
    }

    /// Whether every entity of the room can move by `d`.
    pub open spec fn entities_move_fits(self, d: Vec2) -> bool {
        &&& self.spawn_point.add_fits(d)
        &&& forall|i: int| 0 <= i < self.coins@.len() ==> (#[trigger] self.coins@[i]).collider@.translate_fits(d)
        &&& forall|i: int| 0 <= i < self.hazards@.len() ==> {
            &&& (#[trigger] self.hazards@[i]).collider@.translate_fits(d)
            &&& self.hazards@[i].sprite.pos.translate_fits(d)
        }
        &&& forall|i: int| 0 <= i < self.npcs@.len() ==> {
            &&& (#[trigger] self.npcs@[i]).interact_collider@.translate_fits(d)
            &&& self.npcs@[i].sprite.pos.translate_fits(d)
        }
        &&& forall|i: int| 0 <= i < self.spotlights@.len() ==> (#[trigger] self.spotlights@[i]).position.add_fits(d)
        &&& forall|a: ActiveLayer, i: int|
            0 <= i < self.spec_layer(a).props@.len() ==> (#[trigger] self.spec_layer(a).props@[i]).sprite.pos.translate_fits(d)
    }

    /// `b` is `a` with every entity moved by `d`.
    pub open spec fn entities_moved(a: Room, b: Room, d: Vec2) -> bool {
        &&& b.spawn_point == (Vec2 { x: (a.spawn_point.x + d.x) as i64, y: (a.spawn_point.y + d.y) as i64 })
        &&& b.coins@.len() == a.coins@.len()
        &&& forall|i: int| 0 <= i < a.coins@.len() ==> {
            &&& (#[trigger] b.coins@[i]).collider@ == a.coins@[i].collider@.spec_translate(d)
            &&& b.coins@[i].collected == a.coins@[i].collected
        }
        &&& b.hazards@.len() == a.hazards@.len()
        &&& forall|i: int| 0 <= i < a.hazards@.len() ==> {
            &&& (#[trigger] b.hazards@[i]).collider@ == a.hazards@[i].collider@.spec_translate(d)
            &&& b.hazards@[i].sprite == (Sprite { pos: a.hazards@[i].sprite.pos.spec_translate(d), ..a.hazards@[i].sprite })
            &&& b.hazards@[i].direction == a.hazards@[i].direction
            &&& b.hazards@[i].hazard_type == a.hazards@[i].hazard_type
        }
        &&& b.npcs@.len() == a.npcs@.len()
        &&& forall|i: int| 0 <= i < a.npcs@.len() ==> {
            &&& (#[trigger] b.npcs@[i]).interact_collider@ == a.npcs@[i].interact_collider@.spec_translate(d)
            &&& b.npcs@[i].sprite == (Sprite { pos: a.npcs@[i].sprite.pos.spec_translate(d), ..a.npcs@[i].sprite })
            &&& b.npcs@[i].npc_type == a.npcs@[i].npc_type
            &&& b.npcs@[i].text == a.npcs@[i].text
        }
        &&& b.spotlights@.len() == a.spotlights@.len()
        &&& forall|i: int| 0 <= i < a.spotlights@.len() ==> (#[trigger] b.spotlights@[i]).position == (Vec2 {
            x: (a.spotlights@[i].position.x + d.x) as i64,
            y: (a.spotlights@[i].position.y + d.y) as i64,
        })
        &&& forall|l: ActiveLayer| (#[trigger] b.spec_layer(l)).props@.len() == a.spec_layer(l).props@.len()
        &&& forall|l: ActiveLayer, i: int| 0 <= i < a.spec_layer(l).props@.len() ==> {
            &&& (#[trigger] b.spec_layer(l).props@[i]).sprite == (Sprite {
                pos: a.spec_layer(l).props@[i].sprite.pos.spec_translate(d),
                ..a.spec_layer(l).props@[i].sprite
            })
            &&& b.spec_layer(l).props@[i].prop_type == a.spec_layer(l).props@[i].prop_type
        }
    }
}

/// Moves every prop of a layer by `d`.
fn translate_props(props: &mut Vec<Prop>, d: Vec2)
    requires
        forall|i: int| 0 <= i < old(props)@.len() ==> (#[trigger] old(props)@[i]).sprite.pos.translate_fits(d),
    ensures
        final(props)@.len() == old(props)@.len(),
        forall|i: int| 0 <= i < old(props)@.len() ==> {
            &&& (#[trigger] final(props)@[i]).sprite == (Sprite { pos: old(props)@[i].sprite.pos.spec_translate(d), ..old(props)@[i].sprite })
            &&& final(props)@[i].prop_type == old(props)@[i].prop_type
        },
{
    let n = props.len();
    let mut i: usize = 0;
    while i < n
        invariant
            n == props@.len(),
            n == old(props)@.len(),
            i <= n,
            forall|j: int| i <= j < n ==> props@[j] == old(props)@[j],
            forall|j: int| 0 <= j < i ==> {
                &&& (#[trigger] props@[j]).sprite == (Sprite { pos: old(props)@[j].sprite.pos.spec_translate(d), ..old(props)@[j].sprite })
                &&& props@[j].prop_type == old(props)@[j].prop_type
            },
            forall|j: int| 0 <= j < n ==> (#[trigger] old(props)@[j]).sprite.pos.translate_fits(d),
        decreases n - i,
    {
        let mut p = props[i].clone();
        p.translate(d);
        props.set(i, p);
        i += 1;
    }
}

impl Room {
    /// Moves every entity of the room by `d`.
    fn move_entities(&mut self, d: Vec2)
        requires
            old(self).entities_move_fits(d),
        ensures
            Self::entities_moved(*old(self), *final(self), d),
            final(self).drill_allowed == old(self).drill_allowed,
            final(self).grid == old(self).grid,
            final(self).size == old(self).size,
            final(self).transitions == old(self).transitions,
            forall|l: ActiveLayer| (#[trigger] final(self).spec_layer(l)).tiles == old(self).spec_layer(l).tiles,
    {
        self.spawn_point = self.spawn_point.add(d);
        let ghost s0 = *self;
        let n = self.coins.len();
        let mut i: usize = 0;
        while i < n
            invariant
                self.drill_allowed == s0.drill_allowed,
                self.grid == s0.grid,
                self.size == s0.size,
                self.spawn_point == s0.spawn_point,
                self.layers == s0.layers,
                self.hazards == s0.hazards,
                self.npcs == s0.npcs,
                self.spotlights == s0.spotlights,
                self.transitions == s0.transitions,
                n == self.coins@.len(),
                n == old(self).coins@.len(),
                i <= n,
                forall|j: int| i <= j < n ==> self.coins@[j] == old(self).coins@[j],
                forall|j: int| 0 <= j < i ==> {
                    &&& (#[trigger] self.coins@[j]).collider@ == old(self).coins@[j].collider@.spec_translate(d)
                    &&& self.coins@[j].collected == old(self).coins@[j].collected
                },
                forall|j: int| 0 <= j < n ==> (#[trigger] old(self).coins@[j]).collider@.translate_fits(d),
            decreases n - i,
        {
            let mut c = self.coins[i].clone();
            c.translate(d);
            self.coins.set(i, c);
            i += 1;
        }
        let ghost s0 = *self;
        let n = self.hazards.len();
        let mut i: usize = 0;
        while i < n
            invariant
                self.drill_allowed == s0.drill_allowed,
                self.grid == s0.grid,
                self.size == s0.size,
                self.spawn_point == s0.spawn_point,
                self.layers == s0.layers,
                self.coins == s0.coins,
                self.npcs == s0.npcs,
                self.spotlights == s0.spotlights,
                self.transitions == s0.transitions,
                n == self.hazards@.len(),
                n == old(self).hazards@.len(),
                i <= n,
                forall|j: int| i <= j < n ==> self.hazards@[j] == old(self).hazards@[j],
                forall|j: int| 0 <= j < i ==> {
                    &&& (#[trigger] self.hazards@[j]).collider@ == old(self).hazards@[j].collider@.spec_translate(d)
                    &&& self.hazards@[j].sprite == (Sprite { pos: old(self).hazards@[j].sprite.pos.spec_translate(d), ..old(self).hazards@[j].sprite })
                    &&& self.hazards@[j].direction == old(self).hazards@[j].direction
                    &&& self.hazards@[j].hazard_type == old(self).hazards@[j].hazard_type
                },
                forall|j: int| 0 <= j < n ==> {
                    &&& (#[trigger] old(self).hazards@[j]).collider@.translate_fits(d)
                    &&& old(self).hazards@[j].sprite.pos.translate_fits(d)
                },
            decreases n - i,
        {
            let mut h = self.hazards[i].clone();
            h.translate(d);
            self.hazards.set(i, h);
            i += 1;
        }
        let ghost s0 = *self;
        let n = self.npcs.len();
        let mut i: usize = 0;
        while i < n
            invariant
                self.drill_allowed == s0.drill_allowed,
                self.grid == s0.grid,
                self.size == s0.size,
                self.spawn_point == s0.spawn_point,
                self.layers == s0.layers,
                self.hazards == s0.hazards,
                self.coins == s0.coins,
                self.spotlights == s0.spotlights,
                self.transitions == s0.transitions,
                n == self.npcs@.len(),
                n == old(self).npcs@.len(),
                i <= n,
                forall|j: int| i <= j < n ==> self.npcs@[j] == old(self).npcs@[j],
                forall|j: int| 0 <= j < i ==> {
                    &&& (#[trigger] self.npcs@[j]).interact_collider@ == old(self).npcs@[j].interact_collider@.spec_translate(d)
                    &&& self.npcs@[j].sprite == (Sprite { pos: old(self).npcs@[j].sprite.pos.spec_translate(d), ..old(self).npcs@[j].sprite })
                    &&& self.npcs@[j].npc_type == old(self).npcs@[j].npc_type
                    &&& self.npcs@[j].text == old(self).npcs@[j].text
                },
                forall|j: int| 0 <= j < n ==> {
                    &&& (#[trigger] old(self).npcs@[j]).interact_collider@.translate_fits(d)
                    &&& old(self).npcs@[j].sprite.pos.translate_fits(d)
                },
            decreases n - i,
        {
            let mut npc = Npc {
                interact_collider: self.npcs[i].interact_collider,
                text: crate::text_scroller::TextConfig { char_delay: 0, events: std::collections::VecDeque::new() },
                sprite: self.npcs[i].sprite,
                npc_type: self.npcs[i].npc_type.clone(),
            };
            std::mem::swap(&mut npc.text, &mut self.npcs[i].text);
            npc.translate(d);
            self.npcs.set(i, npc);
            i += 1;
        }
        let ghost s0 = *self;
        let n = self.spotlights.len();
        let mut i: usize = 0;
        while i < n
            invariant
                self.drill_allowed == s0.drill_allowed,
                self.grid == s0.grid,
                self.size == s0.size,
                self.spawn_point == s0.spawn_point,
                self.layers == s0.layers,
                self.hazards == s0.hazards,
                self.coins == s0.coins,
                self.npcs == s0.npcs,
                self.transitions == s0.transitions,
                n == self.spotlights@.len(),
                n == old(self).spotlights@.len(),
                i <= n,
                forall|j: int| i <= j < n ==> self.spotlights@[j] == old(self).spotlights@[j],
                forall|j: int| 0 <= j < i ==> (#[trigger] self.spotlights@[j]).position == (Vec2 {
                    x: (old(self).spotlights@[j].position.x + d.x) as i64,
                    y: (old(self).spotlights@[j].position.y + d.y) as i64,
                }),
                forall|j: int| 0 <= j < n ==> (#[trigger] old(self).spotlights@[j]).position.add_fits(d),
            decreases n - i,
        {
            let s = SpotlightSource { position: self.spotlights[i].position.add(d) };
            self.spotlights.set(i, s);
            i += 1;
        }
        proof {
            assert(old(self).spec_layer(ActiveLayer::Background) == old(self).layers.background);
            assert(old(self).spec_layer(ActiveLayer::Main) == old(self).layers.main);
            assert(old(self).spec_layer(ActiveLayer::Foreground) == old(self).layers.foreground);
        }
        translate_props(&mut self.layers.background.props, d);
        translate_props(&mut self.layers.main.props, d);
        translate_props(&mut self.layers.foreground.props, d);
    }

    /// The world distance of a move by `delta` cells.
    pub open spec fn world_delta(self, delta: IVec2) -> Vec2 {
        let a = self.grid.spec_grid_to_world(delta);
        let b = self.grid.spec_grid_to_world(IVec2 { x: 0, y: 0 });
        Vec2 { x: (a.x - b.x) as i64, y: (a.y - b.y) as i64 }
    }

    /// Whether `translate(delta)` stays in range and leaves tile images choosable.
    pub open spec fn translate_ok(self, delta: IVec2, assets: Assets) -> bool {
        &&& self.grid.grid_to_world_fits(delta)
        &&& self.grid.grid_to_world_fits(IVec2 { x: 0, y: 0 })
        &&& delta_fits_world(self.grid.spec_grid_to_world(delta), self.grid.spec_grid_to_world(IVec2 { x: 0, y: 0 }))
        &&& self.entities_move_fits(self.world_delta(delta))
        &&& forall|a: ActiveLayer| {
            let m = #[trigger] self.spec_layer(a).tiles;
            &&& m.well_formed()
            &&& m.size.x <= isize::MAX
            &&& m.size.y <= isize::MAX
            &&& fits_isize(m.size.x - delta.x)
            &&& fits_isize(m.size.y - delta.y)
            &&& fits_isize(-delta.x)
            &&& fits_isize(-delta.y)
            &&& m@.translated(delta).shapable(assets)
        }
    }

    /// Moves everything in the room by `delta` cells: the tiles of every layer
    /// (what leaves the map is lost) and every entity.
    pub fn translate(&mut self, delta: IVec2, assets: &Assets)
        requires
            old(self).translate_ok(delta, *assets),
        ensures
            forall|a: ActiveLayer| {
                &&& (#[trigger] final(self).spec_layer(a)).tiles@ == old(self).spec_layer(a).tiles@.translated(delta)
                &&& final(self).spec_layer(a).tiles.well_formed()
            },
            Self::entities_moved(*old(self), *final(self), old(self).world_delta(delta)),
            final(self).drill_allowed == old(self).drill_allowed,
            final(self).grid == old(self).grid,
            final(self).size == old(self).size,
            final(self).transitions == old(self).transitions,
    {
        proof {
            assert(old(self).spec_layer(ActiveLayer::Background) == old(self).layers.background);
            assert(old(self).spec_layer(ActiveLayer::Main) == old(self).layers.main);
            assert(old(self).spec_layer(ActiveLayer::Foreground) == old(self).layers.foreground);
        }
        self.layers.background.tiles.translate(delta, assets);
        self.layers.main.tiles.translate(delta, assets);
        self.layers.foreground.tiles.translate(delta, assets);
        let a = self.grid.grid_to_world(delta);
        let b = self.grid.grid_to_world(IVec2 { x: 0, y: 0 });
        let d = Vec2 { x: a.x - b.x, y: a.y - b.y };
        proof {
            assert(self.entities_move_fits(d)) by {
                assert forall|l: ActiveLayer, i: int|
                    0 <= i < self.spec_layer(l).props@.len() implies (#[trigger] self.spec_layer(l).props@[i]).sprite.pos.translate_fits(d) by {
                    assert(self.spec_layer(l).props == old(self).spec_layer(l).props);
                }
            }
        }
        self.move_entities(d);
    }
}

/// The indices below `n`, in increasing order, that satisfy `p`.
pub open spec fn indices_where(n: nat, p: spec_fn(int) -> bool) -> Seq<usize>
    decreases n,
{
    if n == 0 {
        Seq::empty()
    } else {
        let r = indices_where((n - 1) as nat, p);
        if p(n - 1) {
            r.push((n - 1) as usize)
        } else {
            r
        }
    }
}

/// The non-air cells of column `x` from row `lo` up to (not including) row `hi`.
pub open spec fn solid_in_column(m: TileMapView, x: int, lo: int, hi: int) -> Seq<PlaceableId>
    decreases hi - lo,
{
    if hi <= lo {
        Seq::empty()
    } else {
        let r = solid_in_column(m, x, lo, hi - 1);
        match m.tile_at(x, hi - 1) {
            Some(t) => if t != crate::tilemap::air() {
                r.push(PlaceableId::Tile(IVec2 { x: x as isize, y: (hi - 1) as isize }))
            } else {
                r
            },
            None => r,
        }
    }
}

/// The non-air cells of the columns from `lo` up to (not including) `hi` of a box,
/// column by column.
pub open spec fn solid_in_box(m: TileMapView, b: crate::geom::IAabb2, lo: int, hi: int) -> Seq<PlaceableId>
    decreases hi - lo,
{
    if hi <= lo {
        Seq::empty()
    } else {
        solid_in_box(m, b, lo, hi - 1) + solid_in_column(m, hi - 1, b.min.y as int, b.max.y + 1)
    }
}

pub open spec fn light_box(s: SpotlightSource) -> Aabb2 {
    Aabb2 {
        min: Vec2 { x: (s.position.x - crate::placeable::LIGHT_HANDLE) as i64, y: (s.position.y - crate::placeable::LIGHT_HANDLE) as i64 },
        max: Vec2 { x: (s.position.x + crate::placeable::LIGHT_HANDLE) as i64, y: (s.position.y + crate::placeable::LIGHT_HANDLE) as i64 },
    }
}

impl Room {
    /// What `get_hovered` needs: the box's cells and the lights' handles in range.
    pub open spec fn hovered_ok(self, aabb: Aabb2, layer: ActiveLayer) -> bool {
        let g = Collider::spec_new(aabb).spec_grid_aabb(self.grid);
        &&& self.spec_layer(layer).tiles@.well_formed()
        &&& Collider::spec_new(aabb).grid_aabb_fits(self.grid)
        &&& g.max.x < isize::MAX
        &&& g.max.y < isize::MAX
        &&& forall|i: int| 0 <= i < self.spotlights@.len() ==> {
            let p = (#[trigger] self.spotlights@[i]).position;
            fits(p.x - crate::placeable::LIGHT_HANDLE) && fits(p.y - crate::placeable::LIGHT_HANDLE)
                && fits(p.x + crate::placeable::LIGHT_HANDLE) && fits(p.y + crate::placeable::LIGHT_HANDLE)
        }
    }

    /// Everything in `layer` that `aabb` touches: the props, then the non-air
    /// cells under it column by column; on the main layer also the lights,
    /// hazards and coins.
    pub open spec fn spec_hovered(self, aabb: Aabb2, layer: ActiveLayer) -> Seq<PlaceableId> {
        let l = self.spec_layer(layer);
        let g = Collider::spec_new(aabb).spec_grid_aabb(self.grid);
        let props = indices_where(l.props@.len(), |i: int| l.props@[i].sprite.pos.spec_intersects(aabb)).map_values(
            |i: usize| PlaceableId::Prop(i),
        );
        let tiles = solid_in_box(l.tiles@, g, g.min.x as int, g.max.x + 1);
        let base = props + tiles;
        if layer == ActiveLayer::Main {
            base + indices_where(self.spotlights@.len(), |i: int| aabb.spec_intersects(light_box(self.spotlights@[i]))).map_values(
                |i: usize| PlaceableId::Spotlight(i),
            ) + indices_where(self.hazards@.len(), |i: int| self.hazards@[i].collider@.spec_intersects(aabb)).map_values(
                |i: usize| PlaceableId::Hazard(i),
            ) + indices_where(self.coins@.len(), |i: int| self.coins@[i].collider@.spec_intersects(aabb)).map_values(
                |i: usize| PlaceableId::Coin(i),
            )
        } else {
            base
        }
    }

    pub fn get_hovered(&self, aabb: Aabb2, layer: ActiveLayer) -> (r: Vec<PlaceableId>)
        requires
            self.hovered_ok(aabb, layer),
        ensures
            r@ == self.spec_hovered(aabb, layer),
    {
        let grid_aabb = Collider::new(aabb).grid_aabb(&self.grid);
        let main_layer = matches!(layer, ActiveLayer::Main);
        let l = self.layers.get(layer);
        let mut res: Vec<PlaceableId> = Vec::new();

        let n = l.props.len();
        let mut i: usize = 0;
        while i < n
            invariant
                n == l.props@.len(),
                i <= n,
                res@ == indices_where(i as nat, |k: int| l.props@[k].sprite.pos.spec_intersects(aabb)).map_values(
                    |k: usize| PlaceableId::Prop(k),
                ),
            decreases n - i,
        {
            if l.props[i].sprite.pos.intersects(&aabb) {
                res.push(PlaceableId::Prop(i));
            }
            proof {
                let p = |k: int| l.props@[k].sprite.pos.spec_intersects(aabb);
                assert(indices_where((i + 1) as nat, p) == if p(i as int) {
                    indices_where(i as nat, p).push(i)
                } else {
                    indices_where(i as nat, p)
                });
                assert(res@ =~= indices_where((i + 1) as nat, p).map_values(|k: usize| PlaceableId::Prop(k)));
            }
            i += 1;
        }
        let ghost props_part = res@;

        let mut x = grid_aabb.min.x;
        while x <= grid_aabb.max.x
            invariant
                l.tiles@.well_formed(),
                grid_aabb.max.x < isize::MAX,
                grid_aabb.max.y < isize::MAX,
                grid_aabb.min.x <= x <= grid_aabb.max.x + 1,
                grid_aabb.min.y <= grid_aabb.max.y,
                res@ == props_part + solid_in_box(l.tiles@, grid_aabb, grid_aabb.min.x as int, x as int),
            decreases grid_aabb.max.x + 1 - x,
        {
            let ghost before = res@;
            let mut y = grid_aabb.min.y;
            while y <= grid_aabb.max.y
                invariant
                    l.tiles@.well_formed(),
                    grid_aabb.max.y < isize::MAX,
                    grid_aabb.min.y <= y <= grid_aabb.max.y + 1,
                    grid_aabb.min.x <= x <= grid_aabb.max.x,
                    res@ == before + solid_in_column(l.tiles@, x as int, grid_aabb.min.y as int, y as int),
                decreases grid_aabb.max.y + 1 - y,
            {
                let pos = IVec2 { x, y };
                match l.tiles.get_tile_isize(pos) {
                    Some(t) => {
                        if !crate::tilemap::is_air(t) {
                            res.push(PlaceableId::Tile(pos));
                        }
                    },
                    None => {},
                }
                proof {
                    let ghost r0 = solid_in_column(l.tiles@, x as int, grid_aabb.min.y as int, y as int);
                    assert(solid_in_column(l.tiles@, x as int, grid_aabb.min.y as int, y + 1) == match l.tiles@.tile_at(x as int, y as int) {
                        Some(t) => if t != crate::tilemap::air() {
                            r0.push(PlaceableId::Tile(IVec2 { x: x, y: y }))
                        } else {
                            r0
                        },
                        None => r0,
                    });
                    assert(res@ =~= before + solid_in_column(l.tiles@, x as int, grid_aabb.min.y as int, y + 1));
                }
                y += 1;
            }
            proof {
                assert(solid_in_column(l.tiles@, x as int, grid_aabb.min.y as int, y as int)
                    == solid_in_column(l.tiles@, x as int, grid_aabb.min.y as int, grid_aabb.max.y + 1));
                assert(res@ =~= props_part + solid_in_box(l.tiles@, grid_aabb, grid_aabb.min.x as int, x + 1));
            }
            x += 1;
        }
        proof {
            assert(solid_in_box(l.tiles@, grid_aabb, grid_aabb.min.x as int, x as int)
                == solid_in_box(l.tiles@, grid_aabb, grid_aabb.min.x as int, grid_aabb.max.x + 1));
        }

        if main_layer {
            let ghost base = res@;
            let n = self.spotlights.len();
            let mut i: usize = 0;
            while i < n
                invariant
                    n == self.spotlights@.len(),
                    i <= n,
                    self.hovered_ok(aabb, layer),
                    res@ == base + indices_where(i as nat, |k: int| aabb.spec_intersects(light_box(self.spotlights@[k]))).map_values(
                        |k: usize| PlaceableId::Spotlight(k),
                    ),
                decreases n - i,
            {
                let hb = Aabb2::point(self.spotlights[i].position).extend_uniform(crate::placeable::LIGHT_HANDLE);
                if aabb.intersects(&hb) {
                    res.push(PlaceableId::Spotlight(i));
                }
                proof {
                    let p = |k: int| aabb.spec_intersects(light_box(self.spotlights@[k]));
                    assert(hb == light_box(self.spotlights@[i as int]));
                    assert(res@ =~= base + indices_where((i + 1) as nat, p).map_values(|k: usize| PlaceableId::Spotlight(k)));
                }
                i += 1;
            }
            let ghost base = res@;
            let n = self.hazards.len();
            let mut i: usize = 0;
            while i < n
                invariant
                    n == self.hazards@.len(),
                    i <= n,
                    res@ == base + indices_where(i as nat, |k: int| self.hazards@[k].collider@.spec_intersects(aabb)).map_values(
                        |k: usize| PlaceableId::Hazard(k),
                    ),
                decreases n - i,
            {
                if self.hazards[i].collider.raw().intersects(&aabb) {
                    res.push(PlaceableId::Hazard(i));
                }
                proof {
                    let p = |k: int| self.hazards@[k].collider@.spec_intersects(aabb);
                    assert(res@ =~= base + indices_where((i + 1) as nat, p).map_values(|k: usize| PlaceableId::Hazard(k)));
                }
                i += 1;
            }
            let ghost base = res@;
            let n = self.coins.len();
            let mut i: usize = 0;
            while i < n
                invariant
                    n == self.coins@.len(),
                    i <= n,
                    res@ == base + indices_where(i as nat, |k: int| self.coins@[k].collider@.spec_intersects(aabb)).map_values(
                        |k: usize| PlaceableId::Coin(k),
                    ),
                decreases n - i,
            {
                if self.coins[i].collider.raw().intersects(&aabb) {
                    res.push(PlaceableId::Coin(i));
                }
                proof {
                    let p = |k: int| self.coins@[k].collider@.spec_intersects(aabb);
                    assert(res@ =~= base + indices_where((i + 1) as nat, p).map_values(|k: usize| PlaceableId::Coin(k)));
                }
                i += 1;
            }
        }
        res
    }
}

/// The list index that `id` names, if it is of kind `kind`: 0 for lights,
/// 1 for props, 2 for hazards, 3 for coins, 4 for characters.
pub open spec fn index_of_kind(id: PlaceableId, kind: int) -> Option<usize> {
    match id {
        PlaceableId::Spotlight(i) => if kind == 0 { Some(i) } else { None },
        PlaceableId::Prop(i) => if kind == 1 { Some(i) } else { None },
        PlaceableId::Hazard(i) => if kind == 2 { Some(i) } else { None },
        PlaceableId::Coin(i) => if kind == 3 { Some(i) } else { None },
        PlaceableId::Npc(i) => if kind == 4 { Some(i) } else { None },
        PlaceableId::Tile(_) => None,
    }
}

/// The indices of kind `kind` among `ids`, in order.
pub open spec fn picked(ids: Seq<PlaceableId>, kind: int) -> Seq<usize>
    decreases ids.len(),
{
    if ids.len() == 0 {
        Seq::empty()
    } else {
        let r = picked(ids.drop_last(), kind);
        match index_of_kind(ids.last(), kind) {
            Some(i) => r.push(i),
            None => r,
        }
    }
}

/// The tile positions among `ids`, in order.
pub open spec fn picked_tiles(ids: Seq<PlaceableId>) -> Seq<IVec2>
    decreases ids.len(),
{
    if ids.len() == 0 {
        Seq::empty()
    } else {
        let r = picked_tiles(ids.drop_last());
        match ids.last() {
            PlaceableId::Tile(p) => r.push(p),
            _ => r,
        }
    }
}

/// The map with the cells at `ps` turned to air, one after the other.
pub open spec fn cleared(m: TileMapView, ps: Seq<IVec2>) -> TileMapView
    decreases ps.len(),
{
    if ps.len() == 0 {
        m
    } else {
        let m2 = cleared(m, ps.drop_last());
        let p = ps.last();
        if m2.in_bounds(p.x as int, p.y as int) {
            m2.with_tile(p.x as int, p.y as int, air())
        } else {
            m2
        }
    }
}

/// The tiles taken out while clearing the cells at `ps`: each cell inside the
/// map, with the tile it held at its turn.
pub open spec fn cleared_taken(m: TileMapView, ps: Seq<IVec2>) -> Seq<(Seq<char>, IVec2)>
    decreases ps.len(),
{
    if ps.len() == 0 {
        Seq::empty()
    } else {
        let m2 = cleared(m, ps.drop_last());
        let r = cleared_taken(m, ps.drop_last());
        let p = ps.last();
        match m2.tile_at(p.x as int, p.y as int) {
            Some(t) => r.push((t, p)),
            None => r,
        }
    }
}

impl Room {
    /// What `remove_blocks` needs: every index in range when its turn comes, and
    /// the tile images choosable after each cleared cell.
    pub open spec fn remove_blocks_ok(self, ids: Seq<PlaceableId>, layer: ActiveLayer, assets: Assets) -> bool {
        let m = self.spec_layer(layer).tiles;
        let ps = picked_tiles(ids);
        &&& m.well_formed()
        &&& remove_ok(self.spotlights@.len() as int, removal_order(picked(ids, 0)))
        &&& remove_ok(self.spec_layer(layer).props@.len() as int, removal_order(picked(ids, 1)))
        &&& remove_ok(self.hazards@.len() as int, removal_order(picked(ids, 2)))
        &&& remove_ok(self.coins@.len() as int, removal_order(picked(ids, 3)))
        &&& remove_ok(self.npcs@.len() as int, removal_order(picked(ids, 4)))
        &&& forall|k: int| 0 <= k < ps.len() ==> {
            let before = #[trigger] cleared(m@, ps.take(k));
            before.in_bounds(ps[k].x as int, ps[k].y as int) ==> cleared(m@, ps.take(k + 1)).shapable(assets)
        }
    }

    /// What `remove_blocks` leaves and returns: the lights, props, hazards, coins
    /// and characters at `ids`, each kind swap-removed from its highest index down,
    /// then the tiles in the order given, each cell turned to air; the rest of the
    /// room stays.
    pub open spec fn blocks_removed(before: Room, after: Room, ids: Seq<PlaceableId>, layer: ActiveLayer, removed: Seq<Placeable>) -> bool {
        &&& ({
            let (s_left, s_taken) = remove_all(before.spotlights@, removal_order(picked(ids, 0)));
            let (p_left, p_taken) = remove_all(before.spec_layer(layer).props@, removal_order(picked(ids, 1)));
            let (h_left, h_taken) = remove_all(before.hazards@, removal_order(picked(ids, 2)));
            let (c_left, c_taken) = remove_all(before.coins@, removal_order(picked(ids, 3)));
            let (n_left, n_taken) = remove_all(before.npcs@, removal_order(picked(ids, 4)));
            let t_taken = cleared_taken(before.spec_layer(layer).tiles@, picked_tiles(ids));
            let front = s_taken.map_values(|s: SpotlightSource| Placeable::Spotlight(s))
                + p_taken.map_values(|p: Prop| Placeable::Prop(p))
                + h_taken.map_values(|h: Hazard| Placeable::Hazard(h))
                + c_taken.map_values(|c: Coin| Placeable::Coin(c))
                + n_taken.map_values(|n: Npc| Placeable::Npc(n));
            &&& after.spotlights@ == s_left
            &&& after.spec_layer(layer).props@ == p_left
            &&& after.hazards@ == h_left
            &&& after.coins@ == c_left
            &&& after.npcs@ == n_left
            &&& after.spec_layer(layer).tiles@ == cleared(before.spec_layer(layer).tiles@, picked_tiles(ids))
            &&& after.spec_layer(layer).tiles.well_formed()
            &&& after.layers == before.layers.with_layer(layer, after.spec_layer(layer))
            &&& removed.len() == front.len() + t_taken.len()
            &&& removed.take(front.len() as int) == front
            &&& forall|k: int| 0 <= k < t_taken.len() ==> match #[trigger] removed[front.len() + k] {
                Placeable::Tile((t, p)) => t@ == t_taken[k].0 && p == t_taken[k].1,
                _ => false,
            }
        })
        &&& after.drill_allowed == before.drill_allowed
        &&& after.grid == before.grid
        &&& after.size == before.size
        &&& after.spawn_point == before.spawn_point
        &&& after.transitions == before.transitions
    }

    /// Takes the things at `blocks` out of the room (props and tiles from `layer`)
    /// and returns them: the lights, props, hazards, coins and characters, each
    /// kind swap-removed from its highest index down, then the tiles in the order
    /// given, each cell turned to air.
    pub fn remove_blocks(&mut self, blocks: &Vec<PlaceableId>, layer: ActiveLayer, assets: &Assets) -> (removed: Vec<Placeable>)
        requires
            old(self).remove_blocks_ok(blocks@, layer, *assets),
        ensures
            Room::blocks_removed(*old(self), *final(self), blocks@, layer, removed@),
    {
        let ghost ids = blocks@;
        let mut spotlights: Vec<usize> = Vec::new();
        let mut props: Vec<usize> = Vec::new();
        let mut hazards: Vec<usize> = Vec::new();
        let mut coins: Vec<usize> = Vec::new();
        let mut npcs: Vec<usize> = Vec::new();
        let mut tiles: Vec<IVec2> = Vec::new();
        let n = blocks.len();
        let mut i: usize = 0;
        while i < n
            invariant
                n == ids.len(),
                ids == blocks@,
                i <= n,
                spotlights@ == picked(ids.take(i as int), 0),
                props@ == picked(ids.take(i as int), 1),
                hazards@ == picked(ids.take(i as int), 2),
                coins@ == picked(ids.take(i as int), 3),
                npcs@ == picked(ids.take(i as int), 4),
                tiles@ == picked_tiles(ids.take(i as int)),
            decreases n - i,
        {
            proof {
                let t = ids.take(i + 1);
                assert(t.drop_last() =~= ids.take(i as int));
                assert(t.last() == ids[i as int]);
            }
            match blocks[i] {
                PlaceableId::Tile(pos) => tiles.push(pos),
                PlaceableId::Hazard(id) => hazards.push(id),
                PlaceableId::Prop(id) => props.push(id),
                PlaceableId::Coin(id) => coins.push(id),
                PlaceableId::Npc(id) => npcs.push(id),
                PlaceableId::Spotlight(id) => spotlights.push(id),
            }
            i += 1;
        }
        proof {
            assert(ids.take(n as int) =~= ids);
        }

        let s_taken = take_indices(&mut self.spotlights, &spotlights);
        let h_taken = take_indices(&mut self.hazards, &hazards);
        let c_taken = take_indices(&mut self.coins, &coins);
        let n_taken = take_indices(&mut self.npcs, &npcs);
        let ghost mid = *self;
        assert(mid.spec_layer(layer) == old(self).spec_layer(layer));
        let l = self.layers.get_mut(layer);
        let p_taken = take_indices(&mut l.props, &props);

        let mut t_taken: Vec<Placeable> = Vec::new();
        let ghost props_after = l.props;
        let ghost m0 = l.tiles@;
        let ghost ps = tiles@;
        let nt = tiles.len();
        let mut k: usize = 0;
        while k < nt
            invariant
                nt == ps.len(),
                ps == tiles@,
                k <= nt,
                m0 == old(self).spec_layer(layer).tiles@,
                l.props == props_after,
                l.tiles.well_formed(),
                l.tiles@ == cleared(m0, ps.take(k as int)),
                forall|j: int| 0 <= j < ps.len() ==> {
                    let before = #[trigger] cleared(m0, ps.take(j));
                    before.in_bounds(ps[j].x as int, ps[j].y as int) ==> cleared(m0, ps.take(j + 1)).shapable(*assets)
                },
                t_taken@.len() == cleared_taken(m0, ps.take(k as int)).len(),
                forall|j: int| 0 <= j < t_taken@.len() ==> match #[trigger] t_taken@[j] {
                    Placeable::Tile((t, p)) => t@ == cleared_taken(m0, ps.take(k as int))[j].0
                        && p == cleared_taken(m0, ps.take(k as int))[j].1,
                    _ => false,
                },
            decreases nt - k,
        {
            let pos = tiles[k];
            proof {
                let t = ps.take(k + 1);
                assert(t.drop_last() =~= ps.take(k as int));
                assert(t.last() == pos);
                assert(cleared(m0, ps.take(k as int)) == l.tiles@);
            }
            let ghost taken_before = cleared_taken(m0, ps.take(k as int));
            match l.tiles.get_tile_isize(pos) {
                Some(tile) => {
                    t_taken.push(Placeable::Tile((tile.clone(), pos)));
                },
                None => {},
            }
            proof {
                assert(cleared_taken(m0, ps.take(k + 1)) == match cleared(m0, ps.take(k as int)).tile_at(pos.x as int, pos.y as int) {
                    Some(t) => taken_before.push((t, pos)),
                    None => taken_before,
                });
            }
            l.tiles.set_tile_isize(pos, air_tile(), assets);
            k += 1;
        }
        proof {
            assert(ps.take(nt as int) =~= ps);
        }

        let mut removed: Vec<Placeable> = Vec::new();
        proof {
            assert(removed@ =~= Seq::<Placeable>::empty());
        }
        let ghost f0 = removed@;
        let mut s_taken = s_taken;
        let ghost sv = s_taken@;
        let mut j: usize = 0;
        let ns = s_taken.len();
        while j < ns
            invariant
                ns == sv.len(),
                s_taken@ == sv,
                j <= ns,
                removed@ == sv.take(j as int).map_values(|s: SpotlightSource| Placeable::Spotlight(s)),
            decreases ns - j,
        {
            removed.push(Placeable::Spotlight(s_taken[j]));
            proof {
                assert(removed@ =~= sv.take(j + 1).map_values(|s: SpotlightSource| Placeable::Spotlight(s)));
            }
            j += 1;
        }
        proof {
            assert(sv.take(ns as int) =~= sv);
        }
        let ghost base = removed@;
        let ghost pv = p_taken@;
        let mut p_taken = p_taken;
        let np = p_taken.len();
        let mut j: usize = 0;
        while j < np
            invariant
                p_taken@.len() == pv.len() - j,
                np == pv.len(),
                j <= np,
                forall|q: int| 0 <= q < p_taken@.len() ==> p_taken@[q] == pv[q + j],
                removed@ == base + pv.take(j as int).map_values(|p: Prop| Placeable::Prop(p)),
            decreases np - j,
        {
            let e = p_taken.remove(0);
            removed.push(Placeable::Prop(e));
            proof {
                assert(removed@ =~= base + pv.take(j + 1).map_values(|p: Prop| Placeable::Prop(p)));
            }
            j += 1;
        }
        proof {
            assert(pv.take(np as int) =~= pv);
        }
        let ghost base = removed@;
        let ghost hv = h_taken@;
        let mut h_taken = h_taken;
        let nh = h_taken.len();
        let mut j: usize = 0;
        while j < nh
            invariant
                h_taken@.len() == hv.len() - j,
                nh == hv.len(),
                j <= nh,
                forall|q: int| 0 <= q < h_taken@.len() ==> h_taken@[q] == hv[q + j],
                removed@ == base + hv.take(j as int).map_values(|h: Hazard| Placeable::Hazard(h)),
            decreases nh - j,
        {
            let e = h_taken.remove(0);
            removed.push(Placeable::Hazard(e));
            proof {
                assert(removed@ =~= base + hv.take(j + 1).map_values(|h: Hazard| Placeable::Hazard(h)));
            }
            j += 1;
        }
        proof {
            assert(hv.take(nh as int) =~= hv);
        }
        let ghost base = removed@;
        let ghost cv = c_taken@;
        let mut c_taken = c_taken;
        let nc = c_taken.len();
        let mut j: usize = 0;
        while j < nc
            invariant
                c_taken@.len() == cv.len() - j,
                nc == cv.len(),
                j <= nc,
                forall|q: int| 0 <= q < c_taken@.len() ==> c_taken@[q] == cv[q + j],
                removed@ == base + cv.take(j as int).map_values(|c: Coin| Placeable::Coin(c)),
            decreases nc - j,
        {
            let e = c_taken.remove(0);
            removed.push(Placeable::Coin(e));
            proof {
                assert(removed@ =~= base + cv.take(j + 1).map_values(|c: Coin| Placeable::Coin(c)));
            }
            j += 1;
        }
        proof {
            assert(cv.take(nc as int) =~= cv);
        }
        let ghost base = removed@;
        let ghost nv = n_taken@;
        let mut n_taken = n_taken;
        let nn = n_taken.len();
        let mut j: usize = 0;
        while j < nn
            invariant
                n_taken@.len() == nv.len() - j,
                nn == nv.len(),
                j <= nn,
                forall|q: int| 0 <= q < n_taken@.len() ==> n_taken@[q] == nv[q + j],
                removed@ == base + nv.take(j as int).map_values(|n: Npc| Placeable::Npc(n)),
            decreases nn - j,
        {
            let e = n_taken.remove(0);
            removed.push(Placeable::Npc(e));
            proof {
                assert(removed@ =~= base + nv.take(j + 1).map_values(|n: Npc| Placeable::Npc(n)));
            }
            j += 1;
        }
        proof {
            assert(nv.take(nn as int) =~= nv);
        }
        let ghost front = removed@;
        removed.append(&mut t_taken);
        proof {
            let s_part = sv.map_values(|s: SpotlightSource| Placeable::Spotlight(s));
            let p_part = pv.map_values(|p: Prop| Placeable::Prop(p));
            let h_part = hv.map_values(|h: Hazard| Placeable::Hazard(h));
            let c_part = cv.map_values(|c: Coin| Placeable::Coin(c));
            let n_part = nv.map_values(|n: Npc| Placeable::Npc(n));
            assert(front =~= s_part + p_part + h_part + c_part + n_part);
            assert(removed@.take(front.len() as int) =~= front);
            assert(self.spotlights@ == remove_all(old(self).spotlights@, removal_order(picked(ids, 0))).0);
            assert(self.hazards@ == remove_all(old(self).hazards@, removal_order(picked(ids, 2))).0);
            assert(self.spec_layer(layer).props@ == remove_all(old(self).spec_layer(layer).props@, removal_order(picked(ids, 1))).0);
            assert(self.spec_layer(layer).tiles@ == cleared(old(self).spec_layer(layer).tiles@, picked_tiles(ids)));
            assert(removed@.len() == front.len() + cleared_taken(old(self).spec_layer(layer).tiles@, picked_tiles(ids)).len());
        }
        removed
    }
}

pub open spec fn delta_fits_world(a: Vec2, b: Vec2) -> bool {
    fits(a.x - b.x) && fits(a.y - b.y)
}

/// On the unit grid, the cell `g` starts at `g` world units.
pub proof fn lemma_unit_grid_to_world(grid: Grid, g: IVec2)
    requires
        grid.is_unit(),
        fits(g.x * COORD_ONE * COORD_ONE),
        fits(g.y * COORD_ONE * COORD_ONE),
    ensures
        grid.grid_to_world_fits(g),
        grid.spec_grid_to_world(g) == (Vec2 { x: (g.x * COORD_ONE) as i64, y: (g.y * COORD_ONE) as i64 }),
{
    assert(fits(g.x * COORD_ONE) && fits(g.y * COORD_ONE)) by (nonlinear_arith)
        requires
            fits(g.x * COORD_ONE * COORD_ONE),
            fits(g.y * COORD_ONE * COORD_ONE),
    ;
    vstd::arithmetic::div_mod::lemma_div_multiples_vanish((g.x * COORD_ONE) as int, COORD_ONE as int);
    vstd::arithmetic::div_mod::lemma_div_multiples_vanish((g.y * COORD_ONE) as int, COORD_ONE as int);
    assert((g.x * COORD_ONE - 0) * COORD_ONE == COORD_ONE * (g.x * COORD_ONE)) by (nonlinear_arith);
    assert((g.y * COORD_ONE - 0) * COORD_ONE == COORD_ONE * (g.y * COORD_ONE)) by (nonlinear_arith);
}

/// The directions in which a hazard may attach to a solid neighbour, in the order
/// they are tried: below, right, left, above.
pub open spec fn hazard_dir(k: int) -> IVec2 {
    if k == 0 {
        IVec2 { x: 0, y: -1isize }
    } else if k == 1 {
        IVec2 { x: 1, y: 0 }
    } else if k == 2 {
        IVec2 { x: -1isize, y: 0 }
    } else {
        IVec2 { x: 0, y: 1 }
    }
}

/// Whether the main layer has a solid tile next to `cell` in direction `d`.
pub open spec fn solid_beside(room: Room, cell: IVec2, d: IVec2) -> bool {
    match room.layers.main.tiles@.tile_at(cell.x + d.x, cell.y + d.y) {
        Some(t) => t != air(),
        None => false,
    }
}

/// How far the point `offset` inside a cell (in `COORD_ONE`ths) is from the middle
/// of the cell's side in direction `d`, squared.
pub open spec fn side_distance_sq(d: IVec2, offset: Vec2) -> int {
    let tx = d.x * (COORD_ONE / 2) + COORD_ONE / 2 - offset.x;
    let ty = d.y * (COORD_ONE / 2) + COORD_ONE / 2 - offset.y;
    tx * tx + ty * ty
}

/// Among the first `k` directions with a solid neighbour, the first one nearest to
/// `offset`.
pub open spec fn nearest_solid(room: Room, cell: IVec2, offset: Vec2, k: int) -> Option<IVec2>
    decreases k,
{
    if k <= 0 {
        None
    } else {
        let prev = nearest_solid(room, cell, offset, k - 1);
        let d = hazard_dir(k - 1);
        if !solid_beside(room, cell, d) {
            prev
        } else {
            match prev {
                Some(p) => if side_distance_sq(d, offset) < side_distance_sq(p, offset) { Some(d) } else { prev },
                None => Some(d),
            }
        }
    }
}

/// The direction a hazard placed at `pos` points to: away from the nearest solid
/// neighbour of its cell, or up when it has none.
pub open spec fn hazard_direction(room: Room, pos: Vec2) -> Vec2 {
    let cell = room.grid.spec_cell(pos);
    let d = match nearest_solid(room, cell, room.grid.spec_cell_offset(pos), 4) {
        Some(d) => d,
        None => IVec2 { x: 0, y: -1isize },
    };
    Vec2 { x: (-d.x) as i64, y: (-d.y) as i64 }
}

/// The box of a hazard pointing to `dir` inside a cell, in `COORD_ONE`ths of the
/// cell: 0.8 wide and 0.4 deep, against the side opposite to `dir`.
pub open spec fn hazard_box(dir: Vec2) -> Aabb2 {
    let px = COORD_ONE / 2 - dir.x * (COORD_ONE / 2);
    let py = COORD_ONE / 2 - dir.y * (COORD_ONE / 2);
    let h = 2 * COORD_ONE / 5;
    Aabb2::spec_from_corners(
        Vec2 { x: (px - h * dir.y) as i64, y: (py - h * dir.x) as i64 },
        Vec2 { x: (px + h * dir.y + h * dir.x) as i64, y: (py + h * dir.y + h * dir.x) as i64 },
    )
}

/// The hazard collider: the box in cell fractions scaled to the grid's cell size
/// (rounded down) and moved to the cell at `origin`.
pub open spec fn hazard_collider(b: Aabb2, cell_size: Vec2, origin: Vec2) -> Aabb2 {
    let min = Vec2 {
        x: (origin.x + b.min.x * cell_size.x / (COORD_ONE as int)) as i64,
        y: (origin.y + b.min.y * cell_size.y / (COORD_ONE as int)) as i64,
    };
    Aabb2 {
        min,
        max: Vec2 {
            x: (min.x + (b.max.x - b.min.x) * cell_size.x / (COORD_ONE as int)) as i64,
            y: (min.y + (b.max.y - b.min.y) * cell_size.y / (COORD_ONE as int)) as i64,
        },
    }
}

fn unit_mul(u: i64, c: i64) -> (r: i64)
    requires
        -1 <= u <= 1,
        0 <= c <= COORD_ONE,
    ensures
        r == u * c,
{
    let r = if u > 0 {
        c
    } else if u < 0 {
        -c
    } else {
        0
    };
    assert(r == u * c) by (nonlinear_arith)
        requires
            -1 <= u <= 1,
            r == (if u > 0 { c as int } else if u < 0 { -c } else { 0 }),
    ;
    r
}

fn hazard_dir_exec(k: usize) -> (d: IVec2)
    requires
        k < 4,
    ensures
        d == hazard_dir(k as int),
{
    if k == 0 {
        IVec2 { x: 0, y: -1 }
    } else if k == 1 {
        IVec2 { x: 1, y: 0 }
    } else if k == 2 {
        IVec2 { x: -1, y: 0 }
    } else {
        IVec2 { x: 0, y: 1 }
    }
}

fn side_distance_sq_exec(d: IVec2, offset: Vec2) -> (r: i64)
    requires
        -1 <= d.x <= 1,
        -1 <= d.y <= 1,
        0 <= offset.x < COORD_ONE,
        0 <= offset.y < COORD_ONE,
    ensures
        r == side_distance_sq(d, offset),
{
    let tx = d.x as i64 * (COORD_ONE / 2) + COORD_ONE / 2 - offset.x;
    let ty = d.y as i64 * (COORD_ONE / 2) + COORD_ONE / 2 - offset.y;
    assert(-COORD_ONE <= tx <= COORD_ONE && -COORD_ONE <= ty <= COORD_ONE);
    assert(0 <= tx * tx <= COORD_ONE * COORD_ONE) by (nonlinear_arith)
        requires
            -COORD_ONE <= tx <= COORD_ONE,
    ;
    assert(0 <= ty * ty <= COORD_ONE * COORD_ONE) by (nonlinear_arith)
        requires
            -COORD_ONE <= ty <= COORD_ONE,
    ;
    tx * tx + ty * ty
}

impl Room {
    /// Whether a hazard can be placed at `pos` without overflow.
    pub open spec fn place_hazard_ok(self, pos: Vec2) -> bool {
        &&& crate::movement::grid_sane(self.grid)
        &&& -crate::movement::WORLD_LIMIT <= pos.x <= crate::movement::WORLD_LIMIT
        &&& -crate::movement::WORLD_LIMIT <= pos.y <= crate::movement::WORLD_LIMIT
        &&& self.layers.main.tiles@.well_formed()
    }

    /// Places a hazard of type `hazard` in the cell at `pos`, attached to the solid
    /// neighbour of the cell nearest to `pos` (the first of below, right, left,
    /// above on a tie) and pointing away from it, or attached below when the cell
    /// has no solid neighbour.
    pub fn place_hazard(&mut self, pos: Vec2, hazard: String)
        requires
            old(self).place_hazard_ok(pos),
        ensures
            ({
                let cell = old(self).grid.spec_cell(pos);
                let origin = old(self).grid.spec_grid_to_world(cell);
                let dir = hazard_direction(*old(self), pos);
                let h = final(self).hazards@.last();
                &&& final(self).hazards@ == old(self).hazards@.push(h)
                &&& h.direction == Some(dir)
                &&& h.collider@ == hazard_collider(hazard_box(dir), old(self).grid.cell_size, origin)
                &&& h.sprite.pos == (Aabb2 {
                    min: origin,
                    max: Vec2 { x: (origin.x + old(self).grid.cell_size.x) as i64, y: (origin.y + old(self).grid.cell_size.y) as i64 },
                })
                &&& !h.sprite.mirror_x && !h.sprite.mirror_y
                &&& h.hazard_type == hazard
            }),
            final(self).layers == old(self).layers,
            final(self).coins == old(self).coins,
            final(self).npcs == old(self).npcs,
            final(self).spotlights == old(self).spotlights,
            final(self).transitions == old(self).transitions,
            final(self).grid == old(self).grid,
            final(self).size == old(self).size,
    {
        proof {
            crate::movement::lemma_cell_in_world(pos.x as int, self.grid.cell_size.x as int, self.grid.offset.x as int);
            crate::movement::lemma_cell_in_world(pos.y as int, self.grid.cell_size.y as int, self.grid.offset.y as int);
        }
        let (cell, offset) = self.grid.world_to_grid(pos);
        let tiles = &self.layers.main.tiles;
        let mut best: Option<IVec2> = None;
        let mut best_key: i64 = 0;
        let mut k: usize = 0;
        while k < 4
            invariant
                k <= 4,
                tiles == &self.layers.main.tiles,
                tiles@.well_formed(),
                cell == self.grid.spec_cell(pos),
                offset == self.grid.spec_cell_offset(pos),
                0 <= offset.x < COORD_ONE,
                0 <= offset.y < COORD_ONE,
                -crate::movement::CELL_INDEX_LIMIT <= cell.x <= crate::movement::CELL_INDEX_LIMIT,
                -crate::movement::CELL_INDEX_LIMIT <= cell.y <= crate::movement::CELL_INDEX_LIMIT,
                best == nearest_solid(*self, cell, offset, k as int),
                best matches Some(b) ==> best_key == side_distance_sq(b, offset) && -1 <= b.x <= 1 && -1 <= b.y <= 1
                    && (b == hazard_dir(0) || b == hazard_dir(1) || b == hazard_dir(2) || b == hazard_dir(3)),
            decreases 4 - k,
        {
            let d = hazard_dir_exec(k);
            let n = IVec2 { x: cell.x + d.x, y: cell.y + d.y };
            let solid = match tiles.get_tile_isize(n) {
                Some(t) => !crate::tilemap::is_air(t),
                None => false,
            };
            if solid {
                let key = side_distance_sq_exec(d, offset);
                match best {
                    Some(_) => {
                        if key < best_key {
                            best = Some(d);
                            best_key = key;
                        }
                    },
                    None => {
                        best = Some(d);
                        best_key = key;
                    },
                }
            }
            k += 1;
        }
        let chosen = match best {
            Some(d) => d,
            None => IVec2 { x: 0, y: -1 },
        };
        assert(chosen == hazard_dir(0) || chosen == hazard_dir(1) || chosen == hazard_dir(2) || chosen == hazard_dir(3));
        let dir = Vec2 { x: -(chosen.x as i64), y: -(chosen.y as i64) };
        let half = COORD_ONE / 2;
        let h = 2 * COORD_ONE / 5;
        let px = half - unit_mul(dir.x, half);
        let py = half - unit_mul(dir.y, half);
        let hx = unit_mul(dir.x, h);
        let hy = unit_mul(dir.y, h);
        let b = Aabb2::from_corners(
            Vec2 { x: px - hy, y: py - hx },
            Vec2 { x: px + hy + hx, y: py + hy + hx },
        );
        proof {
            crate::movement::lemma_cell_start_fits(cell.x as int, self.grid.cell_size.x as int, self.grid.offset.x as int);
            crate::movement::lemma_cell_start_fits(cell.y as int, self.grid.cell_size.y as int, self.grid.offset.y as int);
        }
        let origin = self.grid.grid_to_world(cell);
        let cs = self.grid.cell_size;
        assert(0 <= b.min.x <= b.max.x <= COORD_ONE && 0 <= b.min.y <= b.max.y <= COORD_ONE);
        assert(0 <= b.min.x * cs.x <= COORD_ONE * crate::movement::CELL_LIMIT) by (nonlinear_arith)
            requires 0 <= b.min.x <= COORD_ONE, 0 <= cs.x <= crate::movement::CELL_LIMIT;
        assert(0 <= b.min.y * cs.y <= COORD_ONE * crate::movement::CELL_LIMIT) by (nonlinear_arith)
            requires 0 <= b.min.y <= COORD_ONE, 0 <= cs.y <= crate::movement::CELL_LIMIT;
        assert(0 <= (b.max.x - b.min.x) * cs.x <= COORD_ONE * crate::movement::CELL_LIMIT) by (nonlinear_arith)
            requires 0 <= b.max.x - b.min.x <= COORD_ONE, 0 <= cs.x <= crate::movement::CELL_LIMIT;
        assert(0 <= (b.max.y - b.min.y) * cs.y <= COORD_ONE * crate::movement::CELL_LIMIT) by (nonlinear_arith)
            requires 0 <= b.max.y - b.min.y <= COORD_ONE, 0 <= cs.y <= crate::movement::CELL_LIMIT;
        let min = Vec2 { x: origin.x + b.min.x * cs.x / COORD_ONE, y: origin.y + b.min.y * cs.y / COORD_ONE };
        let collider = Collider::new(Aabb2 {
            min,
            max: Vec2 { x: min.x + (b.max.x - b.min.x) * cs.x / COORD_ONE, y: min.y + (b.max.y - b.min.y) * cs.y / COORD_ONE },
        });
        let sprite = Sprite::new(Aabb2::point(origin).extend_positive(cs));
        self.hazards.push(Hazard { sprite, direction: Some(dir), collider, hazard_type: hazard });
    }
}

impl Room {
    /// Renames every tile `from` to `to` in all three layers.
    pub fn rename_tile(&mut self, from: &Tile, to: &Tile)
        ensures
            final(self).layers.background.tiles@.tiles == old(self).layers.background.tiles@.tiles.map_values(
                |t: Seq<char>| if t == from@ { to@ } else { t },
            ),
            final(self).layers.main.tiles@.tiles == old(self).layers.main.tiles@.tiles.map_values(
                |t: Seq<char>| if t == from@ { to@ } else { t },
            ),
            final(self).layers.foreground.tiles@.tiles == old(self).layers.foreground.tiles@.tiles.map_values(
                |t: Seq<char>| if t == from@ { to@ } else { t },
            ),
            final(self).layers.background.tiles.size == old(self).layers.background.tiles.size,
            final(self).layers.main.tiles.size == old(self).layers.main.tiles.size,
            final(self).layers.foreground.tiles.size == old(self).layers.foreground.tiles.size,
            final(self).layers.background.props == old(self).layers.background.props,
            final(self).layers.main.props == old(self).layers.main.props,
            final(self).layers.foreground.props == old(self).layers.foreground.props,
            final(self).hazards == old(self).hazards,
            final(self).coins == old(self).coins,
            final(self).transitions == old(self).transitions,
    {
        self.layers.background.tiles.rename_tile(from, to);
        self.layers.main.tiles.rename_tile(from, to);
        self.layers.foreground.tiles.rename_tile(from, to);
    }
}

} // verus!
