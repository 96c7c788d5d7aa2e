//! Things placed in a room: tiles, hazards, props, coins, characters and lights.
use vstd::prelude::*;
use crate::collider::Collider;
use crate::geom::{fits, Aabb2, Coord, IVec2, Vec2};
use crate::grid::Grid;
use crate::rules::Tile;
use crate::text_scroller::TextConfig;

verus! {

pub type HazardType = String;

pub type PropType = String;

pub type NpcType = String;

/// A picture placed in the world, possibly mirrored.
#[derive(Clone, Copy, Debug, PartialEq, Eq, Structural)]
pub struct Sprite {
    pub pos: Aabb2,
    pub mirror_x: bool,
    pub mirror_y: bool,
}

/// A coin to collect.
#[derive(Debug)]
pub struct Coin {
    pub collider: Collider,
    pub collected: bool,
}

/// Something that kills the player on touch, unless the player moves along `direction`.
#[derive(Debug)]
pub struct Hazard {
    pub sprite: Sprite,
    pub direction: Option<Vec2>,
    pub collider: Collider,
    pub hazard_type: HazardType,
}

/// A decoration.
#[derive(Debug)]
pub struct Prop {
    pub sprite: Sprite,
    pub prop_type: PropType,
}

/// A character to talk to.
#[derive(Debug)]
pub struct Npc {
    pub interact_collider: Collider,
    pub text: TextConfig,
    pub sprite: Sprite,
    pub npc_type: NpcType,
}

/// A light placed in a room. The other properties of a light belong to the
/// renderer; the room logic reads its position.
#[derive(Clone, Copy, Debug, PartialEq, Eq, Structural)]
pub struct SpotlightSource {
    pub position: Vec2,
}

/// The kind of a placeable thing, as offered in the editor.
#[derive(Debug)]
pub enum PlaceableType {
    Tile(Tile),
    Hazard(HazardType),
    Prop(PropType),
    Coin,
    Npc(NpcType),
    Spotlight(SpotlightSource),
}

/// Where a placed thing is: a tile position or an index in its list.
#[derive(Clone, Copy, Debug, PartialEq, Eq, Hash, Structural)]
pub enum PlaceableId {
    Tile(IVec2),
    Hazard(usize),
    Prop(usize),
    Coin(usize),
    Npc(usize),
    Spotlight(usize),
}

/// A placed thing, taken out of its room.
#[derive(Debug)]
pub enum Placeable {
    Tile((Tile, IVec2)),
    Hazard(Hazard),
    Prop(Prop),
    Coin(Coin),
    Npc(Npc),
    Spotlight(SpotlightSource),
}

impl Clone for Coin {
    fn clone(&self) -> (r: Self)
        ensures
            r == *self,
    {
        Coin { collider: self.collider, collected: self.collected }
    }
}

impl Clone for Hazard {
    fn clone(&self) -> (r: Self)
        ensures
            r == *self,
    {
        Hazard {
            sprite: self.sprite,
            direction: self.direction,
            collider: self.collider,
            hazard_type: self.hazard_type.clone(),
        }
    }
}

impl Clone for Prop {
    fn clone(&self) -> (r: Self)
        ensures
            r == *self,
    {
        Prop { sprite: self.sprite, prop_type: self.prop_type.clone() }
    }
}

impl Clone for Npc {
    fn clone(&self) -> (r: Self)
        ensures
            r.interact_collider == self.interact_collider,
            r.sprite == self.sprite,
            r.npc_type == self.npc_type,
            r.text.char_delay == self.text.char_delay,
            r.text.events@ == self.text.events@,
    {
        Npc {
            interact_collider: self.interact_collider,
            text: self.text.clone(),
            sprite: self.sprite,
            npc_type: self.npc_type.clone(),
        }
    }
}

impl Clone for PlaceableType {
    fn clone(&self) -> (r: Self)
        ensures
            r == *self,
    {
        match self {
            PlaceableType::Tile(t) => PlaceableType::Tile(t.clone()),
            PlaceableType::Hazard(t) => PlaceableType::Hazard(t.clone()),
            PlaceableType::Prop(t) => PlaceableType::Prop(t.clone()),
            PlaceableType::Coin => PlaceableType::Coin,
            PlaceableType::Npc(t) => PlaceableType::Npc(t.clone()),
            PlaceableType::Spotlight(s) => PlaceableType::Spotlight(*s),
        }
    }
}

impl Sprite {
    pub fn new(pos: Aabb2) -> (s: Sprite)
        ensures
            s.pos == pos,
            !s.mirror_x,
            !s.mirror_y,
    {
        Sprite { pos, mirror_x: false, mirror_y: false }
    }

    pub fn translate(&mut self, delta: Vec2)
        requires
            old(self).pos.translate_fits(delta),
        ensures
            final(self).pos == old(self).pos.spec_translate(delta),
            final(self).mirror_x == old(self).mirror_x,
            final(self).mirror_y == old(self).mirror_y,
    {
        self.pos = self.pos.translate(delta);
    }
}

/// The move that brings point `from` to point `to`.
pub open spec fn spec_delta(from: Vec2, to: Vec2) -> Vec2 {
    Vec2 { x: (to.x - from.x) as i64, y: (to.y - from.y) as i64 }
}

pub open spec fn delta_fits(from: Vec2, to: Vec2) -> bool {
    fits(to.x - from.x) && fits(to.y - from.y)
}

impl Hazard {
    pub fn translate(&mut self, delta: Vec2)
        requires
            old(self).sprite.pos.translate_fits(delta),
            old(self).collider@.translate_fits(delta),
        ensures
            final(self).sprite.pos == old(self).sprite.pos.spec_translate(delta),
            final(self).collider@ == old(self).collider@.spec_translate(delta),
            final(self).sprite.mirror_x == old(self).sprite.mirror_x,
            final(self).sprite.mirror_y == old(self).sprite.mirror_y,
            final(self).direction == old(self).direction,
            final(self).hazard_type == old(self).hazard_type,
    {
        self.sprite.translate(delta);
        self.collider.translate(delta);
    }

    /// Moves the hazard so that its collider is centered on `pos`.
    pub fn teleport(&mut self, pos: Vec2)
        requires
            old(self).collider@.center_fits(),
            delta_fits(old(self).collider@.spec_center(), pos),
            old(self).sprite.pos.translate_fits(spec_delta(old(self).collider@.spec_center(), pos)),
            old(self).collider@.translate_fits(spec_delta(old(self).collider@.spec_center(), pos)),
        ensures
            final(self).sprite.pos == old(self).sprite.pos.spec_translate(spec_delta(old(self).collider@.spec_center(), pos)),
            final(self).collider@ == old(self).collider@.spec_translate(spec_delta(old(self).collider@.spec_center(), pos)),
            final(self).collider@.spec_center() == pos,
            final(self).sprite.mirror_x == old(self).sprite.mirror_x,
            final(self).sprite.mirror_y == old(self).sprite.mirror_y,
            final(self).direction == old(self).direction,
            final(self).hazard_type == old(self).hazard_type,
    {
        let c = self.collider.pos();
        let d = Vec2 { x: pos.x - c.x, y: pos.y - c.y };
        self.translate(d);
        proof {
            crate::collider::lemma_translate_center(old(self).collider@.min.x as int, old(self).collider@.max.x as int, d.x as int);
            crate::collider::lemma_translate_center(old(self).collider@.min.y as int, old(self).collider@.max.y as int, d.y as int);
        }
    }
}

impl Coin {
    pub fn translate(&mut self, delta: Vec2)
        requires
            old(self).collider@.translate_fits(delta),
        ensures
            final(self).collider@ == old(self).collider@.spec_translate(delta),
            final(self).collected == old(self).collected,
    {
        self.collider.translate(delta);
    }

    /// Moves the coin so that it is centered on `pos`.
    pub fn teleport(&mut self, pos: Vec2)
        requires
            old(self).collider@.center_fits(),
            delta_fits(old(self).collider@.spec_center(), pos),
            old(self).collider@.translate_fits(spec_delta(old(self).collider@.spec_center(), pos)),
        ensures
            final(self).collider@ == old(self).collider@.spec_translate(spec_delta(old(self).collider@.spec_center(), pos)),
            final(self).collider@.spec_center() == pos,
            final(self).collected == old(self).collected,
    {
        let c = self.collider.pos();
        let d = Vec2 { x: pos.x - c.x, y: pos.y - c.y };
        self.translate(d);
        proof {
            crate::collider::lemma_translate_center(old(self).collider@.min.x as int, old(self).collider@.max.x as int, d.x as int);
            crate::collider::lemma_translate_center(old(self).collider@.min.y as int, old(self).collider@.max.y as int, d.y as int);
        }
    }
}

impl Prop {
    pub fn translate(&mut self, delta: Vec2)
        requires
            old(self).sprite.pos.translate_fits(delta),
        ensures
            final(self).sprite.pos == old(self).sprite.pos.spec_translate(delta),
            final(self).sprite.mirror_x == old(self).sprite.mirror_x,
            final(self).sprite.mirror_y == old(self).sprite.mirror_y,
            final(self).prop_type == old(self).prop_type,
    {
        self.sprite.translate(delta);
    }

    /// Moves the prop so that its picture is centered on `pos`.
    pub fn teleport(&mut self, pos: Vec2)
        requires
            old(self).sprite.pos.center_fits(),
            delta_fits(old(self).sprite.pos.spec_center(), pos),
            old(self).sprite.pos.translate_fits(spec_delta(old(self).sprite.pos.spec_center(), pos)),
        ensures
            final(self).sprite.pos == old(self).sprite.pos.spec_translate(spec_delta(old(self).sprite.pos.spec_center(), pos)),
            final(self).sprite.pos.spec_center() == pos,
            final(self).sprite.mirror_x == old(self).sprite.mirror_x,
            final(self).sprite.mirror_y == old(self).sprite.mirror_y,
            final(self).prop_type == old(self).prop_type,
    {
        let c = self.sprite.pos.center();
        let d = Vec2 { x: pos.x - c.x, y: pos.y - c.y };
        self.translate(d);
        proof {
            crate::collider::lemma_translate_center(old(self).sprite.pos.min.x as int, old(self).sprite.pos.max.x as int, d.x as int);
            crate::collider::lemma_translate_center(old(self).sprite.pos.min.y as int, old(self).sprite.pos.max.y as int, d.y as int);
        }
    }
}

impl Npc {
    pub fn translate(&mut self, delta: Vec2)
        requires
            old(self).sprite.pos.translate_fits(delta),
            old(self).interact_collider@.translate_fits(delta),
        ensures
            final(self).interact_collider@ == old(self).interact_collider@.spec_translate(delta),
            final(self).sprite.pos == old(self).sprite.pos.spec_translate(delta),
            final(self).sprite.mirror_x == old(self).sprite.mirror_x,
            final(self).sprite.mirror_y == old(self).sprite.mirror_y,
            final(self).npc_type == old(self).npc_type,
            final(self).text == old(self).text,
    {
        self.interact_collider.translate(delta);
        self.sprite.translate(delta);
    }
}

impl PlaceableId {
    /// Whether the thing at this place is of the kind `ty`.
    pub open spec fn spec_fits_type(self, ty: PlaceableType) -> bool {
        match (self, ty) {
            (PlaceableId::Tile(_), PlaceableType::Tile(_)) => true,
            (PlaceableId::Hazard(_), PlaceableType::Hazard(_)) => true,
            (PlaceableId::Prop(_), PlaceableType::Prop(_)) => true,
            (PlaceableId::Coin(_), PlaceableType::Coin) => true,
            (PlaceableId::Npc(_), PlaceableType::Npc(_)) => true,
            (PlaceableId::Spotlight(_), PlaceableType::Spotlight(_)) => true,
            _ => false,
        }
    }

    pub fn fits_type(&self, ty: &PlaceableType) -> (b: bool)
        ensures
            b == self.spec_fits_type(*ty),
    {
        match (self, ty) {
            (PlaceableId::Tile(_), PlaceableType::Tile(_)) => true,
            (PlaceableId::Hazard(_), PlaceableType::Hazard(_)) => true,
            (PlaceableId::Prop(_), PlaceableType::Prop(_)) => true,
            (PlaceableId::Coin(_), PlaceableType::Coin) => true,
            (PlaceableId::Npc(_), PlaceableType::Npc(_)) => true,
            (PlaceableId::Spotlight(_), PlaceableType::Spotlight(_)) => true,
            _ => false,
        }
    }
}

/// Half a world unit: the reach of a light's handle in the editor.
pub const LIGHT_HANDLE: Coord = 8000;

/// Rounds `a / b` to the nearest integer, halves away from zero.
pub open spec fn round_div(a: int, b: int) -> int {
    if a >= 0 {
        (2 * a + b) / (2 * b)
    } else {
        -((-2 * a + b) / (2 * b))
    }
}

fn exec_round_div(a: i64, b: i64) -> (r: i64)
    requires
        b > 0,
        -0x1000_0000_0000_0000 <= a <= 0x1000_0000_0000_0000,
        b <= 0x1000_0000_0000_0000,
    ensures
        r == round_div(a as int, b as int),
{
    if a >= 0 {
        proof {
            vstd::arithmetic::div_mod::lemma_div_is_ordered_by_denominator((2 * a + b) as int, 1, (2 * b) as int);
        }
        (2 * a + b) / (2 * b)
    } else {
        proof {
            vstd::arithmetic::div_mod::lemma_div_is_ordered_by_denominator((-2 * a + b) as int, 1, (2 * b) as int);
        }
        -((-2 * a + b) / (2 * b))
    }
}

impl Placeable {
    /// The kind of the thing.
    pub open spec fn spec_get_type(self) -> PlaceableType {
        match self {
            Placeable::Tile((t, _)) => PlaceableType::Tile(t),
            Placeable::Hazard(h) => PlaceableType::Hazard(h.hazard_type),
            Placeable::Prop(p) => PlaceableType::Prop(p.prop_type),
            Placeable::Coin(_) => PlaceableType::Coin,
            Placeable::Npc(n) => PlaceableType::Npc(n.npc_type),
            Placeable::Spotlight(s) => PlaceableType::Spotlight(s),
        }
    }

    pub fn get_type(&self) -> (t: PlaceableType)
        ensures
            t == self.spec_get_type(),
    {
        match self {
            Placeable::Tile((tile, _)) => PlaceableType::Tile(tile.clone()),
            Placeable::Hazard(hazard) => PlaceableType::Hazard(hazard.hazard_type.clone()),
            Placeable::Prop(prop) => PlaceableType::Prop(prop.prop_type.clone()),
            Placeable::Coin(_) => PlaceableType::Coin,
            Placeable::Npc(npc) => PlaceableType::Npc(npc.npc_type.clone()),
            Placeable::Spotlight(spotlight) => PlaceableType::Spotlight(*spotlight),
        }
    }

    /// Whether `bottom_left` stays in range.
    pub open spec fn bottom_left_fits(self, grid: Grid) -> bool {
        match self {
            Placeable::Tile((_, pos)) => grid.grid_to_world_fits(pos),
            _ => true,
        }
    }

    /// The bottom-left corner of the thing.
    pub open spec fn spec_bottom_left(self, grid: Grid) -> Vec2 {
        match self {
            Placeable::Tile((_, pos)) => grid.spec_grid_to_world(pos),
            Placeable::Hazard(h) => h.collider@.min,
            Placeable::Prop(p) => p.sprite.pos.min,
            Placeable::Coin(c) => c.collider@.min,
            Placeable::Npc(n) => n.sprite.pos.min,
            Placeable::Spotlight(s) => s.position,
        }
    }

    pub fn bottom_left(&self, grid: &Grid) -> (p: Vec2)
        requires
            self.bottom_left_fits(*grid),
        ensures
            p == self.spec_bottom_left(*grid),
    {
        match self {
            Placeable::Tile((_, pos)) => grid.grid_to_world(*pos),
            Placeable::Hazard(hazard) => hazard.collider.raw().bottom_left(),
            Placeable::Prop(prop) => prop.sprite.pos.bottom_left(),
            Placeable::Coin(coin) => coin.collider.raw().bottom_left(),
            Placeable::Npc(npc) => npc.sprite.pos.bottom_left(),
            Placeable::Spotlight(light) => light.position,
        }
    }

    /// The box the editor draws around the thing: a whole cell for a tile,
    /// the collider or picture otherwise, a unit square around a light.
    pub open spec fn spec_sprite(self, grid: Grid) -> Aabb2 {
        match self {
            Placeable::Tile((_, pos)) => {
                let p = grid.spec_grid_to_world(pos);
                Aabb2 { min: p, max: Vec2 { x: (p.x + grid.cell_size.x) as i64, y: (p.y + grid.cell_size.y) as i64 } }
            },
            Placeable::Hazard(h) => h.collider@,
            Placeable::Prop(p) => p.sprite.pos,
            Placeable::Coin(c) => c.collider@,
            Placeable::Npc(n) => n.sprite.pos,
            Placeable::Spotlight(s) => Aabb2 {
                min: Vec2 { x: (s.position.x - LIGHT_HANDLE) as i64, y: (s.position.y - LIGHT_HANDLE) as i64 },
                max: Vec2 { x: (s.position.x + LIGHT_HANDLE) as i64, y: (s.position.y + LIGHT_HANDLE) as i64 },
            },
        }
    }

    pub open spec fn sprite_fits(self, grid: Grid) -> bool {
        match self {
            Placeable::Tile((_, pos)) => grid.grid_to_world_fits(pos)
                && grid.spec_grid_to_world(pos).add_fits(grid.cell_size),
            Placeable::Spotlight(s) => fits(s.position.x - LIGHT_HANDLE) && fits(s.position.y - LIGHT_HANDLE)
                && fits(s.position.x + LIGHT_HANDLE) && fits(s.position.y + LIGHT_HANDLE),
            _ => true,
        }
    }

    pub fn sprite(&self, grid: &Grid) -> (b: Aabb2)
        requires
            self.sprite_fits(*grid),
        ensures
            b == self.spec_sprite(*grid),
    {
        match self {
            Placeable::Tile((_, pos)) => {
                let p = grid.grid_to_world(*pos);
                Aabb2::point(p).extend_positive(grid.cell_size)
            },
            Placeable::Hazard(hazard) => hazard.collider.raw(),
            Placeable::Prop(prop) => prop.sprite.pos,
            Placeable::Coin(coin) => coin.collider.raw(),
            Placeable::Npc(npc) => npc.sprite.pos,
            Placeable::Spotlight(light) => Aabb2::point(light.position).extend_uniform(LIGHT_HANDLE),
        }
    }

    /// Whether `translate(offset, grid)` stays in range.
    pub open spec fn translate_fits(self, offset: Vec2, grid: Grid) -> bool {
        match self {
            Placeable::Tile((_, pos)) => {
                &&& grid.cell_size.x > 0
                &&& grid.cell_size.y > 0
                &&& grid.cell_size.x <= 0x1000_0000_0000_0000
                &&& grid.cell_size.y <= 0x1000_0000_0000_0000
                &&& -0x1000_0000_0000_0000 <= offset.x <= 0x1000_0000_0000_0000
                &&& -0x1000_0000_0000_0000 <= offset.y <= 0x1000_0000_0000_0000
                &&& isize::MIN <= pos.x + round_div(offset.x as int, grid.cell_size.x as int) <= isize::MAX
                &&& isize::MIN <= pos.y + round_div(offset.y as int, grid.cell_size.y as int) <= isize::MAX
            },
            Placeable::Hazard(h) => h.sprite.pos.translate_fits(offset) && h.collider@.translate_fits(offset),
            Placeable::Prop(p) => p.sprite.pos.translate_fits(offset),
            Placeable::Coin(c) => c.collider@.translate_fits(offset),
            Placeable::Npc(n) => n.sprite.pos.translate_fits(offset) && n.interact_collider@.translate_fits(offset),
            Placeable::Spotlight(s) => s.position.add_fits(offset),
        }
    }

    /// The thing moved by `offset`, as `translate` moves it.
    pub open spec fn spec_translated(self, offset: Vec2, grid: Grid) -> Placeable {
        match self {
            Placeable::Tile((t, p)) => Placeable::Tile((t, IVec2 {
                x: (p.x + round_div(offset.x as int, grid.cell_size.x as int)) as isize,
                y: (p.y + round_div(offset.y as int, grid.cell_size.y as int)) as isize,
            })),
            Placeable::Hazard(h) => Placeable::Hazard(Hazard {
                sprite: Sprite { pos: h.sprite.pos.spec_translate(offset), ..h.sprite },
                collider: Collider::spec_new(h.collider@.spec_translate(offset)),
                ..h
            }),
            Placeable::Prop(p) => Placeable::Prop(Prop { sprite: Sprite { pos: p.sprite.pos.spec_translate(offset), ..p.sprite }, ..p }),
            Placeable::Coin(c) => Placeable::Coin(Coin { collider: Collider::spec_new(c.collider@.spec_translate(offset)), ..c }),
            Placeable::Npc(n) => Placeable::Npc(Npc {
                sprite: Sprite { pos: n.sprite.pos.spec_translate(offset), ..n.sprite },
                interact_collider: Collider::spec_new(n.interact_collider@.spec_translate(offset)),
                ..n
            }),
            Placeable::Spotlight(s) => Placeable::Spotlight(SpotlightSource {
                position: Vec2 { x: (s.position.x + offset.x) as i64, y: (s.position.y + offset.y) as i64 },
            }),
        }
    }

    /// Moves the thing by `offset`; a tile moves by the offset in whole cells,
    /// rounded to the nearest cell.
    pub fn translate(&mut self, offset: Vec2, grid: &Grid)
        requires
            old(self).translate_fits(offset, *grid),
        ensures
            match (*old(self), *final(self)) {
                (Placeable::Tile((t0, p0)), Placeable::Tile((t1, p1))) => t1 == t0
                    && p1.x == p0.x + round_div(offset.x as int, grid.cell_size.x as int)
                    && p1.y == p0.y + round_div(offset.y as int, grid.cell_size.y as int),
                (Placeable::Hazard(h0), Placeable::Hazard(h1)) => h1.sprite.pos == h0.sprite.pos.spec_translate(offset)
                    && h1.collider@ == h0.collider@.spec_translate(offset)
                    && h1.sprite.mirror_x == h0.sprite.mirror_x && h1.sprite.mirror_y == h0.sprite.mirror_y
                    && h1.direction == h0.direction && h1.hazard_type == h0.hazard_type,
                (Placeable::Prop(p0), Placeable::Prop(p1)) => p1.sprite.pos == p0.sprite.pos.spec_translate(offset)
                    && p1.sprite.mirror_x == p0.sprite.mirror_x && p1.sprite.mirror_y == p0.sprite.mirror_y
                    && p1.prop_type == p0.prop_type,
                (Placeable::Coin(c0), Placeable::Coin(c1)) => c1.collider@ == c0.collider@.spec_translate(offset)
                    && c1.collected == c0.collected,
                (Placeable::Npc(n0), Placeable::Npc(n1)) => n1.sprite.pos == n0.sprite.pos.spec_translate(offset)
                    && n1.interact_collider@ == n0.interact_collider@.spec_translate(offset)
                    && n1.sprite.mirror_x == n0.sprite.mirror_x && n1.sprite.mirror_y == n0.sprite.mirror_y
                    && n1.npc_type == n0.npc_type && n1.text == n0.text,
                (Placeable::Spotlight(s0), Placeable::Spotlight(s1)) => s1.position.x == s0.position.x + offset.x
                    && s1.position.y == s0.position.y + offset.y,
                _ => false,
            },
            *final(self) == old(self).spec_translated(offset, *grid),
    {
        match self {
            Placeable::Tile((_, pos)) => {
                let dx = exec_round_div(offset.x, grid.cell_size.x);
                let dy = exec_round_div(offset.y, grid.cell_size.y);
                let x = (pos.x as i64 + dx) as isize;
                let y = (pos.y as i64 + dy) as isize;
                *pos = IVec2 { x, y };
            },
            Placeable::Hazard(hazard) => hazard.translate(offset),
            Placeable::Prop(prop) => prop.translate(offset),
            Placeable::Coin(coin) => coin.translate(offset),
            Placeable::Npc(npc) => npc.translate(offset),
            Placeable::Spotlight(light) => {
                light.position = light.position.add(offset);
            },
        }
        proof {
            let after = *self;
            match after {
                Placeable::Hazard(h) => crate::collider::lemma_collider_is_box(h.collider),
                Placeable::Coin(c) => crate::collider::lemma_collider_is_box(c.collider),
                Placeable::Npc(n) => crate::collider::lemma_collider_is_box(n.interact_collider),
                _ => {},
            }
        }
    }
}

} // verus!
