//! What the mouse does in the room editor: placing the selected block, picking
//! blocks into the selection, and jumping to the tab of a hovered block.
use vstd::prelude::*;
use crate::assets::Assets;
use crate::editor::{redone, undone, RoomEditor, RoomEditorMode, RoomEditorTab};
use crate::geom::{Aabb2, Vec2};
use crate::placeable::{Coin, Hazard, Npc, Placeable, PlaceableId, PlaceableType, Prop, SpotlightSource};
use crate::tilemap::TileMapView;
use crate::room::same_room;
use crate::room::{hazard_direction, ActiveLayer, Room};

verus! {

/// Whether placing `block` at the world position `position` can work: the
/// position has a cell, and the room can take the block there (`prop_size` is the
/// size of a prop's picture).
pub open spec fn place_ok(room: Room, block: PlaceableType, position: Vec2, prop_size: Vec2, layer: ActiveLayer, assets: Assets) -> bool {
    let c = room.grid.spec_cell(position);
    &&& room.grid.world_to_grid_fits(position)
    &&& match block {
        PlaceableType::Tile(t) => {
            &&& room.spec_layer(layer).tiles.well_formed()
            &&& room.spec_layer(layer).tiles@.in_bounds(c.x as int, c.y as int)
                ==> room.spec_layer(layer).tiles@.with_tile(c.x as int, c.y as int, t@).shapable(assets)
        },
        PlaceableType::Hazard(_) => room.place_hazard_ok(position),
        PlaceableType::Coin => room.place_coin_fits(c),
        PlaceableType::Prop(_) => room.place_prop_fits(c, prop_size),
        _ => true,
    }
}

/// What placing `block` at `position` makes of the room: a tile goes into the
/// cell under the position (if the cell is in the room), a hazard into that cell
/// attached to its nearest solid side, a coin fills that cell, a prop is
/// centered on the corner of that cell, a light stands at the position. A
/// character cannot be placed by hand.
pub open spec fn placed(old: Room, new: Room, block: PlaceableType, position: Vec2, layer: ActiveLayer) -> bool {
    let c = old.grid.spec_cell(position);
    match block {
        PlaceableType::Tile(t) => {
            &&& Room::same_entities(old, new)
            &&& if old.spec_layer(layer).tiles@.in_bounds(c.x as int, c.y as int) {
                &&& new.spec_layer(layer).tiles@ == old.spec_layer(layer).tiles@.with_tile(c.x as int, c.y as int, t@)
                &&& new.layers == old.layers.with_layer(layer, new.spec_layer(layer))
                &&& new.spec_layer(layer).props == old.spec_layer(layer).props
            } else {
                new.layers == old.layers
            }
        },
        PlaceableType::Hazard(h) => {
            &&& new.hazards@.len() == old.hazards@.len() + 1
            &&& new.hazards@.drop_last() == old.hazards@
            &&& new.hazards@.last().hazard_type == h
            &&& new.hazards@.last().direction == Some(hazard_direction(old, position))
            &&& new.layers == old.layers
            &&& new.coins == old.coins
            &&& new.spotlights == old.spotlights
        },
        PlaceableType::Coin => {
            &&& new == (Room { coins: new.coins, ..old })
            &&& new.coins@.len() == old.coins@.len() + 1
            &&& new.coins@.drop_last() == old.coins@
        },
        PlaceableType::Prop(p) => {
            &&& Room::same_entities(old, new)
            &&& new.layers == old.layers.with_layer(layer, new.spec_layer(layer))
            &&& new.spec_layer(layer).tiles == old.spec_layer(layer).tiles
            &&& new.spec_layer(layer).props@.len() == old.spec_layer(layer).props@.len() + 1
            &&& new.spec_layer(layer).props@.drop_last() == old.spec_layer(layer).props@
            &&& new.spec_layer(layer).props@.last().prop_type == p
        },
        PlaceableType::Spotlight(_) => {
            &&& new == (Room { spotlights: new.spotlights, ..old })
            &&& new.spotlights@ == old.spotlights@.push(SpotlightSource { position })
        },
        PlaceableType::Npc(_) => new == old,
    }
}

impl RoomEditor {
    /// Places `block` at the world position `position` on the active layer (see
    /// `placed`); `prop_size` is the size of a prop's picture.
    pub fn action_place(&mut self, block: PlaceableType, position: Vec2, prop_size: Vec2, assets: &Assets)
        requires
            place_ok(old(self).room, block, position, prop_size, old(self).active_layer, *assets),
        ensures
            placed(old(self).room, final(self).room, block, position, old(self).active_layer),
            final(self).active_layer == old(self).active_layer,
            final(self).selection == old(self).selection,
            final(self).hovered == old(self).hovered,
            final(self).undo_stack == old(self).undo_stack,
            final(self).redo_stack == old(self).redo_stack,
            final(self).tabs == old(self).tabs,
            final(self).active_tab == old(self).active_tab,
    {
        let cell = self.room.grid.world_to_grid(position).0;
        match block {
            PlaceableType::Tile(tile) => {
                let ghost t = tile;
                self.room.place_tile(cell, tile, self.active_layer, assets);
                assert(placed(old(self).room, self.room, PlaceableType::Tile(t), position, old(self).active_layer));
            },
            PlaceableType::Hazard(hazard) => {
                self.room.place_hazard(position, hazard);
                assert(self.room.hazards@.drop_last() =~= old(self).room.hazards@);
            },
            PlaceableType::Coin => {
                self.room.place_coin(cell);
            },
            PlaceableType::Prop(prop) => {
                self.room.place_prop(cell, prop_size, prop, self.active_layer);
                assert(placed(old(self).room, self.room, PlaceableType::Prop(prop), position, old(self).active_layer));
            },
            PlaceableType::Spotlight(_) => {
                self.room.spotlights.push(SpotlightSource { position });
                assert(self.room == (Room { spotlights: self.room.spotlights, ..old(self).room }));
            },
            PlaceableType::Npc(_) => {},
        }
    }
}

/// Whether two kinds of blocks are the same: the same variant, with the same
/// name or light.
pub open spec fn same_kind(a: PlaceableType, b: PlaceableType) -> bool {
    match (a, b) {
        (PlaceableType::Tile(x), PlaceableType::Tile(y)) => x@ == y@,
        (PlaceableType::Hazard(x), PlaceableType::Hazard(y)) => x@ == y@,
        (PlaceableType::Prop(x), PlaceableType::Prop(y)) => x@ == y@,
        (PlaceableType::Coin, PlaceableType::Coin) => true,
        (PlaceableType::Npc(x), PlaceableType::Npc(y)) => x@ == y@,
        (PlaceableType::Spotlight(x), PlaceableType::Spotlight(y)) => x == y,
        _ => false,
    }
}

pub fn kind_eq(a: &PlaceableType, b: &PlaceableType) -> (r: bool)
    ensures
        r == same_kind(*a, *b),
{
    match (a, b) {
        (PlaceableType::Tile(x), PlaceableType::Tile(y)) => *x == *y,
        (PlaceableType::Hazard(x), PlaceableType::Hazard(y)) => *x == *y,
        (PlaceableType::Prop(x), PlaceableType::Prop(y)) => *x == *y,
        (PlaceableType::Coin, PlaceableType::Coin) => true,
        (PlaceableType::Npc(x), PlaceableType::Npc(y)) => *x == *y,
        (PlaceableType::Spotlight(x), PlaceableType::Spotlight(y)) => *x == *y,
        _ => false,
    }
}

/// The first of `blocks` of the same kind as `ty`.
pub open spec fn first_kind(blocks: Seq<PlaceableType>, ty: PlaceableType) -> Option<int>
    decreases blocks.len(),
{
    if blocks.len() == 0 {
        None
    } else {
        match first_kind(blocks.drop_last(), ty) {
            Some(i) => Some(i),
            None => if same_kind(blocks.last(), ty) { Some(blocks.len() - 1) } else { None },
        }
    }
}

/// What the mode of a tab becomes when it selects blocks of the kind `ty`, if it
/// offers them: a tab of blocks selects the first of that kind, a tab of lights
/// takes the light.
pub open spec fn tab_select(mode: RoomEditorMode, ty: PlaceableType) -> Option<RoomEditorMode> {
    match mode {
        RoomEditorMode::Block { blocks, selected } => match first_kind(blocks@, ty) {
            Some(i) => Some(RoomEditorMode::Block { blocks, selected: i as usize }),
            None => None,
        },
        RoomEditorMode::Lights { .. } => match ty {
            PlaceableType::Spotlight(s) => Some(RoomEditorMode::Lights { spotlight: s }),
            _ => None,
        },
        RoomEditorMode::Room => None,
    }
}

/// The first of the first `n` tabs that offers blocks of the kind `ty`.
pub open spec fn first_tab(tabs: Seq<RoomEditorTab>, ty: PlaceableType, n: int) -> Option<int>
    decreases n,
{
    if n <= 0 {
        None
    } else {
        match first_tab(tabs, ty, n - 1) {
            Some(k) => Some(k),
            None => if tab_select(tabs[n - 1].mode, ty) is Some { Some(n - 1) } else { None },
        }
    }
}

/// The kind of the first hovered block, if there is one in the room.
pub open spec fn hovered_kind(e: RoomEditor) -> Option<PlaceableType> {
    if e.hovered@.len() == 0 {
        None
    } else {
        match e.room.spec_get_block(e.hovered@[0], e.active_layer) {
            Some(b) => Some(b.spec_get_type()),
            None => None,
        }
    }
}

fn find_kind(blocks: &Vec<PlaceableType>, ty: &PlaceableType) -> (r: Option<usize>)
    ensures
        match first_kind(blocks@, *ty) {
            Some(i) => r == Some(i as usize),
            None => r is None,
        },
{
    let m = blocks.len();
    let mut i: usize = 0;
    while i < m
        invariant
            m == blocks@.len(),
            i <= m,
            first_kind(blocks@.take(i as int), *ty) is None,
        decreases m - i,
    {
        assert(blocks@.take(i as int + 1).drop_last() =~= blocks@.take(i as int));
        if kind_eq(&blocks[i], ty) {
            proof {
                lemma_first_kind_prefix(blocks@, *ty, i as int + 1);
            }
            return Some(i);
        }
        i += 1;
    }
    assert(blocks@.take(m as int) =~= blocks@);
    None
}

/// Once a prefix of the blocks has one of the kind, so do all of them.
proof fn lemma_first_kind_prefix(blocks: Seq<PlaceableType>, ty: PlaceableType, m: int)
    requires
        0 <= m <= blocks.len(),
        first_kind(blocks.take(m), ty) is Some,
    ensures
        first_kind(blocks, ty) == first_kind(blocks.take(m), ty),
    decreases blocks.len() - m,
{
    if m < blocks.len() {
        assert(blocks.take(m + 1).drop_last() =~= blocks.take(m));
        lemma_first_kind_prefix(blocks, ty, m + 1);
    } else {
        assert(blocks.take(m) =~= blocks);
    }
}

/// The mode of a tab after selecting the kind `ty`, and whether it could.
fn select_in(mode: RoomEditorMode, ty: &PlaceableType) -> (r: (RoomEditorMode, bool))
    ensures
        match tab_select(mode, *ty) {
            Some(m) => r == (m, true),
            None => r == (mode, false),
        },
{
    match mode {
        RoomEditorMode::Block { blocks, selected } => match find_kind(&blocks, ty) {
            Some(i) => (RoomEditorMode::Block { blocks, selected: i }, true),
            None => (RoomEditorMode::Block { blocks, selected }, false),
        },
        RoomEditorMode::Lights { spotlight } => match ty {
            PlaceableType::Spotlight(s) => (RoomEditorMode::Lights { spotlight: *s }, true),
            _ => (RoomEditorMode::Lights { spotlight }, false),
        },
        RoomEditorMode::Room => (RoomEditorMode::Room, false),
    }
}

impl RoomEditor {
    /// Switches to the first tab that offers the kind of the first hovered block,
    /// selecting that kind in it.
    pub fn goto_hovered(&mut self)
        requires
            old(self).room.spec_layer(old(self).active_layer).tiles@.well_formed(),
        ensures
            match hovered_kind(*old(self)) {
                Some(ty) => match first_tab(old(self).tabs@, ty, old(self).tabs@.len() as int) {
                    Some(k) => {
                        &&& final(self).active_tab == k
                        &&& final(self).tabs@.len() == old(self).tabs@.len()
                        &&& forall|j: int| 0 <= j < old(self).tabs@.len() && j != k ==> #[trigger] final(self).tabs@[j] == old(self).tabs@[j]
                        &&& final(self).tabs@[k].name == old(self).tabs@[k].name
                        &&& final(self).tabs@[k].hoverable == old(self).tabs@[k].hoverable
                        &&& final(self).tabs@[k].mode == tab_select(old(self).tabs@[k].mode, ty).unwrap()
                    },
                    None => final(self).tabs@ == old(self).tabs@ && final(self).active_tab == old(self).active_tab,
                },
                None => final(self).tabs@ == old(self).tabs@ && final(self).active_tab == old(self).active_tab,
            },
            final(self).room == old(self).room,
            final(self).active_layer == old(self).active_layer,
            final(self).selection == old(self).selection,
            final(self).hovered == old(self).hovered,
            final(self).undo_stack == old(self).undo_stack,
            final(self).redo_stack == old(self).redo_stack,
    {
        if self.hovered.len() == 0 {
            return;
        }
        let block = match self.room.get_block(self.hovered[0], self.active_layer) {
            Some(b) => b,
            None => {
                return;
            },
        };
        let ty = block.get_type();
        assert(ty == hovered_kind(*old(self)).unwrap());
        let n = self.tabs.len();
        let mut k: usize = 0;
        while k < n
            invariant
                n == self.tabs@.len(),
                self.tabs@ == old(self).tabs@,
                self.active_tab == old(self).active_tab,
                self.room == old(self).room,
                self.active_layer == old(self).active_layer,
                self.selection == old(self).selection,
                self.hovered == old(self).hovered,
                self.undo_stack == old(self).undo_stack,
                self.redo_stack == old(self).redo_stack,
                ty == hovered_kind(*old(self)).unwrap(),
                hovered_kind(*old(self)) is Some,
                k <= n,
                first_tab(self.tabs@, ty, k as int) is None,
            decreases n - k,
        {
            let mut tab = self.tabs.remove(k);
            let ghost old_tab = tab;
            let (mode, found) = select_in(tab.mode, &ty);
            tab.mode = mode;
            self.tabs.insert(k, tab);
            if found {
                self.active_tab = k;
                proof {
                    lemma_first_tab_prefix(old(self).tabs@, ty, k as int + 1);
                    assert(old_tab == old(self).tabs@[k as int]);
                }
                return;
            }
            assert(self.tabs@ =~= old(self).tabs@);
            k += 1;
        }
    }
}

/// Once one of the first tabs offers the kind, so do all of them, the same one.
proof fn lemma_first_tab_prefix(tabs: Seq<RoomEditorTab>, ty: PlaceableType, m: int)
    requires
        0 <= m <= tabs.len(),
        first_tab(tabs, ty, m) is Some,
    ensures
        first_tab(tabs, ty, tabs.len() as int) == first_tab(tabs, ty, m),
    decreases tabs.len() - m,
{
    if m < tabs.len() {
        lemma_first_tab_prefix(tabs, ty, m + 1);
    }
}

fn index_of(v: &Vec<PlaceableId>, id: PlaceableId) -> (r: Option<usize>)
    ensures
        match r {
            Some(i) => i < v@.len() && v@[i as int] == id,
            None => !v@.contains(id),
        },
{
    let n = v.len();
    let mut i: usize = 0;
    while i < n
        invariant
            n == v@.len(),
            i <= n,
            forall|j: int| 0 <= j < i ==> v@[j] != id,
        decreases n - i,
    {
        if v[i] == id {
            return Some(i);
        }
        i += 1;
    }
    None
}

/// The set `s` with `id` picked: taken out if it was in, else put in.
pub open spec fn toggled(s: Set<PlaceableId>, id: PlaceableId) -> Set<PlaceableId> {
    if s.contains(id) { s.remove(id) } else { s.insert(id) }
}

/// The selection before picking more: kept when adding to it, else empty.
pub open spec fn base_selection(sel: Seq<PlaceableId>, add: bool) -> Set<PlaceableId> {
    if add { sel.to_set() } else { Set::empty() }
}

impl RoomEditor {
    /// Picks `id`: it leaves the selection if it was in it and joins it if not,
    /// after the selection is forgotten unless `add` (shift held).
    pub fn toggle_select(&mut self, id: PlaceableId, add: bool)
        requires
            add ==> old(self).selection@.no_duplicates(),
        ensures
            final(self).selection@.to_set() == toggled(base_selection(old(self).selection@, add), id),
            final(self).selection@.no_duplicates(),
            final(self).room == old(self).room,
            final(self).active_layer == old(self).active_layer,
            final(self).hovered == old(self).hovered,
            final(self).undo_stack == old(self).undo_stack,
            final(self).redo_stack == old(self).redo_stack,
            final(self).tabs == old(self).tabs,
            final(self).active_tab == old(self).active_tab,
    {
        if !add {
            self.clear_selection();
            assert(self.selection@.to_set() =~= Set::empty());
        }
        let ghost before = self.selection@;
        match index_of(&self.selection, id) {
            Some(i) => {
                self.selection.remove(i);
                proof {
                    assert(before.contains(id));
                    assert forall|x: PlaceableId| self.selection@.contains(x) <==> before.to_set().remove(id).contains(x) by {
                        if self.selection@.contains(x) {
                            let j = choose|j: int| 0 <= j < self.selection@.len() && self.selection@[j] == x;
                            let oj = if j < i { j } else { j + 1 };
                            assert(before[oj] == x);
                            assert(oj != i);
                        }
                        if before.to_set().remove(id).contains(x) {
                            let j = choose|j: int| 0 <= j < before.len() && before[j] == x;
                            assert(j != i);
                            let nj = if j < i { j } else { j - 1 };
                            assert(self.selection@[nj] == x);
                        }
                    }
                    assert(self.selection@.to_set() =~= before.to_set().remove(id));
                }
            },
            None => {
                self.selection.push(id);
                proof {
                    before.lemma_push_to_set_commute(id);
                }
            },
        }
    }

    /// Picks into the selection everything the active tab hovers in the box with
    /// corners `a` and `b`, after the selection is forgotten unless `add`.
    pub fn select_rect(&mut self, a: Vec2, b: Vec2, add: bool)
        requires
            old(self).room.hovered_ok(Aabb2::spec_from_corners(a, b), old(self).active_layer),
            add ==> old(self).selection@.no_duplicates(),
        ensures
            final(self).selection@.to_set() == base_selection(old(self).selection@, add)
                + old(self).spec_get_hovered(Aabb2::spec_from_corners(a, b)).to_set(),
            final(self).selection@.no_duplicates(),
            final(self).room == old(self).room,
            final(self).active_layer == old(self).active_layer,
            final(self).hovered == old(self).hovered,
            final(self).undo_stack == old(self).undo_stack,
            final(self).redo_stack == old(self).redo_stack,
            final(self).tabs == old(self).tabs,
            final(self).active_tab == old(self).active_tab,
    {
        if !add {
            self.clear_selection();
            assert(self.selection@.to_set() =~= Set::empty());
        }
        let ghost base = self.selection@;
        assert(base.to_set() =~= base_selection(old(self).selection@, add));
        let picked = self.get_hovered(Aabb2::from_corners(a, b));
        assert((|id: PlaceableId| self.tab_hovers(id)) =~= (|id: PlaceableId| old(self).tab_hovers(id)));
        assert(picked@ == old(self).spec_get_hovered(Aabb2::spec_from_corners(a, b)));
        let n = picked.len();
        let mut i: usize = 0;
        while i < n
            invariant
                n == picked@.len(),
                i <= n,
                self.selection@.to_set() == base.to_set() + picked@.take(i as int).to_set(),
                self.selection@.no_duplicates(),
                self.room == old(self).room,
                self.active_layer == old(self).active_layer,
                self.hovered == old(self).hovered,
                self.undo_stack == old(self).undo_stack,
                self.redo_stack == old(self).redo_stack,
                self.tabs == old(self).tabs,
                self.active_tab == old(self).active_tab,
            decreases n - i,
        {
            let id = picked[i];
            let ghost sel = self.selection@;
            if index_of(&self.selection, id).is_none() {
                self.selection.push(id);
                proof {
                    sel.lemma_push_to_set_commute(id);
                }
            } else {
                assert(sel.to_set().contains(id));
            }
            assert(picked@.take(i as int + 1) =~= picked@.take(i as int).push(id));
            proof {
                picked@.take(i as int).lemma_push_to_set_commute(id);
            }
            assert(self.selection@.to_set() =~= base.to_set() + picked@.take(i as int + 1).to_set());
            i += 1;
        }
        assert(picked@.take(n as int) =~= picked@);
    }
}

/// A button of the mouse.
#[derive(Clone, Copy, Debug, PartialEq, Eq, Structural)]
pub enum MouseButton {
    Left,
    Right,
    Middle,
}

/// What dragging the mouse does in the room editor.
#[derive(Debug)]
pub enum RoomDragAction {
    /// Places the selected tile under the cursor as it moves.
    PlaceTile,
    /// Removes what the cursor hovers as it moves.
    RemoveTile,
    /// Carries `blocks`, taken out of the room where the drag started at `initial_pos`.
    MoveBlocks { blocks: Vec<Placeable>, initial_pos: Vec2 },
    /// Draws a box to select what is inside.
    RectSelection,
    /// Moves the camera, which looked at `initial_camera_pos` when the drag started.
    MoveCamera { initial_camera_pos: Vec2 },
}

/// Whether the active tab places tiles.
pub open spec fn places_tiles(e: RoomEditor) -> bool {
    e.spec_selected_block() matches Some(PlaceableType::Tile(_))
}

/// Whether a left click without shift grabs blocks: the first hovered block (and
/// the rest of the selection with it, if it is selected), unless the tab places
/// tiles and there is no selection or nothing is hovered.
pub open spec fn grabs(e: RoomEditor) -> bool {
    &&& !(places_tiles(e) && (e.selection@.len() == 0 || e.hovered@.len() == 0))
    &&& e.hovered@.len() > 0
}

/// The blocks a grab takes: the whole selection if the first hovered block is in
/// it, else that block alone.
pub open spec fn grabbed(e: RoomEditor) -> Seq<PlaceableId> {
    if e.selection@.contains(e.hovered@[0]) { e.selection@ } else { seq![e.hovered@[0]] }
}

/// How the room is remembered for undoing: the room before is on top of the undo
/// stack, and nothing can be redone.
pub open spec fn kept(old: RoomEditor, new: RoomEditor) -> bool {
    &&& new.undo_stack@.len() == old.undo_stack@.len() + 1
    &&& new.undo_stack@.drop_last() == old.undo_stack@
    &&& same_room(old.room, new.undo_stack@.last())
    &&& new.redo_stack@.len() == 0
}

impl RoomEditor {
    /// Places the block the active tab offers, if any, at the world position
    /// `position`.
    pub fn place_block(&mut self, position: Vec2, prop_size: Vec2, assets: &Assets)
        requires
            old(self).spec_selected_block() matches Some(b) ==> place_ok(old(self).room, b, position, prop_size, old(self).active_layer, *assets),
        ensures
            match old(self).spec_selected_block() {
                Some(b) => placed(old(self).room, final(self).room, b, position, old(self).active_layer),
                None => final(self).room == old(self).room,
            },
            final(self).active_layer == old(self).active_layer,
            final(self).selection == old(self).selection,
            final(self).hovered == old(self).hovered,
            final(self).undo_stack == old(self).undo_stack,
            final(self).redo_stack == old(self).redo_stack,
            final(self).tabs == old(self).tabs,
            final(self).active_tab == old(self).active_tab,
    {
        match self.selected_block() {
            Some(block) => self.action_place(block, position, prop_size, assets),
            None => {},
        }
    }

    /// A left click that did not move: picks the first hovered block (see
    /// `toggle_select`), or else forgets the selection and places the block the
    /// active tab offers.
    pub fn click_select(&mut self, add: bool, position: Vec2, prop_size: Vec2, assets: &Assets)
        requires
            add ==> old(self).selection@.no_duplicates(),
            old(self).hovered@.len() == 0 ==> (old(self).spec_selected_block() matches Some(b)
                ==> place_ok(old(self).room, b, position, prop_size, old(self).active_layer, *assets)),
        ensures
            if old(self).hovered@.len() > 0 {
                &&& final(self).selection@.to_set() == toggled(base_selection(old(self).selection@, add), old(self).hovered@[0])
                &&& final(self).room == old(self).room
            } else {
                &&& final(self).selection@.len() == 0
                &&& match old(self).spec_selected_block() {
                    Some(b) => placed(old(self).room, final(self).room, b, position, old(self).active_layer),
                    None => final(self).room == old(self).room,
                }
            },
            final(self).selection@.no_duplicates(),
            final(self).active_layer == old(self).active_layer,
            final(self).hovered == old(self).hovered,
            final(self).undo_stack == old(self).undo_stack,
            final(self).redo_stack == old(self).redo_stack,
            final(self).tabs == old(self).tabs,
            final(self).active_tab == old(self).active_tab,
    {
        if self.hovered.len() > 0 {
            let id = self.hovered[0];
            self.toggle_select(id, add);
        } else {
            self.clear_selection();
            self.place_block(position, prop_size, assets);
        }
    }

    /// Cancels the current action: the selection is forgotten, and a drag that
    /// carries blocks ends and is undone, the room before it (which the drag
    /// remembered for undoing when it took the blocks) coming back from the top of
    /// the undo stack, so that the blocks stand where they were.
    pub fn cancel(&mut self, action: &Option<RoomDragAction>) -> (ends: bool)
        ensures
            ends == (action matches Some(RoomDragAction::MoveBlocks { .. })),
            final(self).selection@.len() == 0,
            if ends && old(self).undo_stack@.len() > 0 {
                &&& final(self).room == old(self).undo_stack@.last()
                &&& final(self).undo_stack@ == old(self).undo_stack@.drop_last()
            } else {
                &&& final(self).room == old(self).room
                &&& final(self).undo_stack == old(self).undo_stack
            },
            final(self).active_layer == old(self).active_layer,
            final(self).hovered == old(self).hovered,
            final(self).redo_stack == old(self).redo_stack,
            final(self).tabs == old(self).tabs,
            final(self).active_tab == old(self).active_tab,
    {
        self.clear_selection();
        match action {
            Some(RoomDragAction::MoveBlocks { .. }) => {
                if self.undo_stack.len() > 0 {
                    let ghost stack = self.undo_stack@;
                    match self.undo_stack.pop() {
                        Some(before) => {
                            assert(before == stack.last());
                            assert(self.undo_stack@ == stack.drop_last());
                            self.room = before;
                        },
                        None => {},
                    }
                }
                true
            },
            _ => false,
        }
    }

    /// What pressing `button` with the cursor at `cursor` starts (`shift` held or
    /// not; the camera looks at `camera`). A left click places tiles when the tab
    /// does and there is no selection or nothing hovered, grabs the hovered
    /// blocks (see `grabs`), or else draws a selection box; with shift it always
    /// draws a box. A right click forgets the selection and removes tiles when the
    /// tab places them. The middle button moves the camera. Placing, removing and
    /// grabbing remember the room for undoing first.
    pub fn click_action(&mut self, button: MouseButton, shift: bool, cursor: Vec2, camera: Vec2, assets: &Assets)
        -> (r: Option<RoomDragAction>)
        requires
            button == MouseButton::Left && !shift && grabs(*old(self))
                ==> old(self).room.remove_blocks_ok(grabbed(*old(self)), old(self).active_layer, *assets),
        ensures
            final(self).active_layer == old(self).active_layer,
            final(self).hovered == old(self).hovered,
            final(self).tabs == old(self).tabs,
            final(self).active_tab == old(self).active_tab,
            match button {
                MouseButton::Left => if shift {
                    r == Some(RoomDragAction::RectSelection) && final(self).room == old(self).room
                        && final(self).selection == old(self).selection
                        && final(self).undo_stack == old(self).undo_stack && final(self).redo_stack == old(self).redo_stack
                } else if places_tiles(*old(self)) && (old(self).selection@.len() == 0 || old(self).hovered@.len() == 0) {
                    r == Some(RoomDragAction::PlaceTile) && kept(*old(self), *final(self))
                        && final(self).room == old(self).room && final(self).selection == old(self).selection
                } else if old(self).hovered@.len() > 0 {
                    &&& r matches Some(RoomDragAction::MoveBlocks { blocks, initial_pos })
                        && initial_pos == cursor
                        && Room::blocks_removed(old(self).room, final(self).room, grabbed(*old(self)), old(self).active_layer, blocks@)
                    &&& final(self).selection@ == grabbed(*old(self))
                    &&& kept(*old(self), *final(self))
                } else {
                    r == Some(RoomDragAction::RectSelection) && final(self).room == old(self).room
                        && final(self).selection == old(self).selection
                        && final(self).undo_stack == old(self).undo_stack && final(self).redo_stack == old(self).redo_stack
                },
                MouseButton::Right => {
                    &&& final(self).selection@.len() == 0
                    &&& final(self).room == old(self).room
                    &&& if places_tiles(*old(self)) {
                        r == Some(RoomDragAction::RemoveTile) && kept(*old(self), *final(self))
                    } else {
                        r is None && final(self).undo_stack == old(self).undo_stack && final(self).redo_stack == old(self).redo_stack
                    }
                },
                MouseButton::Middle => r == Some(RoomDragAction::MoveCamera { initial_camera_pos: camera })
                    && final(self).room == old(self).room && final(self).selection == old(self).selection
                    && final(self).undo_stack == old(self).undo_stack && final(self).redo_stack == old(self).redo_stack,
            },
    {
        match button {
            MouseButton::Left => {
                if shift {
                    return Some(RoomDragAction::RectSelection);
                }
                let tiles = match self.selected_block() {
                    Some(PlaceableType::Tile(_)) => true,
                    _ => false,
                };
                if tiles && (self.selection.len() == 0 || self.hovered.len() == 0) {
                    self.keep_state();
                    return Some(RoomDragAction::PlaceTile);
                }
                if self.hovered.len() == 0 {
                    return Some(RoomDragAction::RectSelection);
                }
                let id = self.hovered[0];
                let ids = match index_of(&self.selection, id) {
                    Some(_) => self.selection.clone(),
                    None => {
                        self.clear_selection();
                        self.selection.push(id);
                        let mut v: Vec<PlaceableId> = Vec::new();
                        v.push(id);
                        v
                    },
                };
                assert(ids@ =~= grabbed(*old(self)));
                assert(self.selection@ =~= grabbed(*old(self)));
                self.keep_state();
                let blocks = self.room.remove_blocks(&ids, self.active_layer, assets);
                Some(RoomDragAction::MoveBlocks { blocks, initial_pos: cursor })
            },
            MouseButton::Right => {
                self.clear_selection();
                match self.selected_block() {
                    Some(PlaceableType::Tile(_)) => {
                        self.keep_state();
                        Some(RoomDragAction::RemoveTile)
                    },
                    _ => None,
                }
            },
            MouseButton::Middle => Some(RoomDragAction::MoveCamera { initial_camera_pos: camera }),
        }
    }
}

/// `p` rounded to the nearest multiple of `s`, halves away from zero.
pub open spec fn round_to(p: int, s: int) -> int {
    let q = p / s;
    let r = p % s;
    let n = if 2 * r < s {
        q
    } else if 2 * r > s {
        q + 1
    } else if q >= 0 {
        q + 1
    } else {
        q
    };
    n * s
}

/// How far from the origin the cursor may be snapped.
pub const SNAP_LIMIT: i64 = 0x1_0000_0000_0000;

fn round_coord(p: i64, s: i64) -> (r: i64)
    requires
        1 <= s <= SNAP_LIMIT,
        -SNAP_LIMIT <= p <= SNAP_LIMIT,
    ensures
        r == round_to(p as int, s as int),
{
    let q = crate::geom::floor_div(p, s);
    let m = crate::geom::floor_mod(p, s);
    assert(-SNAP_LIMIT <= q <= SNAP_LIMIT) by (nonlinear_arith)
        requires
            1 <= s,
            -SNAP_LIMIT <= p <= SNAP_LIMIT,
            q == p / s,
    ;
    let n = if 2 * m < s {
        q
    } else if 2 * m > s {
        q + 1
    } else if q >= 0 {
        q + 1
    } else {
        q
    };
    proof {
        vstd::arithmetic::div_mod::lemma_fundamental_div_mod(p as int, s as int);
    }
    assert(p - s <= n * s <= p + s) by (nonlinear_arith)
        requires
            p == s * q + m,
            0 <= m < s,
            n == q || n == q + 1,
    ;
    n * s
}

impl RoomEditor {
    /// The cursor snapped to half cells of the room's grid, as with ctrl held:
    /// each coordinate goes to the nearest multiple of half a cell.
    pub fn snap_cursor(&self, cursor: Vec2) -> (r: Vec2)
        requires
            2 <= self.room.grid.cell_size.x <= SNAP_LIMIT,
            2 <= self.room.grid.cell_size.y <= SNAP_LIMIT,
            -SNAP_LIMIT <= cursor.x <= SNAP_LIMIT,
            -SNAP_LIMIT <= cursor.y <= SNAP_LIMIT,
        ensures
            r.x == round_to(cursor.x as int, self.room.grid.cell_size.x / 2),
            r.y == round_to(cursor.y as int, self.room.grid.cell_size.y / 2),
    {
        Vec2 {
            x: round_coord(cursor.x, self.room.grid.cell_size.x / 2),
            y: round_coord(cursor.y, self.room.grid.cell_size.y / 2),
        }
    }

    /// The cursor moved to `cursor`: what it hovers is found anew, and a drag that
    /// places tiles places the selected one there, one that removes them removes
    /// what is hovered (remembering the room for undoing).
    pub fn cursor_moved(&mut self, cursor: Vec2, action: &Option<RoomDragAction>, prop_size: Vec2, assets: &Assets)
        requires
            old(self).room.hovered_ok(Aabb2 { min: cursor, max: cursor }, old(self).active_layer),
            action matches Some(RoomDragAction::PlaceTile) ==> (old(self).spec_selected_block() matches Some(b)
                ==> place_ok(old(self).room, b, cursor, prop_size, old(self).active_layer, *assets)),
            action matches Some(RoomDragAction::RemoveTile) ==> old(self).room.remove_blocks_ok(
                old(self).spec_get_hovered(Aabb2 { min: cursor, max: cursor }), old(self).active_layer, *assets),
        ensures
            ({
                let now = old(self).spec_get_hovered(Aabb2 { min: cursor, max: cursor });
                match action {
                    Some(RoomDragAction::PlaceTile) => {
                        &&& final(self).hovered@ == now
                        &&& match old(self).spec_selected_block() {
                            Some(b) => placed(old(self).room, final(self).room, b, cursor, old(self).active_layer),
                            None => final(self).room == old(self).room,
                        }
                        &&& final(self).undo_stack == old(self).undo_stack
                        &&& final(self).redo_stack == old(self).redo_stack
                    },
                    Some(RoomDragAction::RemoveTile) => {
                        &&& final(self).hovered@.len() == 0
                        &&& exists|removed: Seq<Placeable>| Room::blocks_removed(old(self).room, final(self).room, now, old(self).active_layer, removed)
                        &&& kept(*old(self), *final(self))
                    },
                    _ => {
                        &&& final(self).hovered@ == now
                        &&& final(self).room == old(self).room
                        &&& final(self).undo_stack == old(self).undo_stack
                        &&& final(self).redo_stack == old(self).redo_stack
                    },
                }
            }),
            final(self).selection == old(self).selection,
            final(self).active_layer == old(self).active_layer,
    {
        self.hovered = self.get_hovered(Aabb2::point(cursor));
        assert((|id: PlaceableId| self.tab_hovers(id)) =~= (|id: PlaceableId| old(self).tab_hovers(id)));
        assert(self.hovered@ == old(self).spec_get_hovered(Aabb2 { min: cursor, max: cursor }));
        match action {
            Some(RoomDragAction::PlaceTile) => self.place_block(cursor, prop_size, assets),
            Some(RoomDragAction::RemoveTile) => self.remove_hovered(assets),
            _ => {},
        }
    }
}

/// The tiles after putting the tiles among the first `k` of `blocks` into `m`.
pub open spec fn tiles_after(m: TileMapView, blocks: Seq<Placeable>, k: int) -> TileMapView
    decreases k,
{
    if k <= 0 {
        m
    } else {
        let prev = tiles_after(m, blocks, k - 1);
        match blocks[k - 1] {
            Placeable::Tile((t, p)) => if prev.in_bounds(p.x as int, p.y as int) {
                prev.with_tile(p.x as int, p.y as int, t@)
            } else {
                prev
            },
            _ => prev,
        }
    }
}

/// The hazards among `blocks`, in order.
pub open spec fn hazards_in(blocks: Seq<Placeable>) -> Seq<Hazard>
    decreases blocks.len(),
{
    if blocks.len() == 0 {
        Seq::empty()
    } else {
        match blocks.last() {
            Placeable::Hazard(h) => hazards_in(blocks.drop_last()).push(h),
            _ => hazards_in(blocks.drop_last()),
        }
    }
}

/// The props among `blocks`, in order.
pub open spec fn props_in(blocks: Seq<Placeable>) -> Seq<Prop>
    decreases blocks.len(),
{
    if blocks.len() == 0 {
        Seq::empty()
    } else {
        match blocks.last() {
            Placeable::Prop(p) => props_in(blocks.drop_last()).push(p),
            _ => props_in(blocks.drop_last()),
        }
    }
}

/// The coins among `blocks`, in order.
pub open spec fn coins_in(blocks: Seq<Placeable>) -> Seq<Coin>
    decreases blocks.len(),
{
    if blocks.len() == 0 {
        Seq::empty()
    } else {
        match blocks.last() {
            Placeable::Coin(c) => coins_in(blocks.drop_last()).push(c),
            _ => coins_in(blocks.drop_last()),
        }
    }
}

/// The characters among `blocks`, in order.
pub open spec fn npcs_in(blocks: Seq<Placeable>) -> Seq<Npc>
    decreases blocks.len(),
{
    if blocks.len() == 0 {
        Seq::empty()
    } else {
        match blocks.last() {
            Placeable::Npc(n) => npcs_in(blocks.drop_last()).push(n),
            _ => npcs_in(blocks.drop_last()),
        }
    }
}

/// The lights among `blocks`, in order.
pub open spec fn lights_in(blocks: Seq<Placeable>) -> Seq<SpotlightSource>
    decreases blocks.len(),
{
    if blocks.len() == 0 {
        Seq::empty()
    } else {
        match blocks.last() {
            Placeable::Spotlight(l) => lights_in(blocks.drop_last()).push(l),
            _ => lights_in(blocks.drop_last()),
        }
    }
}

/// Where the `k`-th of `blocks` goes when the blocks are put into `room` in
/// order: a tile to its cell, anything else after the things of its kind already
/// there.
pub open spec fn placed_id(room: Room, layer: ActiveLayer, blocks: Seq<Placeable>, k: int) -> PlaceableId {
    let before = blocks.take(k);
    match blocks[k] {
        Placeable::Tile((_, p)) => PlaceableId::Tile(p),
        Placeable::Hazard(_) => PlaceableId::Hazard((room.hazards@.len() + hazards_in(before).len()) as usize),
        Placeable::Prop(_) => PlaceableId::Prop((room.spec_layer(layer).props@.len() + props_in(before).len()) as usize),
        Placeable::Coin(_) => PlaceableId::Coin((room.coins@.len() + coins_in(before).len()) as usize),
        Placeable::Npc(_) => PlaceableId::Npc((room.npcs@.len() + npcs_in(before).len()) as usize),
        Placeable::Spotlight(_) => PlaceableId::Spotlight((room.spotlights@.len() + lights_in(before).len()) as usize),
    }
}

/// The blocks moved by `delta`.
pub open spec fn moved(blocks: Seq<Placeable>, delta: Vec2, grid: crate::grid::Grid) -> Seq<Placeable> {
    blocks.map_values(|b: Placeable| b.spec_translated(delta, grid))
}

/// Whether carried blocks can be put down moved by `delta`: each can be moved,
/// and each tile, put down after the ones before it, leaves the map shapable.
pub open spec fn moves_ok(room: Room, blocks: Seq<Placeable>, delta: Vec2, layer: ActiveLayer, assets: Assets) -> bool {
    let m = moved(blocks, delta, room.grid);
    &&& room.spec_layer(layer).tiles.well_formed()
    &&& forall|k: int| 0 <= k < blocks.len() ==> (#[trigger] blocks[k]).translate_fits(delta, room.grid)
    &&& forall|k: int| 0 <= k < blocks.len() ==> match #[trigger] m[k] {
        Placeable::Tile((t, p)) => {
            let before = tiles_after(room.spec_layer(layer).tiles@, m, k);
            before.in_bounds(p.x as int, p.y as int) ==> before.with_tile(p.x as int, p.y as int, t@).shapable(assets)
        },
        _ => true,
    }
}

impl RoomEditor {
    /// Puts down carried blocks moved by `delta` (the drag's end), remembering
    /// the room for undoing: they become the selection, and what the cursor at
    /// `cursor` hovers is found anew.
    pub fn move_blocks(&mut self, blocks: Vec<Placeable>, delta: Vec2, cursor: Vec2, assets: &Assets)
        requires
            moves_ok(old(self).room, blocks@, delta, old(self).active_layer, *assets),
            old(self).room.hovered_ok(Aabb2 { min: cursor, max: cursor }, old(self).active_layer),
            forall|k: int| 0 <= k < lights_in(moved(blocks@, delta, old(self).room.grid)).len() ==> {
                let p = (#[trigger] lights_in(moved(blocks@, delta, old(self).room.grid))[k]).position;
                crate::geom::fits(p.x - crate::placeable::LIGHT_HANDLE) && crate::geom::fits(p.y - crate::placeable::LIGHT_HANDLE)
                    && crate::geom::fits(p.x + crate::placeable::LIGHT_HANDLE) && crate::geom::fits(p.y + crate::placeable::LIGHT_HANDLE)
            },
        ensures
            ({
                let layer = old(self).active_layer;
                let r0 = old(self).room;
                let m = moved(blocks@, delta, r0.grid);
                &&& kept(*old(self), *final(self))
                &&& final(self).room.spec_layer(layer).tiles@ == tiles_after(r0.spec_layer(layer).tiles@, m, m.len() as int)
                &&& final(self).room.spec_layer(layer).props@ == r0.spec_layer(layer).props@ + props_in(m)
                &&& final(self).room.layers == r0.layers.with_layer(layer, final(self).room.spec_layer(layer))
                &&& final(self).room.hazards@ == r0.hazards@ + hazards_in(m)
                &&& final(self).room.coins@ == r0.coins@ + coins_in(m)
                &&& final(self).room.npcs@ == r0.npcs@ + npcs_in(m)
                &&& final(self).room.spotlights@ == r0.spotlights@ + lights_in(m)
                &&& final(self).room.grid == r0.grid
                &&& final(self).room.size == r0.size
                &&& final(self).room.spawn_point == r0.spawn_point
                &&& final(self).room.drill_allowed == r0.drill_allowed
                &&& final(self).room.transitions == r0.transitions
                &&& final(self).selection@.to_set() == Seq::new(m.len(), |k: int| placed_id(r0, layer, m, k)).to_set()
                &&& final(self).selection@.no_duplicates()
                &&& final(self).hovered@ == final(self).spec_get_hovered(Aabb2 { min: cursor, max: cursor })
            }),
            final(self).active_layer == old(self).active_layer,
            final(self).tabs == old(self).tabs,
            final(self).active_tab == old(self).active_tab,
    {
        let layer = self.active_layer;
        let ghost r0 = self.room;
        let ghost m = moved(blocks@, delta, r0.grid);
        self.keep_state();
        self.clear_selection();
        let ghost undo = self.undo_stack;
        let ghost redo = self.redo_stack;
        let n = blocks.len();
        let ghost all = blocks@;
        let mut rest = blocks;
        let mut k: usize = 0;
        while k < n
            invariant
                n == all.len(),
                k <= n,
                rest@ == all.subrange(k as int, n as int),
                layer == old(self).active_layer,
                self.active_layer == layer,
                self.tabs == old(self).tabs,
                self.active_tab == old(self).active_tab,
                self.undo_stack == undo,
                self.redo_stack == redo,
                r0 == old(self).room,
                m == moved(all, delta, r0.grid),
                moves_ok(r0, all, delta, layer, *assets),
                self.room.spec_layer(layer).tiles@ == tiles_after(r0.spec_layer(layer).tiles@, m, k as int),
                self.room.spec_layer(layer).tiles.well_formed(),
                self.room.spec_layer(layer).props@ == r0.spec_layer(layer).props@ + props_in(m.take(k as int)),
                self.room.layers == r0.layers.with_layer(layer, self.room.spec_layer(layer)),
                self.room.hazards@ == r0.hazards@ + hazards_in(m.take(k as int)),
                self.room.coins@ == r0.coins@ + coins_in(m.take(k as int)),
                self.room.npcs@ == r0.npcs@ + npcs_in(m.take(k as int)),
                self.room.spotlights@ == r0.spotlights@ + lights_in(m.take(k as int)),
                self.room.grid == r0.grid,
                self.room.size == r0.size,
                self.room.spawn_point == r0.spawn_point,
                self.room.drill_allowed == r0.drill_allowed,
                self.room.transitions == r0.transitions,
                self.selection@.to_set() == Seq::new(k as nat, |j: int| placed_id(r0, layer, m, j)).to_set(),
                self.selection@.no_duplicates(),
            decreases n - k,
        {
            let mut block = rest.remove(0);
            assert(block == all[k as int]);
            assert(rest@ =~= all.subrange(k as int + 1, n as int));
            assert(all[k as int].translate_fits(delta, r0.grid));
            block.translate(delta, &self.room.grid);
            assert(block == m[k as int]);
            let ghost before = self.room;
            let ghost sel = self.selection@;
            let id = self.room.place_block(block, layer, assets);
            proof {
                let mk = m.take(k as int + 1);
                assert(mk.drop_last() =~= m.take(k as int));
                assert(mk.last() == m[k as int]);
                assert(id == placed_id(r0, layer, m, k as int));
            }
            if index_of(&self.selection, id).is_none() {
                self.selection.push(id);
                proof {
                    sel.lemma_push_to_set_commute(id);
                }
            }
            proof {
                let f = |j: int| placed_id(r0, layer, m, j);
                assert(Seq::new(k as nat + 1, f) =~= Seq::new(k as nat, f).push(f(k as int)));
                Seq::new(k as nat, f).lemma_push_to_set_commute(f(k as int));
            }
            k += 1;
        }
        proof {
            assert(m.take(n as int) =~= m);
        }
        let ghost placed_room = *self;
        self.hovered = self.get_hovered(Aabb2::point(cursor));
        assert((|id: PlaceableId| self.tab_hovers(id)) =~= (|id: PlaceableId| placed_room.tab_hovers(id)));
    }
}

/// A key the room editor answers to.
#[derive(Clone, Copy, Debug, PartialEq, Eq, Structural)]
pub enum EditorKey {
    Escape,
    S,
    Z,
    R,
    D,
    Left,
    Right,
    Other,
}

/// What a key asks of the editor beyond its own state.
#[derive(Clone, Copy, Debug, PartialEq, Eq, Structural)]
pub enum EditorCommand {
    Nothing,
    /// Save the room to its file.
    Save,
    /// The drag ends.
    EndDrag,
    /// Start dragging copies of the selected things (see `duplicate_selected`).
    Duplicate,
}

impl RoomEditor {
    /// A key went down (with ctrl and shift held or not, the cursor at `cursor`):
    /// escape cancels the drag, ctrl+S saves, ctrl+Z undoes (redoes with shift),
    /// R puts the spawn point at the cursor, ctrl+D asks for the selection to be
    /// duplicated, and the arrows scroll the active tab's blocks.
    pub fn key_down(&mut self, key: EditorKey, ctrl: bool, shift: bool, cursor: Vec2, dragging: &Option<RoomDragAction>)
        -> (c: EditorCommand)
        requires
            key == EditorKey::Left ==> old(self).scroll_ok(-1isize),
            key == EditorKey::Right ==> old(self).scroll_ok(1isize),
        ensures
            match key {
                EditorKey::Escape => {
                    &&& c == if dragging matches Some(RoomDragAction::MoveBlocks { .. }) {
                        EditorCommand::EndDrag
                    } else {
                        EditorCommand::Nothing
                    }
                    &&& final(self).selection@.len() == 0
                    &&& if dragging matches Some(RoomDragAction::MoveBlocks { .. }) && old(self).undo_stack@.len() > 0 {
                        &&& final(self).room == old(self).undo_stack@.last()
                        &&& final(self).undo_stack@ == old(self).undo_stack@.drop_last()
                    } else {
                        &&& final(self).room == old(self).room
                        &&& final(self).undo_stack == old(self).undo_stack
                    }
                    &&& final(self).redo_stack == old(self).redo_stack
                },
                EditorKey::S => c == (if ctrl { EditorCommand::Save } else { EditorCommand::Nothing })
                    && final(self).history() == old(self).history(),
                EditorKey::D => c == (if ctrl { EditorCommand::Duplicate } else { EditorCommand::Nothing })
                    && final(self).history() == old(self).history(),
                EditorKey::Z => c == EditorCommand::Nothing && final(self).history() == if !ctrl {
                    old(self).history()
                } else if shift {
                    redone(old(self).history())
                } else {
                    undone(old(self).history())
                },
                EditorKey::R => c == EditorCommand::Nothing
                    && final(self).room == (Room { spawn_point: cursor, ..old(self).room })
                    && final(self).undo_stack == old(self).undo_stack && final(self).redo_stack == old(self).redo_stack,
                _ => c == EditorCommand::Nothing && final(self).history() == old(self).history(),
            },
            key == EditorKey::Left || key == EditorKey::Right ==> final(self).active_tab == old(self).active_tab
                && final(self).tabs@.len() == old(self).tabs@.len(),
            key != EditorKey::Left && key != EditorKey::Right ==> final(self).tabs == old(self).tabs
                && final(self).active_tab == old(self).active_tab,
            final(self).active_layer == old(self).active_layer,
    {
        match key {
            EditorKey::Escape => {
                if self.cancel(dragging) {
                    EditorCommand::EndDrag
                } else {
                    EditorCommand::Nothing
                }
            },
            EditorKey::S => if ctrl { EditorCommand::Save } else { EditorCommand::Nothing },
            EditorKey::D => if ctrl { EditorCommand::Duplicate } else { EditorCommand::Nothing },
            EditorKey::Z => {
                if ctrl {
                    if shift {
                        self.redo();
                    } else {
                        self.undo();
                    }
                }
                EditorCommand::Nothing
            },
            EditorKey::R => {
                self.room.spawn_point = cursor;
                EditorCommand::Nothing
            },
            EditorKey::Left => {
                self.scroll_selected(-1);
                EditorCommand::Nothing
            },
            EditorKey::Right => {
                self.scroll_selected(1);
                EditorCommand::Nothing
            },
            EditorKey::Other => EditorCommand::Nothing,
        }
    }
}

/// The things that `ids` name in `layer` of `room`, in order, leaving out the ids
/// that name nothing.
pub open spec fn found_blocks(room: Room, layer: ActiveLayer, ids: Seq<PlaceableId>) -> Seq<Placeable>
    decreases ids.len(),
{
    if ids.len() == 0 {
        Seq::empty()
    } else {
        let rest = found_blocks(room, layer, ids.drop_last());
        match room.spec_get_block(ids.last(), layer) {
            Some(b) => rest.push(b),
            None => rest,
        }
    }
}

/// Whether `blocks` are copies of `found`, one for one.
pub open spec fn copies(blocks: Seq<Placeable>, found: Seq<Placeable>) -> bool {
    &&& blocks.len() == found.len()
    &&& forall|i: int| 0 <= i < blocks.len() ==> (#[trigger] blocks[i]).copy_of(found[i])
}

/// The thing the first selected id names, if any.
pub open spec fn first_selected(e: RoomEditor) -> Option<Placeable> {
    if e.selection@.len() > 0 {
        e.room.spec_get_block(e.selection@[0], e.active_layer)
    } else {
        None
    }
}

impl RoomEditor {
    /// Duplicates the selected things: when the first selected id names a thing,
    /// the room is remembered for undoing and a drag starts that carries copies
    /// of the selected things that exist, in the order of the selection, from
    /// the first one's bottom-left corner; otherwise nothing happens.
    pub fn duplicate_selected(&mut self) -> (r: Option<RoomDragAction>)
        requires
            old(self).room.spec_layer(old(self).active_layer).tiles@.well_formed(),
            first_selected(*old(self)) matches Some(b) ==> b.bottom_left_fits(old(self).room.grid),
        ensures
            match first_selected(*old(self)) {
                Some(first) => {
                    &&& r matches Some(RoomDragAction::MoveBlocks { blocks, initial_pos })
                        && copies(blocks@, found_blocks(old(self).room, old(self).active_layer, old(self).selection@))
                        && initial_pos == first.spec_bottom_left(old(self).room.grid)
                    &&& kept(*old(self), *final(self))
                    &&& final(self).room == old(self).room
                    &&& final(self).selection == old(self).selection
                    &&& final(self).hovered == old(self).hovered
                    &&& final(self).active_layer == old(self).active_layer
                    &&& final(self).tabs == old(self).tabs
                    &&& final(self).active_tab == old(self).active_tab
                },
                None => r is None && *final(self) == *old(self),
            },
    {
        if self.selection.len() == 0 {
            return None;
        }
        let layer = self.active_layer;
        let first = match self.room.get_block(self.selection[0], layer) {
            Some(b) => b,
            None => {
                return None;
            },
        };
        let initial_pos = first.bottom_left(&self.room.grid);
        self.keep_state();
        let n = self.selection.len();
        let mut blocks: Vec<Placeable> = Vec::new();
        let mut i: usize = 0;
        while i < n
            invariant
                n == self.selection@.len(),
                i <= n,
                self.room == old(self).room,
                self.selection == old(self).selection,
                self.active_layer == layer,
                layer == old(self).active_layer,
                self.room.spec_layer(layer).tiles@.well_formed(),
                copies(blocks@, found_blocks(self.room, layer, self.selection@.take(i as int))),
            decreases n - i,
        {
            let ghost before = blocks@;
            proof {
                assert(self.selection@.take(i as int + 1).drop_last() =~= self.selection@.take(i as int));
                assert(self.selection@.take(i as int + 1).last() == self.selection@[i as int]);
            }
            match self.room.get_block(self.selection[i], layer) {
                Some(b) => {
                    blocks.push(b);
                    proof {
                        assert forall|k: int| 0 <= k < blocks@.len() implies (#[trigger] blocks@[k]).copy_of(
                            found_blocks(self.room, layer, self.selection@.take(i as int + 1))[k]) by {
                            if k < before.len() {
                                assert(blocks@[k] == before[k]);
                            }
                        }
                    }
                },
                None => {},
            }
            i += 1;
        }
        proof {
            assert(self.selection@.take(n as int) =~= self.selection@);
        }
        Some(RoomDragAction::MoveBlocks { blocks, initial_pos })
    }
}

} // verus!
