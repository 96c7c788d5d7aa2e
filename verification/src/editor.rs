//! The room editor's model: its tabs of placeable things, the layer and
//! selection it works on, and the undo and redo history of the room.
use vstd::prelude::*;
use crate::assets::Assets;
use crate::geom::Aabb2;
use crate::placeable::{Placeable, PlaceableId, PlaceableType, SpotlightSource};
use crate::room::{same_room, ActiveLayer, Room};
use crate::rules::{Rules, Tile};
use crate::tilemap::air;
use crate::geom::Vec2;

verus! {

/// How an editor tab works.
#[derive(Debug)]
pub enum RoomEditorMode {
    /// Edit the room itself; everything in it can be selected.
    Room,
    /// Place one of `blocks`, the one at `selected`.
    Block { blocks: Vec<PlaceableType>, selected: usize },
    /// Place lights like `spotlight`.
    Lights { spotlight: SpotlightSource },
}

/// An editor tab: what it places and which things it lets the cursor hover.
#[derive(Debug)]
pub struct RoomEditorTab {
    pub name: String,
    pub hoverable: Vec<PlaceableType>,
    pub mode: RoomEditorMode,
}

impl RoomEditorTab {
    /// A tab that places `blocks`, the first one selected, and hovers the same kinds.
    pub fn block(name: String, blocks: Vec<PlaceableType>) -> (t: RoomEditorTab)
        ensures
            t.name == name,
            t.hoverable@ == blocks@,
            t.mode matches RoomEditorMode::Block { blocks: b, selected } && b@ == blocks@ && selected == 0,
    {
        let hoverable = blocks.clone();
        assert(hoverable@ =~= blocks@);
        RoomEditorTab { name, hoverable, mode: RoomEditorMode::Block { blocks, selected: 0 } }
    }
}

/// The editor of one room.
#[derive(Debug)]
pub struct RoomEditor {
    pub room_name: String,
    pub room: Room,
    pub active_layer: ActiveLayer,
    /// Whether the editor should hand over to a play test.
    pub playtest: bool,
    /// The selected things, each once.
    pub selection: Vec<PlaceableId>,
    pub hovered: Vec<PlaceableId>,
    /// Earlier rooms, the latest last.
    pub undo_stack: Vec<Room>,
    /// Undone rooms, the latest last.
    pub redo_stack: Vec<Room>,
    pub tabs: Vec<RoomEditorTab>,
    pub active_tab: usize,
    pub draw_grid: bool,
    pub preview: bool,
}

/// The room with its undo and redo stacks, the latest entries last.
pub struct History {
    pub room: Room,
    pub undo: Seq<Room>,
    pub redo: Seq<Room>,
}

/// The history after an undo: the latest earlier room comes back and the current
/// one can be redone. Nothing changes when there is nothing to undo.
pub open spec fn undone(h: History) -> History {
    if h.undo.len() == 0 {
        h
    } else {
        History { room: h.undo.last(), undo: h.undo.drop_last(), redo: h.redo.push(h.room) }
    }
}

/// The history after a redo: the latest undone room comes back and the current
/// one can be undone. Nothing changes when there is nothing to redo.
pub open spec fn redone(h: History) -> History {
    if h.redo.len() == 0 {
        h
    } else {
        History { room: h.redo.last(), undo: h.undo.push(h.room), redo: h.redo.drop_last() }
    }
}

/// Redoing what was just undone gives back the room and both stacks.
pub proof fn lemma_undo_then_redo(h: History)
    requires
        h.undo.len() > 0,
    ensures
        redone(undone(h)) == h,
{
    assert(undone(h).redo.drop_last() =~= h.redo);
    assert(undone(h).undo.push(h.room) =~= h.undo.drop_last().push(h.room));
    assert(h.undo.drop_last().push(h.undo.last()) =~= h.undo);
}

/// Undoing what was just redone gives back the room and both stacks.
pub proof fn lemma_redo_then_undo(h: History)
    requires
        h.redo.len() > 0,
    ensures
        undone(redone(h)) == h,
{
    assert(redone(h).undo.drop_last() =~= h.undo);
    assert(h.redo.drop_last().push(h.redo.last()) =~= h.redo);
}

/// Undoing right after remembering the room gives back a room with the same
/// contents, and the earlier stacks.
pub proof fn lemma_keep_then_undo(h: History, kept: Room)
    requires
        same_room(h.room, kept),
    ensures
        same_room(undone(History { room: h.room, undo: h.undo.push(kept), redo: Seq::empty() }).room, h.room),
        undone(History { room: h.room, undo: h.undo.push(kept), redo: Seq::empty() }).undo == h.undo,
{
    assert(h.undo.push(kept).drop_last() =~= h.undo);
}

impl RoomEditor {
    /// The room with its undo and redo stacks.
    pub open spec fn history(self) -> History {
        History { room: self.room, undo: self.undo_stack@, redo: self.redo_stack@ }
    }

    /// Puts back the room before the last action; the current room can be redone.
    pub fn undo(&mut self)
        ensures
            final(self).history() == undone(old(self).history()),
            final(self).room_name == old(self).room_name,
            final(self).active_layer == old(self).active_layer,
            final(self).selection == old(self).selection,
            final(self).hovered == old(self).hovered,
            final(self).tabs == old(self).tabs,
            final(self).active_tab == old(self).active_tab,
    {
        match self.undo_stack.pop() {
            Some(mut state) => {
                std::mem::swap(&mut self.room, &mut state);
                self.redo_stack.push(state);
            },
            None => {},
        }
    }

    /// Puts back the room that the last undo replaced; the current room can be undone.
    pub fn redo(&mut self)
        ensures
            final(self).history() == redone(old(self).history()),
            final(self).room_name == old(self).room_name,
            final(self).active_layer == old(self).active_layer,
            final(self).selection == old(self).selection,
            final(self).hovered == old(self).hovered,
            final(self).tabs == old(self).tabs,
            final(self).active_tab == old(self).active_tab,
    {
        match self.redo_stack.pop() {
            Some(mut state) => {
                std::mem::swap(&mut self.room, &mut state);
                self.undo_stack.push(state);
            },
            None => {},
        }
    }

    /// Remembers the current room for undoing and forgets what could be redone.
    pub fn keep_state(&mut self)
        ensures
            final(self).redo_stack@.len() == 0,
            final(self).undo_stack@.len() == old(self).undo_stack@.len() + 1,
            final(self).undo_stack@.drop_last() == old(self).undo_stack@,
            same_room(old(self).room, final(self).undo_stack@.last()),
            final(self).room == old(self).room,
            final(self).room_name == old(self).room_name,
            final(self).active_layer == old(self).active_layer,
            final(self).selection == old(self).selection,
            final(self).hovered == old(self).hovered,
            final(self).tabs == old(self).tabs,
            final(self).active_tab == old(self).active_tab,
    {
        self.redo_stack.clear();
        let copy = self.room.clone();
        self.undo_stack.push(copy);
        assert(self.undo_stack@.drop_last() =~= old(self).undo_stack@);
    }

    /// Forgets the selection.
    pub fn clear_selection(&mut self)
        ensures
            final(self).selection@.len() == 0,
            final(self).room == old(self).room,
            final(self).active_layer == old(self).active_layer,
            final(self).hovered == old(self).hovered,
            final(self).undo_stack == old(self).undo_stack,
            final(self).redo_stack == old(self).redo_stack,
            final(self).tabs == old(self).tabs,
            final(self).active_tab == old(self).active_tab,
    {
        self.selection.clear();
    }

    /// Works on `layer` from now on; switching layers forgets the selection.
    pub fn change_layer(&mut self, layer: ActiveLayer)
        ensures
            final(self).active_layer == layer,
            layer == old(self).active_layer ==> final(self).selection == old(self).selection,
            layer != old(self).active_layer ==> final(self).selection@.len() == 0,
            final(self).room == old(self).room,
            final(self).hovered == old(self).hovered,
            final(self).undo_stack == old(self).undo_stack,
            final(self).redo_stack == old(self).redo_stack,
            final(self).tabs == old(self).tabs,
            final(self).active_tab == old(self).active_tab,
    {
        if layer == self.active_layer {
            return;
        }
        self.clear_selection();
        self.active_layer = layer;
    }

    /// What the active tab places: its selected block, a light like its own, or
    /// nothing in the room tab.
    pub open spec fn spec_selected_block(self) -> Option<PlaceableType> {
        if self.active_tab < self.tabs@.len() {
            match self.tabs@[self.active_tab as int].mode {
                RoomEditorMode::Room => None,
                RoomEditorMode::Block { blocks, selected } => if selected < blocks@.len() {
                    Some(blocks@[selected as int])
                } else {
                    None
                },
                RoomEditorMode::Lights { spotlight } => Some(PlaceableType::Spotlight(spotlight)),
            }
        } else {
            None
        }
    }

    pub fn selected_block(&self) -> (r: Option<PlaceableType>)
        ensures
            r == self.spec_selected_block(),
    {
        if self.active_tab >= self.tabs.len() {
            return None;
        }
        match &self.tabs[self.active_tab].mode {
            RoomEditorMode::Room => None,
            RoomEditorMode::Block { blocks, selected } => if *selected < blocks.len() {
                Some(blocks[*selected].clone())
            } else {
                None
            },
            RoomEditorMode::Lights { spotlight } => Some(PlaceableType::Spotlight(*spotlight)),
        }
    }

    /// Whether scrolling the active tab by `delta` works: a tab of blocks has some.
    pub open spec fn scroll_ok(self, delta: isize) -> bool {
        self.active_tab < self.tabs@.len() ==> match self.tabs@[self.active_tab as int].mode {
            RoomEditorMode::Block { blocks, selected } => {
                &&& blocks@.len() > 0
                &&& blocks@.len() <= isize::MAX
                &&& selected <= isize::MAX
                &&& isize::MIN <= selected + delta <= isize::MAX
            },
            _ => true,
        }
    }

    /// Moves the selection of a tab of blocks by `delta`, wrapping around.
    pub fn scroll_selected(&mut self, delta: isize)
        requires
            old(self).scroll_ok(delta),
        ensures
            final(self).tabs@.len() == old(self).tabs@.len(),
            forall|i: int| 0 <= i < old(self).tabs@.len() && i != old(self).active_tab ==> #[trigger] final(self).tabs@[i] == old(self).tabs@[i],
            old(self).active_tab < old(self).tabs@.len() ==> {
                let t = old(self).tabs@[old(self).active_tab as int];
                let n = final(self).tabs@[old(self).active_tab as int];
                &&& n.name == t.name
                &&& n.hoverable == t.hoverable
                &&& match t.mode {
                    RoomEditorMode::Block { blocks, selected } => n.mode == RoomEditorMode::Block {
                        blocks,
                        selected: ((selected + delta) % (blocks@.len() as int)) as usize,
                    },
                    m => n.mode == m,
                }
            },
            final(self).active_tab == old(self).active_tab,
            final(self).room == old(self).room,
            final(self).selection == old(self).selection,
            final(self).hovered == old(self).hovered,
            final(self).undo_stack == old(self).undo_stack,
            final(self).redo_stack == old(self).redo_stack,
            final(self).active_layer == old(self).active_layer,
    {
        if self.active_tab >= self.tabs.len() {
            return;
        }
        let i = self.active_tab;
        let mut tab = self.tabs.remove(i);
        match &mut tab.mode {
            RoomEditorMode::Block { blocks, selected } => {
                let n = blocks.len() as i64;
                let target = *selected as i64 + delta as i64;
                let m = crate::geom::floor_mod(target, n);
                *selected = m as usize;
            },
            _ => {},
        }
        self.tabs.insert(i, tab);
        assert(forall|j: int| 0 <= j < old(self).tabs@.len() && j != i ==> self.tabs@[j] == old(self).tabs@[j]);
    }

    /// Whether the things of the room are hovered through the active tab: all of
    /// them in the room tab, else those of a kind the tab lists.
    pub open spec fn tab_hovers(self, id: PlaceableId) -> bool {
        self.active_tab < self.tabs@.len() ==> match self.tabs@[self.active_tab as int].mode {
            RoomEditorMode::Room => true,
            _ => exists|k: int| 0 <= k < self.tabs@[self.active_tab as int].hoverable@.len()
                && id.spec_fits_type(#[trigger] self.tabs@[self.active_tab as int].hoverable@[k]),
        }
    }

    /// The things in `aabb` on the active layer that the active tab hovers, in the
    /// order of `Room::get_hovered`.
    pub open spec fn spec_get_hovered(self, aabb: Aabb2) -> Seq<PlaceableId> {
        self.room.spec_hovered(aabb, self.active_layer).filter(|id: PlaceableId| self.tab_hovers(id))
    }

    pub fn get_hovered(&self, aabb: Aabb2) -> (r: Vec<PlaceableId>)
        requires
            self.room.hovered_ok(aabb, self.active_layer),
        ensures
            r@ == self.spec_get_hovered(aabb),
    {
        let all = self.room.get_hovered(aabb, self.active_layer);
        let room_tab = self.active_tab >= self.tabs.len() || matches!(self.tabs[self.active_tab].mode, RoomEditorMode::Room);
        let mut r: Vec<PlaceableId> = Vec::new();
        let n = all.len();
        let mut i: usize = 0;
        while i < n
            invariant
                n == all@.len(),
                i <= n,
                room_tab == (self.active_tab >= self.tabs@.len() || self.tabs@[self.active_tab as int].mode is Room),
                r@ == all@.take(i as int).filter(|id: PlaceableId| self.tab_hovers(id)),
            decreases n - i,
        {
            let id = all[i];
            let keep = if room_tab {
                true
            } else {
                let tab = &self.tabs[self.active_tab];
                let m = tab.hoverable.len();
                let mut found = false;
                let mut k: usize = 0;
                while k < m
                    invariant
                        m == tab.hoverable@.len(),
                        k <= m,
                        found == exists|j: int| 0 <= j < k && id.spec_fits_type(#[trigger] tab.hoverable@[j]),
                    decreases m - k,
                {
                    if id.fits_type(&tab.hoverable[k]) {
                        found = true;
                    }
                    k += 1;
                }
                found
            };
            assert(keep == self.tab_hovers(id));
            if keep {
                r.push(id);
            }
            proof {
                assert(all@.take(i as int + 1).drop_last() =~= all@.take(i as int));
                all@.take(i as int).lemma_filter_push(id, |id: PlaceableId| self.tab_hovers(id));
                assert(all@.take(i as int).push(id) =~= all@.take(i as int + 1));
            }
            i += 1;
        }
        assert(all@.take(n as int) =~= all@);
        r
    }

    /// Removes the things at `ids` from the room, on the active layer, and forgets
    /// what was hovered.
    pub fn action_remove(&mut self, ids: &Vec<PlaceableId>, assets: &Assets)
        requires
            old(self).room.remove_blocks_ok(ids@, old(self).active_layer, *assets),
        ensures
            exists|removed: Seq<Placeable>| Room::blocks_removed(old(self).room, final(self).room, ids@, old(self).active_layer, removed),
            final(self).hovered@.len() == 0,
            final(self).active_layer == old(self).active_layer,
            final(self).selection == old(self).selection,
            final(self).undo_stack == old(self).undo_stack,
            final(self).redo_stack == old(self).redo_stack,
            final(self).tabs == old(self).tabs,
            final(self).active_tab == old(self).active_tab,
    {
        let removed = self.room.remove_blocks(ids, self.active_layer, assets);
        self.hovered.clear();
    }

    /// Removes what is hovered, remembering the room for undoing.
    pub fn remove_hovered(&mut self, assets: &Assets)
        requires
            old(self).room.remove_blocks_ok(old(self).hovered@, old(self).active_layer, *assets),
        ensures
            exists|removed: Seq<Placeable>| Room::blocks_removed(old(self).room, final(self).room, old(self).hovered@, old(self).active_layer, removed),
            final(self).undo_stack@.drop_last() == old(self).undo_stack@,
            final(self).undo_stack@.len() == old(self).undo_stack@.len() + 1,
            same_room(old(self).room, final(self).undo_stack@.last()),
            final(self).redo_stack@.len() == 0,
            final(self).hovered@.len() == 0,
            final(self).selection == old(self).selection,
            final(self).active_layer == old(self).active_layer,
            final(self).tabs == old(self).tabs,
            final(self).active_tab == old(self).active_tab,
    {
        self.keep_state();
        let ids = self.hovered.clone();
        assert(ids@ =~= old(self).hovered@);
        self.action_remove(&ids, assets);
    }

    /// Removes what is selected, remembering the room for undoing.
    pub fn remove_selected(&mut self, assets: &Assets)
        requires
            old(self).room.remove_blocks_ok(old(self).selection@, old(self).active_layer, *assets),
        ensures
            exists|removed: Seq<Placeable>| Room::blocks_removed(old(self).room, final(self).room, old(self).selection@, old(self).active_layer, removed),
            final(self).undo_stack@.drop_last() == old(self).undo_stack@,
            final(self).undo_stack@.len() == old(self).undo_stack@.len() + 1,
            same_room(old(self).room, final(self).undo_stack@.last()),
            final(self).redo_stack@.len() == 0,
            final(self).hovered@.len() == 0,
    {
        self.keep_state();
        let ids = self.selection.clone();
        assert(ids@ =~= old(self).selection@);
        self.action_remove(&ids, assets);
    }
}

/// The tiles of the first `n` rule entries other than air, as things to place.
pub open spec fn tile_types(entries: Seq<(Tile, crate::rules::TileRules)>, n: int) -> Seq<PlaceableType>
    decreases n,
{
    if n <= 0 {
        Seq::empty()
    } else if entries[n - 1].0@ != air() {
        tile_types(entries, n - 1).push(PlaceableType::Tile(entries[n - 1].0))
    } else {
        tile_types(entries, n - 1)
    }
}

fn tile_placeables(rules: &Rules) -> (r: Vec<PlaceableType>)
    ensures
        r@ == tile_types(rules.tiles@, rules.tiles@.len() as int),
{
    let mut r: Vec<PlaceableType> = Vec::new();
    let n = rules.tiles.len();
    let mut i: usize = 0;
    while i < n
        invariant
            n == rules.tiles@.len(),
            i <= n,
            r@ == tile_types(rules.tiles@, i as int),
        decreases n - i,
    {
        if !crate::tilemap::is_air(&rules.tiles[i].0) {
            r.push(PlaceableType::Tile(rules.tiles[i].0.clone()));
        }
        i += 1;
    }
    r
}

/// The kind `kind` (`2` hazard, `3` prop, `5` character) of each name.
pub open spec fn named_types(names: Seq<String>, kind: int) -> Seq<PlaceableType> {
    names.map_values(|n: String| if kind == 2 {
        PlaceableType::Hazard(n)
    } else if kind == 3 {
        PlaceableType::Prop(n)
    } else {
        PlaceableType::Npc(n)
    })
}

fn named_placeables(names: &Vec<String>, kind: u8) -> (r: Vec<PlaceableType>)
    requires
        kind == 2 || kind == 3 || kind == 5,
    ensures
        r@ == named_types(names@, kind as int),
{
    let mut r: Vec<PlaceableType> = Vec::new();
    let n = names.len();
    let mut i: usize = 0;
    while i < n
        invariant
            n == names@.len(),
            i <= n,
            kind == 2 || kind == 3 || kind == 5,
            r@ == named_types(names@.take(i as int), kind as int),
        decreases n - i,
    {
        let name = names[i].clone();
        let t = if kind == 2 {
            PlaceableType::Hazard(name)
        } else if kind == 3 {
            PlaceableType::Prop(name)
        } else {
            PlaceableType::Npc(name)
        };
        r.push(t);
        assert(names@.take(i as int + 1) =~= names@.take(i as int).push(names@[i as int]));
        assert(r@ =~= named_types(names@.take(i as int + 1), kind as int));
        i += 1;
    }
    assert(names@.take(n as int) =~= names@);
    r
}

/// Whether the tab has the name `name` and places `blocks`, the first selected.
pub open spec fn is_block_tab(t: RoomEditorTab, name: Seq<char>, blocks: Seq<PlaceableType>) -> bool {
    &&& t.name@ == name
    &&& t.hoverable@ == blocks
    &&& t.mode matches RoomEditorMode::Block { blocks: b, selected } && b@ == blocks && selected == 0
}

/// The tabs of a new editor: the room; the tiles of the rules other than air;
/// coins; the hazards, props and characters that have sprites; and lights.
pub open spec fn default_tabs_ok(
    tabs: Seq<RoomEditorTab>,
    rules: Rules,
    hazards: Seq<String>,
    props: Seq<String>,
    npcs: Seq<String>,
) -> bool {
    &&& tabs.len() == 7
    &&& tabs[0].name@ == "Room"@
    &&& tabs[0].hoverable@.len() == 0
    &&& tabs[0].mode is Room
    &&& is_block_tab(tabs[1], "Tiles"@, tile_types(rules.tiles@, rules.tiles@.len() as int))
    &&& is_block_tab(tabs[2], "Collectables"@, seq![PlaceableType::Coin])
    &&& is_block_tab(tabs[3], "Hazards"@, named_types(hazards, 2))
    &&& is_block_tab(tabs[4], "Props"@, named_types(props, 3))
    &&& tabs[5].name@ == "Lights"@
    &&& tabs[5].hoverable@ == seq![PlaceableType::Spotlight(SpotlightSource { position: Vec2 { x: 0, y: 0 } })]
    &&& tabs[5].mode == (RoomEditorMode::Lights { spotlight: SpotlightSource { position: Vec2 { x: 0, y: 0 } } })
    &&& is_block_tab(tabs[6], "Npc"@, named_types(npcs, 5))
}

/// The tabs of a new editor: the room; the tiles of the rules other than air;
/// coins; the hazards, props and characters that have sprites; and lights.
pub fn default_tabs(rules: &Rules, hazards: &Vec<String>, props: &Vec<String>, npcs: &Vec<String>) -> (tabs: Vec<RoomEditorTab>)
    ensures
        default_tabs_ok(tabs@, *rules, hazards@, props@, npcs@),
{
    let light = SpotlightSource { position: Vec2 { x: 0, y: 0 } };
    let mut tabs: Vec<RoomEditorTab> = Vec::new();
    tabs.push(RoomEditorTab { name: String::from_str("Room"), hoverable: Vec::new(), mode: RoomEditorMode::Room });
    tabs.push(RoomEditorTab::block(String::from_str("Tiles"), tile_placeables(rules)));
    let mut coin: Vec<PlaceableType> = Vec::new();
    coin.push(PlaceableType::Coin);
    tabs.push(RoomEditorTab::block(String::from_str("Collectables"), coin));
    tabs.push(RoomEditorTab::block(String::from_str("Hazards"), named_placeables(hazards, 2)));
    tabs.push(RoomEditorTab::block(String::from_str("Props"), named_placeables(props, 3)));
    let mut lights: Vec<PlaceableType> = Vec::new();
    lights.push(PlaceableType::Spotlight(light));
    tabs.push(RoomEditorTab { name: String::from_str("Lights"), hoverable: lights, mode: RoomEditorMode::Lights { spotlight: light } });
    tabs.push(RoomEditorTab::block(String::from_str("Npc"), named_placeables(npcs, 5)));
    assert(tabs@[2].hoverable@ =~= seq![PlaceableType::Coin]);
    assert(tabs@[5].hoverable@ =~= seq![PlaceableType::Spotlight(light)]);
    tabs
}

/// Whether every layer of the room can get its tile images.
pub open spec fn room_shapable(room: Room, assets: Assets) -> bool {
    &&& room.layers.background.tiles@.shapable(assets)
    &&& room.layers.main.tiles@.shapable(assets)
    &&& room.layers.foreground.tiles@.shapable(assets)
}

impl RoomEditor {
    /// An editor of `room`, named `room_name`: each layer gets its tile images, the
    /// main layer and the room tab are active, and nothing is selected or remembered.
    pub fn new_room(
        room_name: String,
        room: Room,
        assets: &Assets,
        hazards: &Vec<String>,
        props: &Vec<String>,
        npcs: &Vec<String>,
    ) -> (e: RoomEditor)
        requires
            room_shapable(room, *assets),
        ensures
            e.room_name == room_name,
            e.room.layers.background.tiles.tiles == room.layers.background.tiles.tiles,
            e.room.layers.main.tiles.tiles == room.layers.main.tiles.tiles,
            e.room.layers.foreground.tiles.tiles == room.layers.foreground.tiles.tiles,
            e.room.layers.background.tiles.spec_geometry() is Some,
            e.room.layers.main.tiles.spec_geometry() is Some,
            e.room.layers.foreground.tiles.spec_geometry() is Some,
            e.room.layers.background.tiles@.geometry_fits(*assets, e.room.layers.background.tiles.spec_geometry().unwrap()),
            e.room.layers.main.tiles@.geometry_fits(*assets, e.room.layers.main.tiles.spec_geometry().unwrap()),
            e.room.layers.foreground.tiles@.geometry_fits(*assets, e.room.layers.foreground.tiles.spec_geometry().unwrap()),
            e.room.layers.background.tiles.size == room.layers.background.tiles.size,
            e.room.layers.main.tiles.size == room.layers.main.tiles.size,
            e.room.layers.foreground.tiles.size == room.layers.foreground.tiles.size,
            e.room.layers.background.props == room.layers.background.props,
            e.room.layers.main.props == room.layers.main.props,
            e.room.layers.foreground.props == room.layers.foreground.props,
            e.room.hazards == room.hazards,
            e.room.coins == room.coins,
            e.room.transitions == room.transitions,
            e.room.npcs == room.npcs,
            e.room.spotlights == room.spotlights,
            e.room.grid == room.grid,
            e.room.size == room.size,
            e.room.spawn_point == room.spawn_point,
            e.room.drill_allowed == room.drill_allowed,
            e.active_layer == ActiveLayer::Main,
            e.active_tab == 0,
            default_tabs_ok(e.tabs@, assets.rules, hazards@, props@, npcs@),
            e.selection@.len() == 0,
            e.hovered@.len() == 0,
            e.undo_stack@.len() == 0,
            e.redo_stack@.len() == 0,
            e.draw_grid,
            !e.playtest,
            !e.preview,
    {
        let mut room = room;
        room.layers.background.tiles.update_geometry(assets);
        room.layers.main.tiles.update_geometry(assets);
        room.layers.foreground.tiles.update_geometry(assets);
        RoomEditor {
            room_name,
            room,
            active_layer: ActiveLayer::Main,
            playtest: false,
            selection: Vec::new(),
            hovered: Vec::new(),
            undo_stack: Vec::new(),
            redo_stack: Vec::new(),
            tabs: default_tabs(&assets.rules, hazards, props, npcs),
            active_tab: 0,
            draw_grid: true,
            preview: false,
        }
    }
}

} // verus!
