use drill_above::assets::{Assets, Sprites, TileSprites};
use drill_above::editor::{default_tabs, RoomEditor, RoomEditorMode, RoomEditorTab};
use drill_above::geom::{Aabb2, IVec2, UVec2, Vec2};
use drill_above::level::{LevelEditor, RoomState};
use drill_above::placeable::{Placeable, PlaceableId, PlaceableType};
use drill_above::room::{ActiveLayer, Room};
use drill_above::rules::{DrillRules, JumpRules, Rules, TileRules};
use drill_above::grid::Grid;
use drill_above::room_edit::{EditorCommand, EditorKey, MouseButton, RoomDragAction};
use drill_above::tileset::{get_tile_uv, ConnectionFilter, TileSet, TileSetConfig};

fn any_set(n: usize) -> TileSet {
    let size = UVec2 { x: n, y: 1 };
    TileSet {
        config: TileSetConfig {
            size,
            tiles: (0..n).map(|i| ([ConnectionFilter::Any; 8], get_tile_uv(i, size))).collect(),
        },
    }
}

fn rules() -> Rules {
    Rules {
        gravity: Vec2 { x: 0, y: -40 * 16000 },
        move_speed: 6 * 16000,
        acceleration: 50 * 16000,
        deceleration: 30 * 16000,
        jump_buffer_time: 100_000,
        coyote_time: 100_000,
        edge_correction_max: 4000,
        free_fall_speed: 20 * 16000,
        wall_slide_speed: 4 * 16000,
        jump: JumpRules {
            normal_push: 0,
            normal_strength: 12 * 16000,
            wall_strength: 12 * 16000,
            wall_angle: 0,
            wall_timeout: 100_000,
            fall_multiplier: 2 * 16000,
            low_multiplier: 2 * 16000,
        },
        drill: DrillRules {
            can_dash: true,
            release_time: 100_000,
            speed_min: 10 * 16000,
            speed_inc: 16000,
            dash_time: 200_000,
            dash_speed_min: 12 * 16000,
            dash_speed_inc: 16000,
            jump_speed_min: 12 * 16000,
            jump_speed_inc: 16000,
        },
        tiles: vec![
            ("air".to_string(), TileRules::default()),
            ("stone".to_string(), TileRules::default()),
            ("dirt".to_string(), TileRules { drillable: true, ..TileRules::default() }),
        ],
    }
}

fn assets() -> Assets {
    Assets {
        sprites: Sprites {
            tiles: TileSprites {
                mask: any_set(1),
                tiles: vec![
                    ("air".to_string(), any_set(2)),
                    ("stone".to_string(), any_set(3)),
                    ("dirt".to_string(), any_set(3)),
                ],
            },
        },
        rules: rules(),
    }
}

const ONE: i64 = 16000;

fn names(list: &[&str]) -> Vec<String> {
    list.iter().map(|s| s.to_string()).collect()
}

fn editor() -> RoomEditor {
    let assets = assets();
    RoomEditor::new_room(
        "start".to_string(),
        Room::new(UVec2 { x: 4, y: 4 }),
        &assets,
        &names(&["spikes"]),
        &names(&["tree", "rock"]),
        &names(&["guide"]),
    )
}

fn aabb(x0: i64, y0: i64, x1: i64, y1: i64) -> Aabb2 {
    Aabb2 { min: Vec2 { x: x0, y: y0 }, max: Vec2 { x: x1, y: y1 } }
}

#[test]
fn new_editor_state() {
    let e = editor();
    assert_eq!(e.room_name, "start");
    assert_eq!(e.active_layer, ActiveLayer::Main);
    assert_eq!(e.active_tab, 0);
    assert!(e.draw_grid && !e.playtest && !e.preview);
    assert!(e.undo_stack.is_empty() && e.redo_stack.is_empty());
    assert!(e.room.layers.main.tiles.geometry().is_some());
    let tab_names: Vec<&str> = e.tabs.iter().map(|t| t.name.as_str()).collect();
    assert_eq!(tab_names, vec!["Room", "Tiles", "Collectables", "Hazards", "Props", "Lights", "Npc"]);
}

#[test]
fn default_tab_contents() {
    let tabs = default_tabs(&rules(), &names(&["spikes"]), &names(&["tree", "rock"]), &names(&["guide"]));
    match &tabs[1].mode {
        RoomEditorMode::Block { blocks, selected } => {
            assert_eq!(*selected, 0);
            assert_eq!(blocks.len(), 2);
            assert!(matches!(&blocks[0], PlaceableType::Tile(t) if t == "stone"));
            assert!(matches!(&blocks[1], PlaceableType::Tile(t) if t == "dirt"));
        },
        _ => panic!("tiles tab places blocks"),
    }
    assert_eq!(tabs[1].hoverable.len(), 2);
    assert!(matches!(&tabs[4].hoverable[1], PlaceableType::Prop(p) if p == "rock"));
    assert!(matches!(tabs[5].mode, RoomEditorMode::Lights { .. }));
    assert!(matches!(tabs[0].mode, RoomEditorMode::Room));
}

#[test]
fn block_tab_selects_first() {
    let tab = RoomEditorTab::block("Coins".to_string(), vec![PlaceableType::Coin]);
    assert_eq!(tab.name, "Coins");
    assert_eq!(tab.hoverable.len(), 1);
    assert!(matches!(tab.mode, RoomEditorMode::Block { selected: 0, .. }));
}

#[test]
fn selected_block_follows_tab() {
    let mut e = editor();
    assert!(e.selected_block().is_none());
    e.active_tab = 4;
    assert!(matches!(e.selected_block(), Some(PlaceableType::Prop(p)) if p == "tree"));
    e.scroll_selected(1);
    assert!(matches!(e.selected_block(), Some(PlaceableType::Prop(p)) if p == "rock"));
    e.scroll_selected(1);
    assert!(matches!(e.selected_block(), Some(PlaceableType::Prop(p)) if p == "tree"));
    e.scroll_selected(-3);
    assert!(matches!(e.selected_block(), Some(PlaceableType::Prop(p)) if p == "rock"));
    e.active_tab = 5;
    assert!(matches!(e.selected_block(), Some(PlaceableType::Spotlight(_))));
    e.active_tab = 9;
    assert!(e.selected_block().is_none());
}

#[test]
fn change_layer_clears_selection() {
    let mut e = editor();
    e.selection.push(PlaceableId::Coin(0));
    e.change_layer(ActiveLayer::Main);
    assert_eq!(e.selection.len(), 1);
    e.change_layer(ActiveLayer::Foreground);
    assert_eq!(e.active_layer, ActiveLayer::Foreground);
    assert!(e.selection.is_empty());
}

#[test]
fn undo_then_redo_restores() {
    let mut e = editor();
    e.keep_state();
    e.room.place_coin(IVec2 { x: 1, y: 1 });
    assert_eq!(e.room.coins.len(), 1);
    assert_eq!(e.undo_stack.len(), 1);
    e.undo();
    assert_eq!(e.room.coins.len(), 0);
    assert_eq!(e.redo_stack.len(), 1);
    assert!(e.undo_stack.is_empty());
    e.redo();
    assert_eq!(e.room.coins.len(), 1);
    assert_eq!(e.undo_stack.len(), 1);
    assert!(e.redo_stack.is_empty());
    // Nothing to redo: nothing changes.
    e.redo();
    assert_eq!(e.room.coins.len(), 1);
    // A new state forgets what could be redone.
    e.undo();
    e.keep_state();
    assert!(e.redo_stack.is_empty());
}

#[test]
fn hovered_things_follow_the_tab() {
    let mut e = editor();
    let assets = assets();
    e.room.place_coin(IVec2 { x: 1, y: 1 });
    e.room.place_tile(IVec2 { x: 1, y: 1 }, "stone".to_string(), ActiveLayer::Main, &assets);
    let area = aabb(ONE + 100, ONE + 100, ONE + 200, ONE + 200);
    let all = e.get_hovered(area);
    assert_eq!(all, vec![PlaceableId::Tile(IVec2 { x: 1, y: 1 }), PlaceableId::Coin(0)]);
    e.active_tab = 2;
    assert_eq!(e.get_hovered(area), vec![PlaceableId::Coin(0)]);
    e.active_tab = 1;
    assert_eq!(e.get_hovered(area), vec![PlaceableId::Tile(IVec2 { x: 1, y: 1 })]);
}

#[test]
fn remove_hovered_can_be_undone() {
    let mut e = editor();
    e.room.place_coin(IVec2 { x: 1, y: 1 });
    e.room.place_coin(IVec2 { x: 2, y: 2 });
    e.hovered = vec![PlaceableId::Coin(0)];
    e.remove_hovered(&assets());
    assert_eq!(e.room.coins.len(), 1);
    assert!(e.hovered.is_empty());
    assert_eq!(e.room.coins[0].collider.raw().min, Vec2 { x: 2 * ONE, y: 2 * ONE });
    e.undo();
    assert_eq!(e.room.coins.len(), 2);
}

#[test]
fn remove_selected_takes_tiles_to_air() {
    let mut e = editor();
    let assets = assets();
    e.room.place_tile(IVec2 { x: 2, y: 1 }, "dirt".to_string(), ActiveLayer::Main, &assets);
    e.selection = vec![PlaceableId::Tile(IVec2 { x: 2, y: 1 })];
    e.remove_selected(&assets);
    assert_eq!(e.room.layers.main.tiles.get_tile_isize(IVec2 { x: 2, y: 1 }).unwrap(), "air");
    assert_eq!(e.undo_stack.len(), 1);
}

#[test]
fn hazard_attaches_to_the_nearest_solid_side() {
    let assets = assets();
    let mut room = Room::new(UVec2 { x: 4, y: 4 });
    // No solid neighbour: it sits on the bottom of its cell, pointing up.
    room.place_hazard(Vec2 { x: ONE + 8000, y: ONE + 8000 }, "spikes".to_string());
    assert_eq!(room.hazards[0].direction, Some(Vec2 { x: 0, y: 1 }));
    assert_eq!(room.hazards[0].collider.raw(), aabb(ONE + 1600, ONE, ONE + 14400, ONE + 6400));
    assert_eq!(room.hazards[0].sprite.pos, aabb(ONE, ONE, 2 * ONE, 2 * ONE));
    // A wall to the right and a floor below; the point is near the right side.
    room.place_tile(IVec2 { x: 2, y: 1 }, "stone".to_string(), ActiveLayer::Main, &assets);
    room.place_tile(IVec2 { x: 1, y: 0 }, "stone".to_string(), ActiveLayer::Main, &assets);
    room.place_hazard(Vec2 { x: ONE + 15000, y: ONE + 8000 }, "spikes".to_string());
    assert_eq!(room.hazards[1].direction, Some(Vec2 { x: -1, y: 0 }));
    assert_eq!(room.hazards[1].collider.raw(), aabb(ONE + 9600, ONE + 1600, 2 * ONE, ONE + 14400));
    // Near the bottom, the floor wins.
    room.place_hazard(Vec2 { x: ONE + 9000, y: ONE + 1000 }, "spikes".to_string());
    assert_eq!(room.hazards[2].direction, Some(Vec2 { x: 0, y: 1 }));
}

#[test]
fn get_block_returns_copies() {
    let mut room = Room::new(UVec2 { x: 4, y: 4 });
    room.place_coin(IVec2 { x: 3, y: 0 });
    match room.get_block(PlaceableId::Coin(0), ActiveLayer::Main) {
        Some(Placeable::Coin(c)) => assert_eq!(c.collider.raw().min, Vec2 { x: 3 * ONE, y: 0 }),
        _ => panic!("coin expected"),
    }
    assert!(room.get_block(PlaceableId::Coin(1), ActiveLayer::Main).is_none());
}

fn level_room(x: isize, y: isize, w: usize, h: usize) -> RoomState {
    RoomState { pos: IVec2 { x, y }, room: Room::new(UVec2 { x: w, y: h }) }
}

#[test]
fn rooms_side_by_side_get_transitions() {
    let mut level = LevelEditor {
        level_name: "one".to_string(),
        active_room: None,
        rooms: vec![
            ("a".to_string(), level_room(0, 0, 4, 3)),
            ("b".to_string(), level_room(4, 1, 2, 4)),
            ("c".to_string(), level_room(20, 20, 2, 2)),
        ],
        grid: Grid::default(),
    };
    level.update_room_transitions(&"a".to_string());
    let a = &level.rooms[0].1.room.transitions;
    let b = &level.rooms[1].1.room.transitions;
    assert_eq!(a.len(), 1);
    assert_eq!(b.len(), 1);
    assert!(level.rooms[2].1.room.transitions.is_empty());
    assert_eq!(a[0].to_room, "b");
    assert_eq!(b[0].to_room, "a");
    assert_eq!(a[0].offset, IVec2 { x: -4, y: -1 });
    assert_eq!(b[0].offset, IVec2 { x: 4, y: 1 });
    // Room a's transition covers the column just right of it, rows 1 and 2.
    assert_eq!(a[0].collider.raw(), aabb(4 * ONE, ONE, 5 * ONE, 3 * ONE));
    // Room b's covers the column just left of it, in its own cells.
    assert_eq!(b[0].collider.raw(), aabb(-ONE, 0, 0, 2 * ONE));
    // Rebuilding replaces rather than duplicates.
    level.update_room_transitions(&"a".to_string());
    assert_eq!(level.rooms[0].1.room.transitions.len(), 1);
    assert_eq!(level.rooms[1].1.room.transitions.len(), 1);
}

#[test]
fn moving_a_room_away_drops_transitions() {
    let mut level = LevelEditor {
        level_name: "one".to_string(),
        active_room: None,
        rooms: vec![("a".to_string(), level_room(0, 0, 2, 2)), ("b".to_string(), level_room(0, 2, 2, 2))],
        grid: Grid::default(),
    };
    level.update_room_transitions(&"b".to_string());
    assert_eq!(level.rooms[0].1.room.transitions.len(), 1);
    assert_eq!(level.rooms[1].1.room.transitions[0].offset, IVec2 { x: 0, y: 2 });
    level.rooms[1].1.pos = IVec2 { x: 10, y: 10 };
    level.update_room_transitions(&"b".to_string());
    assert!(level.rooms[0].1.room.transitions.is_empty());
    assert!(level.rooms[1].1.room.transitions.is_empty());
    // An unknown room only drops transitions to it.
    level.update_room_transitions(&"zzz".to_string());
    assert!(level.rooms[0].1.room.transitions.is_empty());
}

#[test]
fn renaming_a_room_retargets_transitions() {
    let mut level = LevelEditor {
        level_name: "one".to_string(),
        active_room: None,
        rooms: vec![("a".to_string(), level_room(0, 0, 2, 2)), ("b".to_string(), level_room(2, 0, 2, 2))],
        grid: Grid::default(),
    };
    level.update_room_transitions(&"a".to_string());
    assert!(level.update_room_name(&"a".to_string(), &"start".to_string()));
    assert_eq!(level.rooms[0].0, "start");
    assert_eq!(level.rooms[1].1.room.transitions[0].to_room, "start");
    assert_eq!(level.rooms[0].1.room.transitions[0].to_room, "b");
    // A taken name or the same name changes nothing.
    assert!(!level.update_room_name(&"start".to_string(), &"b".to_string()));
    assert!(!level.update_room_name(&"b".to_string(), &"b".to_string()));
    assert_eq!(level.rooms[0].0, "start");
    assert_eq!(level.rooms[1].0, "b");
}

fn at(x: i64, y: i64) -> Vec2 {
    Vec2 { x: x * ONE / 10, y: y * ONE / 10 }
}

fn tile_of(e: &RoomEditor, x: usize, y: usize) -> String {
    let m = &e.room.layers.main.tiles;
    m.tiles[x + y * m.size.x].clone()
}

#[test]
fn placing_the_selected_block() {
    let assets = assets();
    let mut e = editor();
    e.active_tab = 1;
    e.place_block(at(15, 15), Vec2 { x: 0, y: 0 }, &assets);
    assert_eq!(tile_of(&e, 1, 1), "stone");
    e.action_place(PlaceableType::Coin, at(25, 5), Vec2 { x: 0, y: 0 }, &assets);
    assert_eq!(e.room.coins.len(), 1);
    assert_eq!(e.room.coins[0].collider.raw(), aabb(2 * ONE, 0, 3 * ONE, ONE));
    e.action_place(PlaceableType::Npc("guide".to_string()), at(5, 5), Vec2 { x: 0, y: 0 }, &assets);
    assert!(e.room.npcs.is_empty());
    // The room tab places nothing.
    e.active_tab = 0;
    e.place_block(at(5, 5), Vec2 { x: 0, y: 0 }, &assets);
    assert_eq!(tile_of(&e, 0, 0), "air");
}

#[test]
fn clicks_start_the_right_drag() {
    let assets = assets();
    let mut e = editor();
    e.active_tab = 1;
    let r = e.click_action(MouseButton::Left, false, at(5, 5), Vec2 { x: 0, y: 0 }, &assets);
    assert!(matches!(r, Some(RoomDragAction::PlaceTile)));
    assert_eq!(e.undo_stack.len(), 1);
    let r = e.click_action(MouseButton::Left, true, at(5, 5), Vec2 { x: 0, y: 0 }, &assets);
    assert!(matches!(r, Some(RoomDragAction::RectSelection)));
    let r = e.click_action(MouseButton::Right, false, at(5, 5), Vec2 { x: 0, y: 0 }, &assets);
    assert!(matches!(r, Some(RoomDragAction::RemoveTile)));
    assert_eq!(e.undo_stack.len(), 2);
    let r = e.click_action(MouseButton::Middle, false, at(5, 5), Vec2 { x: 7, y: 8 }, &assets);
    assert!(matches!(r, Some(RoomDragAction::MoveCamera { initial_camera_pos: Vec2 { x: 7, y: 8 } })));
    e.active_tab = 0;
    let r = e.click_action(MouseButton::Right, false, at(5, 5), Vec2 { x: 0, y: 0 }, &assets);
    assert!(r.is_none());
    let r = e.click_action(MouseButton::Left, false, at(5, 5), Vec2 { x: 0, y: 0 }, &assets);
    assert!(matches!(r, Some(RoomDragAction::RectSelection)));
}

#[test]
fn clicking_a_block_grabs_it() {
    let assets = assets();
    let mut e = editor();
    e.active_tab = 2;
    e.action_place(PlaceableType::Coin, at(25, 5), Vec2 { x: 0, y: 0 }, &assets);
    e.hovered = e.get_hovered(Aabb2::point(at(25, 5)));
    assert_eq!(e.hovered, vec![PlaceableId::Coin(0)]);
    let r = e.click_action(MouseButton::Left, false, at(25, 5), Vec2 { x: 0, y: 0 }, &assets);
    match r {
        Some(RoomDragAction::MoveBlocks { blocks, initial_pos }) => {
            assert_eq!(blocks.len(), 1);
            assert_eq!(initial_pos, at(25, 5));
        },
        _ => panic!("the hovered coin is grabbed"),
    }
    assert!(e.room.coins.is_empty());
    assert_eq!(e.selection, vec![PlaceableId::Coin(0)]);
    assert_eq!(e.undo_stack.len(), 1);
    assert!(e.cancel(&Some(RoomDragAction::RectSelection)) == false);
    assert!(e.selection.is_empty());
    // Cancelling the drag puts the coin back and forgets the remembered room.
    assert!(e.cancel(&Some(RoomDragAction::MoveBlocks { blocks: vec![], initial_pos: at(0, 0) })));
    assert_eq!(e.room.coins.len(), 1);
    assert!(e.undo_stack.is_empty());
}

#[test]
fn picking_toggles_the_selection() {
    let assets = assets();
    let mut e = editor();
    e.toggle_select(PlaceableId::Coin(0), true);
    e.toggle_select(PlaceableId::Coin(1), true);
    assert_eq!(e.selection, vec![PlaceableId::Coin(0), PlaceableId::Coin(1)]);
    e.toggle_select(PlaceableId::Coin(0), true);
    assert_eq!(e.selection, vec![PlaceableId::Coin(1)]);
    e.toggle_select(PlaceableId::Coin(2), false);
    assert_eq!(e.selection, vec![PlaceableId::Coin(2)]);
    e.hovered = vec![PlaceableId::Coin(2)];
    e.click_select(false, at(5, 5), Vec2 { x: 0, y: 0 }, &assets);
    assert_eq!(e.selection, vec![PlaceableId::Coin(2)]);
    e.click_select(true, at(5, 5), Vec2 { x: 0, y: 0 }, &assets);
    assert!(e.selection.is_empty());
    // With nothing hovered, a click places the tab's block.
    e.hovered = vec![];
    e.active_tab = 1;
    e.selection = vec![PlaceableId::Coin(3)];
    e.click_select(false, at(35, 35), Vec2 { x: 0, y: 0 }, &assets);
    assert!(e.selection.is_empty());
    assert_eq!(tile_of(&e, 3, 3), "stone");
}

#[test]
fn box_selection_adds_what_is_inside() {
    let assets = assets();
    let mut e = editor();
    e.active_tab = 1;
    e.place_block(at(5, 5), Vec2 { x: 0, y: 0 }, &assets);
    e.place_block(at(15, 5), Vec2 { x: 0, y: 0 }, &assets);
    e.place_block(at(35, 35), Vec2 { x: 0, y: 0 }, &assets);
    e.selection = vec![PlaceableId::Coin(9)];
    e.select_rect(at(1, 1), at(19, 9), true);
    assert_eq!(e.selection.len(), 3);
    assert!(e.selection.contains(&PlaceableId::Tile(IVec2 { x: 0, y: 0 })));
    assert!(e.selection.contains(&PlaceableId::Tile(IVec2 { x: 1, y: 0 })));
    e.select_rect(at(1, 1), at(19, 9), true);
    assert_eq!(e.selection.len(), 3);
    e.select_rect(at(31, 31), at(39, 39), false);
    assert_eq!(e.selection, vec![PlaceableId::Tile(IVec2 { x: 3, y: 3 })]);
}

#[test]
fn middle_click_goes_to_the_tab_of_a_block() {
    let assets = assets();
    let mut e = editor();
    e.active_tab = 1;
    e.scroll_selected(1);
    e.place_block(at(5, 5), Vec2 { x: 0, y: 0 }, &assets);
    e.scroll_selected(1);
    e.active_tab = 0;
    e.hovered = vec![PlaceableId::Tile(IVec2 { x: 0, y: 0 })];
    e.goto_hovered();
    assert_eq!(e.active_tab, 1);
    assert!(matches!(e.tabs[1].mode, RoomEditorMode::Block { selected: 1, .. }));
    // Nothing hovered: nothing changes.
    e.hovered = vec![];
    e.active_tab = 3;
    e.goto_hovered();
    assert_eq!(e.active_tab, 3);
}

#[test]
fn renaming_back_restores_the_transitions() {
    let mut level = LevelEditor {
        level_name: "one".to_string(),
        active_room: None,
        rooms: vec![("a".to_string(), level_room(0, 0, 2, 2)), ("b".to_string(), level_room(2, 0, 2, 2))],
        grid: Grid::default(),
    };
    level.update_room_transitions(&"a".to_string());
    let before: Vec<String> = level.rooms.iter().flat_map(|r| r.1.room.transitions.iter().map(|t| t.to_room.clone())).collect();
    assert!(level.update_room_name(&"a".to_string(), &"c".to_string()));
    assert!(level.update_room_name(&"c".to_string(), &"a".to_string()));
    let after: Vec<String> = level.rooms.iter().flat_map(|r| r.1.room.transitions.iter().map(|t| t.to_room.clone())).collect();
    assert_eq!(before, after);
    assert_eq!(level.rooms[0].0, "a");
}

#[test]
fn cursor_snaps_to_half_cells() {
    let e = editor();
    assert_eq!(e.snap_cursor(Vec2 { x: 4800, y: 3200 }), Vec2 { x: 8000, y: 0 });
    assert_eq!(e.snap_cursor(Vec2 { x: 4000, y: -4000 }), Vec2 { x: 8000, y: -8000 });
    assert_eq!(e.snap_cursor(Vec2 { x: -12100, y: 23900 }), Vec2 { x: -16000, y: 24000 });
}

#[test]
fn dragging_places_and_removes_tiles() {
    let assets = assets();
    let mut e = editor();
    e.active_tab = 1;
    e.cursor_moved(at(15, 15), &Some(RoomDragAction::PlaceTile), Vec2 { x: 0, y: 0 }, &assets);
    assert_eq!(tile_of(&e, 1, 1), "stone");
    e.cursor_moved(at(15, 15), &None, Vec2 { x: 0, y: 0 }, &assets);
    assert_eq!(e.hovered, vec![PlaceableId::Tile(IVec2 { x: 1, y: 1 })]);
    e.cursor_moved(at(15, 15), &Some(RoomDragAction::RemoveTile), Vec2 { x: 0, y: 0 }, &assets);
    assert_eq!(tile_of(&e, 1, 1), "air");
    assert!(e.hovered.is_empty());
    assert_eq!(e.undo_stack.len(), 1);
}

#[test]
fn carried_blocks_are_put_down_moved() {
    let assets = assets();
    let mut e = editor();
    e.active_tab = 1;
    e.place_block(at(5, 5), Vec2 { x: 0, y: 0 }, &assets);
    e.action_place(PlaceableType::Coin, at(25, 5), Vec2 { x: 0, y: 0 }, &assets);
    e.active_tab = 0;
    e.select_rect(at(1, 1), at(29, 9), false);
    assert_eq!(e.selection.len(), 2);
    e.hovered = e.get_hovered(Aabb2::point(at(5, 5)));
    let grabbed = e.click_action(MouseButton::Left, false, at(5, 5), Vec2 { x: 0, y: 0 }, &assets);
    let blocks = match grabbed {
        Some(RoomDragAction::MoveBlocks { blocks, .. }) => blocks,
        _ => panic!("the selection is grabbed"),
    };
    assert_eq!(blocks.len(), 2);
    assert_eq!(tile_of(&e, 0, 0), "air");
    assert!(e.room.coins.is_empty());
    e.move_blocks(blocks, Vec2 { x: 12 * ONE / 10, y: 0 }, at(15, 5), &assets);
    assert_eq!(tile_of(&e, 1, 0), "stone");
    assert_eq!(e.room.coins.len(), 1);
    assert_eq!(e.room.coins[0].collider.raw(), aabb(2 * ONE + 19200, 0, 3 * ONE + 19200, ONE));
    assert_eq!(e.selection.len(), 2);
    assert!(e.selection.contains(&PlaceableId::Tile(IVec2 { x: 1, y: 0 })));
    assert!(e.selection.contains(&PlaceableId::Coin(0)));
    assert_eq!(e.hovered, vec![PlaceableId::Tile(IVec2 { x: 1, y: 0 })]);
    assert_eq!(e.undo_stack.len(), 2);
}

#[test]
fn editor_keys() {
    let assets = assets();
    let mut e = editor();
    e.active_tab = 1;
    e.keep_state();
    e.place_block(at(5, 5), Vec2 { x: 0, y: 0 }, &assets);
    assert_eq!(e.key_down(EditorKey::Z, true, false, at(0, 0), &None), EditorCommand::Nothing);
    assert_eq!(tile_of(&e, 0, 0), "air");
    e.key_down(EditorKey::Z, true, true, at(0, 0), &None);
    assert_eq!(tile_of(&e, 0, 0), "stone");
    // Without ctrl, Z does nothing.
    e.key_down(EditorKey::Z, false, false, at(0, 0), &None);
    assert_eq!(tile_of(&e, 0, 0), "stone");
    assert_eq!(e.key_down(EditorKey::S, true, false, at(0, 0), &None), EditorCommand::Save);
    assert_eq!(e.key_down(EditorKey::S, false, false, at(0, 0), &None), EditorCommand::Nothing);
    e.key_down(EditorKey::R, false, false, at(25, 15), &None);
    assert_eq!(e.room.spawn_point, at(25, 15));
    e.key_down(EditorKey::Right, false, false, at(0, 0), &None);
    assert!(matches!(e.tabs[1].mode, RoomEditorMode::Block { selected: 1, .. }));
    e.key_down(EditorKey::Left, false, false, at(0, 0), &None);
    assert!(matches!(e.tabs[1].mode, RoomEditorMode::Block { selected: 0, .. }));
    e.selection = vec![PlaceableId::Coin(0)];
    let carrying = Some(RoomDragAction::MoveBlocks { blocks: vec![], initial_pos: at(0, 0) });
    assert_eq!(e.key_down(EditorKey::Escape, false, false, at(0, 0), &carrying), EditorCommand::EndDrag);
    assert!(e.selection.is_empty());
    assert_eq!(e.key_down(EditorKey::Escape, false, false, at(0, 0), &None), EditorCommand::Nothing);
}

#[test]
fn duplicating_the_selection_starts_a_drag_of_copies() {
    let assets = assets();
    let mut e = editor();
    e.active_tab = 2;
    e.action_place(PlaceableType::Coin, at(25, 5), Vec2 { x: 0, y: 0 }, &assets);
    e.action_place(PlaceableType::Coin, at(45, 5), Vec2 { x: 0, y: 0 }, &assets);
    let undo = e.undo_stack.len();
    // Nothing selected: nothing happens.
    assert!(e.duplicate_selected().is_none());
    assert_eq!(e.undo_stack.len(), undo);
    // The first selected id names nothing: nothing happens.
    e.selection = vec![PlaceableId::Coin(7), PlaceableId::Coin(0)];
    assert!(e.duplicate_selected().is_none());
    e.selection = vec![PlaceableId::Coin(1), PlaceableId::Coin(7), PlaceableId::Coin(0)];
    match e.duplicate_selected() {
        Some(RoomDragAction::MoveBlocks { blocks, initial_pos }) => {
            // Copies of the coins that exist, in the selection's order; the room keeps its coins.
            assert_eq!(blocks.len(), 2);
            assert_eq!(initial_pos, e.room.coins[1].collider.raw().min);
        },
        _ => panic!("a drag of copies starts"),
    }
    assert_eq!(e.room.coins.len(), 2);
    assert_eq!(e.undo_stack.len(), undo + 1);
    assert_eq!(e.key_down(EditorKey::D, true, false, at(0, 0), &None), EditorCommand::Duplicate);
    assert_eq!(e.key_down(EditorKey::D, false, false, at(0, 0), &None), EditorCommand::Nothing);
}
