use drill_above::geom::{IVec2, UVec2, Vec2};
use drill_above::grid::Grid;
use drill_above::layout::layout_rooms;
use drill_above::level::{LevelEditor, RoomState};
use drill_above::level_edit::{random_room_name, LevelDragAction};
use drill_above::room::Room;
use drill_above::loading::{loaded, next_to_load, queue_transitions};

const ONE: i64 = 16000;

fn state(x: isize, y: isize, w: usize, h: usize) -> RoomState {
    RoomState { pos: IVec2 { x, y }, room: Room::new(UVec2 { x: w, y: h }) }
}

fn level(rooms: Vec<(&str, RoomState)>) -> LevelEditor {
    LevelEditor {
        level_name: "one".to_string(),
        active_room: None,
        rooms: rooms.into_iter().map(|(n, r)| (n.to_string(), r)).collect(),
        grid: Grid::default(),
    }
}

/// The world position `(x / 10, y / 10)`.
fn at(x: i64, y: i64) -> Vec2 {
    Vec2 { x: x * ONE / 10, y: y * ONE / 10 }
}

fn is_name(s: &str) -> bool {
    s.len() == 5 && s.chars().all(|c| c.is_ascii_uppercase())
}

#[test]
fn rooms_under_the_cursor() {
    let mut l = level(vec![("a", state(0, 0, 4, 3)), ("b", state(4, 1, 2, 4))]);
    assert_eq!(l.hovered_room(at(10, 10)), Some(0));
    assert_eq!(l.hovered_room(at(45, 20)), Some(1));
    assert_eq!(l.hovered_room(at(40, 5)), None);
    l.edit_room_hovered(at(100, 100));
    assert_eq!(l.active_room, None);
    l.edit_room_hovered(at(45, 20));
    assert_eq!(l.active_room, Some("b".to_string()));
    assert_eq!(l.rooms[0].1.aabb().max, Vec2 { x: 4 * ONE, y: 3 * ONE });
}

#[test]
fn dragged_rooms_snap_to_edges() {
    let l = level(vec![("a", state(0, 0, 4, 3)), ("b", state(10, 0, 2, 2))]);
    // Near the right edge of a, with the bottoms aligned.
    assert_eq!(l.snap_room_pos(&"b".to_string(), at(43, 2)), IVec2 { x: 4, y: 0 });
    // Near the top of a, right edges aligned.
    assert_eq!(l.snap_room_pos(&"b".to_string(), at(19, 34)), IVec2 { x: 2, y: 3 });
    // Far from every edge: the cell under the position.
    assert_eq!(l.snap_room_pos(&"b".to_string(), at(72, 79)), IVec2 { x: 7, y: 7 });
    // A room does not snap to itself.
    assert_eq!(l.snap_room_pos(&"a".to_string(), at(1, 1)), IVec2 { x: 0, y: 0 });
}

#[test]
fn dragging_moves_and_cancel_puts_back() {
    let mut l = level(vec![("a", state(0, 0, 4, 3)), ("b", state(10, 0, 2, 2))]);
    let action = l.click_action(at(105, 5));
    match &action {
        LevelDragAction::MoveRoom { room, initial_pos } => {
            assert_eq!(room, "b");
            assert_eq!(*initial_pos, IVec2 { x: 10, y: 0 });
        },
        _ => panic!("a room under the cursor is moved"),
    }
    assert!(l.drag_room(&"b".to_string(), IVec2 { x: 10, y: 0 }, at(105, 5), at(48, 3)));
    assert_eq!(l.rooms[1].1.pos, IVec2 { x: 4, y: 0 });
    assert!(l.cancel_action(&action));
    assert_eq!(l.rooms[1].1.pos, IVec2 { x: 10, y: 0 });
    let camera = LevelDragAction::MoveCamera { initial_camera_pos: Vec2 { x: 0, y: 0 } };
    assert!(!l.cancel_action(&camera));
    match l.click_action(at(-35, 25)) {
        LevelDragAction::CreateRoom { initial_pos } => assert_eq!(initial_pos, IVec2 { x: -4, y: 2 }),
        _ => panic!("an empty spot starts a new room"),
    }
}

#[test]
fn moved_room_is_linked_on_release() {
    let mut l = level(vec![("a", state(0, 0, 4, 3)), ("b", state(10, 0, 2, 2))]);
    l.move_room(&"b".to_string(), IVec2 { x: 4, y: 0 });
    let action = LevelDragAction::MoveRoom { room: "b".to_string(), initial_pos: IVec2 { x: 10, y: 0 } };
    assert_eq!(l.release_action(&action, at(45, 5)), None);
    assert_eq!(l.rooms[0].1.room.transitions.len(), 1);
    assert_eq!(l.rooms[1].1.room.transitions[0].to_room, "a");
}

#[test]
fn drawing_a_room_creates_and_links_it() {
    let mut l = level(vec![("a", state(0, 0, 3, 2))]);
    let action = LevelDragAction::CreateRoom { initial_pos: IVec2 { x: 5, y: 2 } };
    let name = l.release_action(&action, at(35, 5)).expect("a room is created");
    assert!(is_name(&name));
    assert_eq!(l.rooms.len(), 2);
    assert_eq!(l.rooms[1].0, name);
    assert_eq!(l.rooms[1].1.pos, IVec2 { x: 3, y: 0 });
    assert_eq!(l.rooms[1].1.room.size, UVec2 { x: 2, y: 2 });
    assert_eq!(l.rooms[0].1.room.transitions.len(), 1);
    assert_eq!(l.rooms[0].1.room.transitions[0].to_room, name);
    assert_eq!(l.rooms[1].1.room.transitions[0].to_room, "a");
    // A room too large for the level is not drawn.
    let huge = LevelDragAction::CreateRoom { initial_pos: IVec2 { x: -200_000_000, y: 0 } };
    assert_eq!(l.release_action(&huge, at(5, 5)), None);
    assert_eq!(l.rooms.len(), 2);
    assert!(is_name(&random_room_name()));
    let direct = l.create_room(IVec2 { x: 0, y: 5 }, IVec2 { x: 1, y: 6 });
    assert!(is_name(&direct));
    assert_eq!(l.rooms.iter().filter(|(n, _)| *n == direct).count(), 1);
}

#[test]
fn removing_a_room_drops_links_to_it() {
    let mut l = level(vec![("a", state(0, 0, 4, 3)), ("b", state(4, 1, 2, 4))]);
    l.update_room_transitions(&"a".to_string());
    l.active_room = Some("a".to_string());
    l.remove_room_hovered(at(100, 100));
    assert_eq!(l.rooms.len(), 2);
    l.remove_room_hovered(at(10, 10));
    assert_eq!(l.rooms.len(), 1);
    assert_eq!(l.rooms[0].0, "b");
    assert!(l.rooms[0].1.room.transitions.is_empty());
    assert_eq!(l.active_room, None);
}

#[test]
fn layout_follows_transitions() {
    let mut l = level(vec![("c", state(20, 20, 2, 2)), ("a", state(0, 0, 4, 3)), ("b", state(4, 1, 2, 4))]);
    l.update_room_transitions(&"a".to_string());
    for r in l.rooms.iter_mut() {
        r.1.pos = IVec2 { x: 0, y: 0 };
    }
    layout_rooms(&mut l.rooms);
    // b is last: it goes to the origin, and a beside it as their transition says.
    assert_eq!(l.rooms[2].1.pos, IVec2 { x: 0, y: 0 });
    assert_eq!(l.rooms[1].1.pos, IVec2 { x: -4, y: -1 });
    // c is joined to nothing: it goes five cells right of everything, level with the bottom.
    assert_eq!(l.rooms[0].1.pos, IVec2 { x: 7, y: -1 });
    assert_eq!(l.rooms[0].0, "c");
    assert_eq!(l.rooms[1].1.room.transitions.len(), 1);
}

#[test]
fn layout_takes_a_position_from_a_laid_out_room() {
    let mut l = level(vec![("a", state(0, 0, 4, 3)), ("b", state(4, 1, 2, 4)), ("c", state(20, 20, 2, 2))]);
    l.update_room_transitions(&"a".to_string());
    for r in l.rooms.iter_mut() {
        r.1.pos = IVec2 { x: 0, y: 0 };
    }
    layout_rooms(&mut l.rooms);
    assert_eq!(l.rooms[2].1.pos, IVec2 { x: 0, y: 0 });
    assert_eq!(l.rooms[1].1.pos, IVec2 { x: 4, y: 1 });
    assert_eq!(l.rooms[0].1.pos, IVec2 { x: 0, y: 0 });
}

#[test]
fn renaming_the_edited_room() {
    let mut l = level(vec![("a", state(0, 0, 2, 2)), ("b", state(2, 0, 2, 2))]);
    l.update_room_transitions(&"a".to_string());
    assert!(!l.rename_active_room(&"x".to_string()));
    l.active_room = Some("a".to_string());
    assert!(l.rename_active_room(&"start".to_string()));
    assert_eq!(l.active_room, Some("start".to_string()));
    assert_eq!(l.rooms[0].0, "start");
    assert_eq!(l.rooms[1].1.room.transitions[0].to_room, "start");
    // A name already taken renames nothing, but the editor follows the name.
    assert!(!l.rename_active_room(&"b".to_string()));
    assert_eq!(l.rooms[0].0, "start");
    assert_eq!(l.active_room, Some("b".to_string()));
}

#[test]
fn rooms_are_loaded_once_each() {
    let mut l = level(vec![("a", state(0, 0, 4, 3)), ("b", state(4, 1, 2, 4))]);
    l.update_room_transitions(&"a".to_string());
    // A queue with a name already loaded at its end, and one that is not.
    let mut to_load = vec!["c".to_string(), "b".to_string(), "a".to_string()];
    assert!(loaded(&l.rooms, &"a".to_string()));
    assert!(!loaded(&l.rooms, &"c".to_string()));
    assert_eq!(next_to_load(&mut to_load, &l.rooms), Some("c".to_string()));
    assert!(to_load.is_empty());
    let mut to_load = vec!["b".to_string()];
    assert_eq!(next_to_load(&mut to_load, &l.rooms), None);
    // The rooms a loaded room leads to are queued in order.
    let mut queue = vec!["x".to_string()];
    queue_transitions(&mut queue, &l.rooms[0].1.room);
    assert_eq!(queue, vec!["x".to_string(), "b".to_string()]);
}

#[test]
fn loading_a_level_reaches_every_linked_room_once() {
    // The level's files: a and b lead to each other, c to a; only c is listed.
    let mut l = level(vec![("a", state(0, 0, 4, 3)), ("b", state(4, 1, 2, 4)), ("c", state(-2, 0, 2, 2))]);
    l.update_room_transitions(&"a".to_string());
    l.update_room_transitions(&"c".to_string());
    let files = l.rooms;
    let mut to_load = vec!["c".to_string()];
    let mut rooms: Vec<(String, RoomState)> = Vec::new();
    while let Some(name) = next_to_load(&mut to_load, &rooms) {
        let room = files.iter().find(|(n, _)| *n == name).unwrap().1.room.clone();
        queue_transitions(&mut to_load, &room);
        rooms.push((name, RoomState { pos: IVec2 { x: 0, y: 0 }, room }));
    }
    let mut names: Vec<String> = rooms.iter().map(|(n, _)| n.clone()).collect();
    names.sort();
    assert_eq!(names, vec!["a".to_string(), "b".to_string(), "c".to_string()]);
}
