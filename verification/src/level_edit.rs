//! Editing the layout of a level: picking, moving, creating and removing rooms.
use vstd::prelude::*;
use crate::geom::{Aabb2, IAabb2, IVec2, Vec2, COORD_ONE};
use crate::geom::UVec2;
use crate::level::{
    find_room, lemma_transitions_from_places, not_to, place, place_ok, relinked, renamed_in, room_index, room_state_ok, rooms_ok,
    same_but_transitions, spec_aabb_i, transitions_from, transitions_to, tviews, LevelEditor, RoomState, LEVEL_LIMIT,
};
use crate::room::Room;
use crate::tilemap::random_index;

verus! {

/// The box of cells `b` in world coordinates, one world unit per cell.
pub open spec fn cells_to_world(b: IAabb2) -> Aabb2 {
    Aabb2 {
        min: Vec2 { x: (b.min.x * COORD_ONE) as i64, y: (b.min.y * COORD_ONE) as i64 },
        max: Vec2 { x: (b.max.x * COORD_ONE) as i64, y: (b.max.y * COORD_ONE) as i64 },
    }
}

/// Whether the room `r` covers the world position `p`.
pub open spec fn covers(r: RoomState, p: Vec2) -> bool {
    cells_to_world(spec_aabb_i(place(r))).spec_contains(p)
}

/// The first room that covers `p`, if any.
pub open spec fn first_covering(rooms: Seq<(String, RoomState)>, p: Vec2) -> Option<int>
    decreases rooms.len(),
{
    if rooms.len() == 0 {
        None
    } else {
        match first_covering(rooms.drop_last(), p) {
            Some(i) => Some(i),
            None => if covers(rooms.last().1, p) { Some(rooms.len() - 1) } else { None },
        }
    }
}

proof fn lemma_first_covering(rooms: Seq<(String, RoomState)>, p: Vec2)
    ensures
        match first_covering(rooms, p) {
            Some(i) => 0 <= i < rooms.len() && covers(rooms[i].1, p)
                && forall|j: int| 0 <= j < i ==> !covers(#[trigger] rooms[j].1, p),
            None => forall|j: int| 0 <= j < rooms.len() ==> !covers(#[trigger] rooms[j].1, p),
        },
    decreases rooms.len(),
{
    if rooms.len() > 0 {
        lemma_first_covering(rooms.drop_last(), p);
        assert forall|j: int| 0 <= j < rooms.len() - 1 implies #[trigger] rooms[j] == rooms.drop_last()[j] by {}
    }
}

/// Once a prefix of the rooms has a covering room, so do all the rooms.
proof fn lemma_first_covering_prefix(rooms: Seq<(String, RoomState)>, p: Vec2, m: int)
    requires
        0 <= m <= rooms.len(),
        first_covering(rooms.take(m), p) is Some,
    ensures
        first_covering(rooms, p) == first_covering(rooms.take(m), p),
    decreases rooms.len() - m,
{
    if m < rooms.len() {
        assert(rooms.take(m + 1).drop_last() =~= rooms.take(m));
        lemma_first_covering_prefix(rooms, p, m + 1);
    } else {
        assert(rooms.take(m) =~= rooms);
    }
}

impl RoomState {
    /// The room's box in world coordinates: one world unit per cell of the level.
    pub fn aabb(&self) -> (b: Aabb2)
        requires
            room_state_ok(*self),
        ensures
            b == cells_to_world(spec_aabb_i(place(*self))),
    {
        let c = self.aabb_i();
        Aabb2 {
            min: Vec2 { x: c.min.x as i64 * COORD_ONE, y: c.min.y as i64 * COORD_ONE },
            max: Vec2 { x: c.max.x as i64 * COORD_ONE, y: c.max.y as i64 * COORD_ONE },
        }
    }
}

impl LevelEditor {
    /// The first room under the world position `cursor`, if any.
    pub fn hovered_room(&self, cursor: Vec2) -> (r: Option<usize>)
        requires
            rooms_ok(self.rooms@),
        ensures
            match first_covering(self.rooms@, cursor) {
                Some(i) => r matches Some(k) && k == i,
                None => r is None,
            },
            r matches Some(i) ==> i < self.rooms@.len(),
    {
        proof {
            lemma_first_covering(self.rooms@, cursor);
        }
        let n = self.rooms.len();
        let mut i: usize = 0;
        while i < n
            invariant
                n == self.rooms@.len(),
                i <= n,
                rooms_ok(self.rooms@),
                first_covering(self.rooms@.take(i as int), cursor) is None,
            decreases n - i,
        {
            assert(room_state_ok(self.rooms@[i as int].1));
            let b = self.rooms[i].1.aabb();
            assert(self.rooms@.take(i as int + 1).drop_last() =~= self.rooms@.take(i as int));
            if b.contains(cursor) {
                proof {
                    lemma_first_covering_prefix(self.rooms@, cursor, i as int + 1);
                }
                return Some(i);
            }
            i += 1;
        }
        assert(self.rooms@.take(n as int) =~= self.rooms@);
        None
    }

    /// Opens the room under `cursor` for editing, if there is one.
    pub fn edit_room_hovered(&mut self, cursor: Vec2)
        requires
            rooms_ok(old(self).rooms@),
        ensures
            final(self).rooms@ == old(self).rooms@,
            final(self).level_name == old(self).level_name,
            final(self).grid == old(self).grid,
            match first_covering(old(self).rooms@, cursor) {
                Some(i) => final(self).active_room matches Some(a) && a@ == old(self).rooms@[i].0@,
                None => final(self).active_room == old(self).active_room,
            },
    {
        proof {
            lemma_first_covering(old(self).rooms@, cursor);
        }
        match self.hovered_room(cursor) {
            Some(i) => {
                self.active_room = Some(self.rooms[i].0.clone());
            },
            None => {},
        }
    }
}

/// What dragging the mouse does in the level editor.
#[derive(Debug)]
pub enum LevelDragAction {
    /// Draws a new room from the cell where the drag started.
    CreateRoom { initial_pos: IVec2 },
    /// Moves the room `room`, which lay at `initial_pos` when the drag started.
    MoveRoom { room: String, initial_pos: IVec2 },
    /// Moves the camera, which looked at `initial_camera_pos` when the drag started.
    MoveCamera { initial_camera_pos: Vec2 },
}

/// Whether `p` is a position that a room of the level may have.
pub open spec fn pos_ok(p: IVec2) -> bool {
    -LEVEL_LIMIT <= p.x <= LEVEL_LIMIT && -LEVEL_LIMIT <= p.y <= LEVEL_LIMIT
}

/// The rooms with the one at `k` moved to the cells `p`.
pub open spec fn with_pos(rooms: Seq<(String, RoomState)>, k: int, p: IVec2) -> Seq<(String, RoomState)> {
    rooms.update(k, (rooms[k].0, RoomState { pos: p, ..rooms[k].1 }))
}

impl LevelEditor {
    /// Puts the room `name` at the cells `pos`.
    pub fn move_room(&mut self, name: &String, pos: IVec2)
        requires
            rooms_ok(old(self).rooms@),
            room_index(old(self).rooms@, name@) is Some,
            pos_ok(pos),
        ensures
            final(self).rooms@ == with_pos(old(self).rooms@, room_index(old(self).rooms@, name@).unwrap(), pos),
            rooms_ok(final(self).rooms@),
            final(self).level_name == old(self).level_name,
            final(self).active_room == old(self).active_room,
            final(self).grid == old(self).grid,
    {
        let k = find_room(&self.rooms, name).unwrap();
        let mut entry = self.rooms.remove(k);
        entry.1.pos = pos;
        self.rooms.insert(k, entry);
        assert(self.rooms@ =~= with_pos(old(self).rooms@, k as int, pos));
        proof {
            let n = self.rooms@.len() as int;
            assert forall|a: int, b: int| 0 <= a < n && 0 <= b < n && a != b implies #[trigger] self.rooms@[a].0@ != #[trigger] self.rooms@[b].0@ by {
                assert(old(self).rooms@[a].0@ != old(self).rooms@[b].0@);
            }
            assert forall|a: int| 0 <= a < n implies room_state_ok(#[trigger] self.rooms@[a].1) by {
                assert(room_state_ok(old(self).rooms@[a].1));
            }
        }
    }

    /// Cancels a drag: a room being drawn is dropped and a room being moved goes
    /// back where it was. Returns whether the drag ends; moving the camera goes on.
    pub fn cancel_action(&mut self, action: &LevelDragAction) -> (ends: bool)
        requires
            rooms_ok(old(self).rooms@),
            action matches LevelDragAction::MoveRoom { room, initial_pos } ==> room_index(old(self).rooms@, room@) is Some
                && pos_ok(*initial_pos),
        ensures
            ends == !(action is MoveCamera),
            rooms_ok(final(self).rooms@),
            match action {
                LevelDragAction::MoveRoom { room, initial_pos } =>
                    final(self).rooms@ == with_pos(old(self).rooms@, room_index(old(self).rooms@, room@).unwrap(), *initial_pos),
                _ => final(self).rooms@ == old(self).rooms@,
            },
            final(self).level_name == old(self).level_name,
            final(self).active_room == old(self).active_room,
            final(self).grid == old(self).grid,
    {
        match action {
            LevelDragAction::CreateRoom { .. } => true,
            LevelDragAction::MoveRoom { room, initial_pos } => {
                self.move_room(room, *initial_pos);
                true
            },
            LevelDragAction::MoveCamera { .. } => false,
        }
    }
}

/// How close, in world units, a room's edge must come to another room's edge
/// to snap to it: half a unit.
pub const SNAP_DISTANCE: i64 = 8000;

/// How far from the origin a dragged room may be held, in world coordinates.
pub const DRAG_LIMIT: i64 = 0x4_0000_0000_0000;

pub open spec fn abs(x: int) -> int {
    if x < 0 { -x } else { x }
}

/// One step of snapping the world coordinate `p` to the cell line `t`: the line
/// is taken, with its distance, if it lies within the snap distance and further
/// than the best line so far.
pub open spec fn snap_step(best: Option<(isize, i64)>, p: i64, t: isize) -> Option<(isize, i64)> {
    let d = abs(p - t * COORD_ONE);
    if d > SNAP_DISTANCE {
        best
    } else {
        match best {
            None => Some((t, d as i64)),
            Some(b) => if b.1 < d { Some((t, d as i64)) } else { best },
        }
    }
}

/// Snapping the x coordinate `p` of a room of size `s` to the box `b` of another
/// room: against its right edge (bottom and top aligned), its top edge (left and
/// right aligned), its left edge and its bottom edge, in that order.
pub open spec fn snap_box_x(best: Option<(isize, i64)>, p: i64, b: IAabb2, s: IVec2) -> Option<(isize, i64)> {
    let b1 = snap_step(best, p, b.max.x);
    let b2 = snap_step(b1, p, b.max.x);
    let b3 = snap_step(b2, p, b.min.x);
    let b4 = snap_step(b3, p, (b.max.x - s.x) as isize);
    let b5 = snap_step(b4, p, (b.min.x - s.x) as isize);
    let b6 = snap_step(b5, p, (b.min.x - s.x) as isize);
    let b7 = snap_step(b6, p, b.min.x);
    snap_step(b7, p, (b.max.x - s.x) as isize)
}

/// The same for the y coordinate.
pub open spec fn snap_box_y(best: Option<(isize, i64)>, p: i64, b: IAabb2, s: IVec2) -> Option<(isize, i64)> {
    let b1 = snap_step(best, p, b.min.y);
    let b2 = snap_step(b1, p, (b.max.y - s.y) as isize);
    let b3 = snap_step(b2, p, b.max.y);
    let b4 = snap_step(b3, p, b.max.y);
    let b5 = snap_step(b4, p, b.min.y);
    let b6 = snap_step(b5, p, (b.max.y - s.y) as isize);
    let b7 = snap_step(b6, p, (b.min.y - s.y) as isize);
    snap_step(b7, p, (b.min.y - s.y) as isize)
}

/// The snap of the position `p` of the room `name`, of size `s`, against the
/// first `n` rooms but itself.
pub open spec fn snap_rooms(rooms: Seq<(String, RoomState)>, name: Seq<char>, s: IVec2, p: Vec2, n: int)
    -> (Option<(isize, i64)>, Option<(isize, i64)>)
    decreases n,
{
    if n <= 0 {
        (None, None)
    } else {
        let prev = snap_rooms(rooms, name, s, p, n - 1);
        let r = rooms[n - 1];
        if r.0@ == name {
            prev
        } else {
            let b = spec_aabb_i(place(r.1));
            (snap_box_x(prev.0, p.x, b, s), snap_box_y(prev.1, p.y, b, s))
        }
    }
}

/// Where a room dragged to the world position `pos` lands: each coordinate
/// snaps to the edges of the other rooms within the snap distance, or else is
/// the cell that holds `pos`.
pub open spec fn spec_snap_room_pos(rooms: Seq<(String, RoomState)>, grid: crate::grid::Grid, name: Seq<char>, pos: Vec2) -> IVec2 {
    let k = room_index(rooms, name).unwrap();
    let size = rooms[k].1.room.size;
    let s = IVec2 { x: size.x as isize, y: size.y as isize };
    let snap = snap_rooms(rooms, name, s, pos, rooms.len() as int);
    let cell = grid.spec_cell(pos);
    IVec2 {
        x: match snap.0 {
            Some((t, _)) => t,
            None => cell.x,
        },
        y: match snap.1 {
            Some((t, _)) => t,
            None => cell.y,
        },
    }
}

fn snap_target(p: i64, t: isize, best: &mut Option<(isize, i64)>)
    requires
        -DRAG_LIMIT <= p <= DRAG_LIMIT,
        -4 * LEVEL_LIMIT <= t <= 4 * LEVEL_LIMIT,
    ensures
        *final(best) == snap_step(*old(best), p, t),
{
    let diff = p - t as i64 * COORD_ONE;
    let d = if diff < 0 { -diff } else { diff };
    if d > SNAP_DISTANCE {
        return;
    }
    match *best {
        None => {
            *best = Some((t, d));
        },
        Some(b) => {
            if b.1 < d {
                *best = Some((t, d));
            }
        },
    }
}

impl LevelEditor {
    /// Where the room `room` lands when dragged to the world position `pos`: see
    /// `spec_snap_room_pos`.
    pub fn snap_room_pos(&self, room: &String, pos: Vec2) -> (r: IVec2)
        requires
            rooms_ok(self.rooms@),
            room_index(self.rooms@, room@) is Some,
            -DRAG_LIMIT <= pos.x <= DRAG_LIMIT,
            -DRAG_LIMIT <= pos.y <= DRAG_LIMIT,
            self.grid.world_to_grid_fits(pos),
        ensures
            r == spec_snap_room_pos(self.rooms@, self.grid, room@, pos),
    {
        let k = find_room(&self.rooms, room).unwrap();
        assert(room_state_ok(self.rooms@[k as int].1));
        let size = self.rooms[k].1.room.size;
        let s = IVec2 { x: size.x as isize, y: size.y as isize };
        let mut sx: Option<(isize, i64)> = None;
        let mut sy: Option<(isize, i64)> = None;
        let n = self.rooms.len();
        let mut j: usize = 0;
        while j < n
            invariant
                n == self.rooms@.len(),
                j <= n,
                rooms_ok(self.rooms@),
                0 <= s.x <= LEVEL_LIMIT,
                0 <= s.y <= LEVEL_LIMIT,
                -DRAG_LIMIT <= pos.x <= DRAG_LIMIT,
                -DRAG_LIMIT <= pos.y <= DRAG_LIMIT,
                (sx, sy) == snap_rooms(self.rooms@, room@, s, pos, j as int),
            decreases n - j,
        {
            if self.rooms[j].0 != *room {
                assert(room_state_ok(self.rooms@[j as int].1));
                let b = self.rooms[j].1.aabb_i();
                let ghost bx = sx;
                let ghost by = sy;
                snap_target(pos.x, b.max.x, &mut sx);
                snap_target(pos.x, b.max.x, &mut sx);
                snap_target(pos.x, b.min.x, &mut sx);
                snap_target(pos.x, b.max.x - s.x, &mut sx);
                snap_target(pos.x, b.min.x - s.x, &mut sx);
                snap_target(pos.x, b.min.x - s.x, &mut sx);
                snap_target(pos.x, b.min.x, &mut sx);
                snap_target(pos.x, b.max.x - s.x, &mut sx);
                snap_target(pos.y, b.min.y, &mut sy);
                snap_target(pos.y, b.max.y - s.y, &mut sy);
                snap_target(pos.y, b.max.y, &mut sy);
                snap_target(pos.y, b.max.y, &mut sy);
                snap_target(pos.y, b.min.y, &mut sy);
                snap_target(pos.y, b.max.y - s.y, &mut sy);
                snap_target(pos.y, b.min.y - s.y, &mut sy);
                snap_target(pos.y, b.min.y - s.y, &mut sy);
                assert(sx == snap_box_x(bx, pos.x, b, s));
                assert(sy == snap_box_y(by, pos.y, b, s));
            }
            j += 1;
        }
        let cell = self.grid.world_to_grid(pos).0;
        IVec2 {
            x: match sx {
                Some((t, _)) => t,
                None => cell.x,
            },
            y: match sy {
                Some((t, _)) => t,
                None => cell.y,
            },
        }
    }
}

/// `String::from_iter`: the text made of the characters of `cs`, in order.
#[verifier::external_body]
fn string_from_chars(cs: &Vec<char>) -> (s: String)
    ensures
        s@ == cs@,
{
    String::from_iter(cs.iter())
}

/// Whether `s` can name a room drawn in the editor: five capital letters.
pub open spec fn is_room_name(s: Seq<char>) -> bool {
    s.len() == 5 && forall|i: int| 0 <= i < 5 ==> 'A' <= #[trigger] s[i] <= 'Z'
}

/// A random capital letter.
fn random_letter() -> (c: char)
    ensures
        'A' <= c <= 'Z',
{
    let letters: Vec<char> = vec![
        'A', 'B', 'C', 'D', 'E', 'F', 'G', 'H', 'I', 'J', 'K', 'L', 'M',
        'N', 'O', 'P', 'Q', 'R', 'S', 'T', 'U', 'V', 'W', 'X', 'Y', 'Z',
    ];
    let i = random_index(letters.len());
    letters[i]
}

/// A random name for a new room: five capital letters.
pub fn random_room_name() -> (s: String)
    ensures
        is_room_name(s@),
{
    let mut cs: Vec<char> = Vec::new();
    let mut i: usize = 0;
    while i < 5
        invariant
            i <= 5,
            cs@.len() == i,
            forall|j: int| 0 <= j < i ==> 'A' <= #[trigger] cs@[j] <= 'Z',
        decreases 5 - i,
    {
        let c = random_letter();
        cs.push(c);
        i += 1;
    }
    string_from_chars(&cs)
}

/// Whether a corner of a room being drawn lies within half the level limit of
/// the origin, so that the room fits the level.
pub open spec fn corner_ok(p: IVec2) -> bool {
    -LEVEL_LIMIT / 2 <= p.x <= LEVEL_LIMIT / 2 && -LEVEL_LIMIT / 2 <= p.y <= LEVEL_LIMIT / 2
}

/// The size of the cell box `b`.
pub open spec fn box_size(b: IAabb2) -> UVec2 {
    UVec2 { x: (b.max.x - b.min.x) as usize, y: (b.max.y - b.min.y) as usize }
}

/// Whether `new` is `old` with a room named `name` drawn over the cells `b`: the
/// name is five capital letters, the room takes the place of the room of that
/// name or comes last, it is linked to the rooms beside it, and the other rooms
/// only gain the transitions back to it (and lose those to a room it replaced).
pub open spec fn room_created(old: Seq<(String, RoomState)>, new: Seq<(String, RoomState)>, name: Seq<char>, b: IAabb2) -> bool {
    &&& is_room_name(name)
    &&& rooms_ok(new)
    &&& room_index(new, name) is Some
    &&& {
        let k = room_index(new, name).unwrap();
        let p = place(new[k].1);
        &&& p.pos == b.min
        &&& p.size == box_size(b)
        &&& p.grid.is_unit()
        &&& match room_index(old, name) {
            Some(j) => k == j && new.len() == old.len(),
            None => k == old.len() && new.len() == old.len() + 1,
        }
        &&& tviews(new[k].1.room.transitions@) == transitions_from(name, p, new, new.len() as int)
        &&& forall|j: int| 0 <= j < old.len() && j != k ==> {
            &&& (#[trigger] new[j]).0 == old[j].0
            &&& same_but_transitions(old[j].1, new[j].1)
            &&& tviews(new[j].1.room.transitions@) == not_to(tviews(old[j].1.room.transitions@), name)
                + transitions_to(name, p, old[j].0@, place(old[j].1))
        }
    }
}

impl LevelEditor {
    /// Adds the room `state` under `name`, in place of the room of that name if
    /// there is one.
    pub fn insert_room(&mut self, name: String, state: RoomState)
        requires
            rooms_ok(old(self).rooms@),
            room_state_ok(state),
        ensures
            match room_index(old(self).rooms@, name@) {
                Some(k) => final(self).rooms@ == old(self).rooms@.update(k, (name, state)),
                None => final(self).rooms@ == old(self).rooms@.push((name, state)),
            },
            rooms_ok(final(self).rooms@),
            final(self).level_name == old(self).level_name,
            final(self).active_room == old(self).active_room,
            final(self).grid == old(self).grid,
    {
        let ghost name_v = name@;
        match find_room(&self.rooms, &name) {
            Some(k) => {
                self.rooms.set(k, (name, state));
                proof {
                    let n = self.rooms@.len() as int;
                    assert forall|a: int, b: int| 0 <= a < n && 0 <= b < n && a != b implies #[trigger] self.rooms@[a].0@ != #[trigger] self.rooms@[b].0@ by {
                        assert(old(self).rooms@[a].0@ != old(self).rooms@[b].0@ || a == k || b == k);
                        if a == k {
                            assert(old(self).rooms@[k as int].0@ == name_v);
                            assert(old(self).rooms@[b].0@ != old(self).rooms@[k as int].0@);
                        }
                        if b == k {
                            assert(old(self).rooms@[k as int].0@ == name_v);
                            assert(old(self).rooms@[a].0@ != old(self).rooms@[k as int].0@);
                        }
                    }
                    assert forall|a: int| 0 <= a < n implies room_state_ok(#[trigger] self.rooms@[a].1) by {
                        if a != k {
                            assert(room_state_ok(old(self).rooms@[a].1));
                        }
                    }
                }
            },
            None => {
                self.rooms.push((name, state));
                proof {
                    let n = self.rooms@.len() as int;
                    assert forall|a: int, b: int| 0 <= a < n && 0 <= b < n && a != b implies #[trigger] self.rooms@[a].0@ != #[trigger] self.rooms@[b].0@ by {
                        if a < n - 1 && b < n - 1 {
                            assert(old(self).rooms@[a].0@ != old(self).rooms@[b].0@);
                        } else if a == n - 1 {
                            assert(old(self).rooms@[b].0@ != name_v);
                        } else {
                            assert(old(self).rooms@[a].0@ != name_v);
                        }
                    }
                    assert forall|a: int| 0 <= a < n implies room_state_ok(#[trigger] self.rooms@[a].1) by {
                        if a < n - 1 {
                            assert(room_state_ok(old(self).rooms@[a].1));
                        }
                    }
                }
            },
        }
    }

    /// Draws a new room over the cells from `initial_pos` to `pos` (the corners
    /// of the drag), with a random name, and links it to the rooms beside it.
    /// Returns its name.
    pub fn create_room(&mut self, initial_pos: IVec2, pos: IVec2) -> (name: String)
        requires
            rooms_ok(old(self).rooms@),
            corner_ok(initial_pos),
            corner_ok(pos),
            box_size(IAabb2::spec_from_corners(initial_pos, pos)).x * box_size(IAabb2::spec_from_corners(initial_pos, pos)).y
                <= usize::MAX,
        ensures
            room_created(old(self).rooms@, final(self).rooms@, name@, IAabb2::spec_from_corners(initial_pos, pos)),
            final(self).level_name == old(self).level_name,
            final(self).active_room == old(self).active_room,
            final(self).grid == old(self).grid,
    {
        let b = IAabb2::from_corners(initial_pos, pos);
        let size = UVec2 { x: (b.max.x - b.min.x) as usize, y: (b.max.y - b.min.y) as usize };
        let room = Room::new(size);
        let state = RoomState { pos: b.min, room };
        proof {
            assert(place_ok(place(state)));
        }
        let name = random_room_name();
        self.insert_room(name.clone(), state);
        let ghost mid = self.rooms@;
        proof {
            let k = match room_index(old(self).rooms@, name@) {
                Some(j) => j,
                None => old(self).rooms@.len() as int,
            };
            assert(mid[k].0@ == name@);
            let c = room_index(mid, name@).unwrap();
            if c != k {
                assert(mid[c].0@ != mid[k].0@);
            }
        }
        self.update_room_transitions(&name);
        proof {
            let k = room_index(mid, name@).unwrap();
            assert(relinked(mid, self.rooms@, name@));
            assert(self.rooms@[k].0@ == name@);
            let c = room_index(self.rooms@, name@).unwrap();
            if c != k {
                assert(self.rooms@[c].0@ != self.rooms@[k].0@);
            }
            assert(place(self.rooms@[k].1) == place(mid[k].1));
            lemma_transitions_from_places(name@, place(mid[k].1), self.rooms@, mid, mid.len() as int);
            assert forall|j: int| 0 <= j < old(self).rooms@.len() && j != k implies
                #[trigger] mid[j] == old(self).rooms@[j] by {}
        }
        name
    }

    /// Removes the room under `cursor`, if there is one: it is no longer edited,
    /// and the transitions to it are dropped from the other rooms.
    pub fn remove_room_hovered(&mut self, cursor: Vec2)
        requires
            rooms_ok(old(self).rooms@),
        ensures
            rooms_ok(final(self).rooms@),
            match first_covering(old(self).rooms@, cursor) {
                None => final(self).rooms@ == old(self).rooms@ && final(self).active_room == old(self).active_room,
                Some(i) => {
                    let name = old(self).rooms@[i].0@;
                    let rest = old(self).rooms@.remove(i);
                    &&& final(self).rooms@.len() == rest.len()
                    &&& forall|j: int| 0 <= j < rest.len() ==> {
                        &&& (#[trigger] final(self).rooms@[j]).0 == rest[j].0
                        &&& same_but_transitions(rest[j].1, final(self).rooms@[j].1)
                        &&& tviews(final(self).rooms@[j].1.room.transitions@) == not_to(tviews(rest[j].1.room.transitions@), name)
                    }
                    &&& final(self).active_room == if old(self).active_room matches Some(a) && a@ == name {
                        None
                    } else {
                        old(self).active_room
                    }
                },
            },
            final(self).level_name == old(self).level_name,
            final(self).grid == old(self).grid,
    {
        proof {
            lemma_first_covering(old(self).rooms@, cursor);
        }
        let i = match self.hovered_room(cursor) {
            Some(i) => i,
            None => {
                return;
            },
        };
        let entry = self.rooms.remove(i);
        let name = entry.0;
        let is_active = match &self.active_room {
            Some(a) => *a == name,
            None => false,
        };
        if is_active {
            self.active_room = None;
        }
        proof {
            let n = self.rooms@.len() as int;
            assert forall|a: int| 0 <= a < n implies #[trigger] self.rooms@[a] == old(self).rooms@[if a < i { a } else { a + 1 }] by {}
            assert forall|a: int, b: int| 0 <= a < n && 0 <= b < n && a != b implies #[trigger] self.rooms@[a].0@ != #[trigger] self.rooms@[b].0@ by {
                let oa = if a < i { a } else { a + 1 };
                let ob = if b < i { b } else { b + 1 };
                assert(self.rooms@[a] == old(self).rooms@[oa]);
                assert(self.rooms@[b] == old(self).rooms@[ob]);
                assert(old(self).rooms@[oa].0@ != old(self).rooms@[ob].0@);
            }
            assert forall|a: int| 0 <= a < n implies room_state_ok(#[trigger] self.rooms@[a].1) by {
                let oa = if a < i { a } else { a + 1 };
                assert(self.rooms@[a] == old(self).rooms@[oa]);
                assert(room_state_ok(old(self).rooms@[oa].1));
            }
            if room_index(self.rooms@, name@) is Some {
                let c = room_index(self.rooms@, name@).unwrap();
                let oc = if c < i { c } else { c + 1 };
                assert(self.rooms@[c] == old(self).rooms@[oc]);
                assert(old(self).rooms@[oc].0@ != old(self).rooms@[i as int].0@);
            }
        }
        let ghost rest = self.rooms@;
        self.update_room_transitions(&name);
        proof {
            assert(relinked(rest, self.rooms@, name@));
            assert(rest =~= old(self).rooms@.remove(i as int));
        }
    }

    /// What a left click at `cursor` starts: moving the first room under it, or
    /// else drawing a new room from the cell under it.
    pub fn click_action(&self, cursor: Vec2) -> (a: LevelDragAction)
        requires
            rooms_ok(self.rooms@),
            self.grid.world_to_grid_fits(cursor),
        ensures
            match first_covering(self.rooms@, cursor) {
                Some(i) => a matches LevelDragAction::MoveRoom { room, initial_pos }
                    && room@ == self.rooms@[i].0@ && initial_pos == self.rooms@[i].1.pos,
                None => a == (LevelDragAction::CreateRoom { initial_pos: self.grid.spec_cell(cursor) }),
            },
    {
        match self.hovered_room(cursor) {
            Some(i) => LevelDragAction::MoveRoom { room: self.rooms[i].0.clone(), initial_pos: self.rooms[i].1.pos },
            None => LevelDragAction::CreateRoom { initial_pos: self.grid.world_to_grid(cursor).0 },
        }
    }

    /// Drags the room `room`, which lay at `initial_pos` when the drag started at
    /// the world position `initial_world`, along with the cursor now at `cursor`:
    /// it lands where `snap_room_pos` puts it. Returns whether it moved; a room is
    /// not moved beyond the level limits.
    pub fn drag_room(&mut self, room: &String, initial_pos: IVec2, initial_world: Vec2, cursor: Vec2) -> (moved: bool)
        requires
            rooms_ok(old(self).rooms@),
            room_index(old(self).rooms@, room@) is Some,
            old(self).grid.grid_to_world_fits(initial_pos),
            -DRAG_LIMIT <= cursor.x <= DRAG_LIMIT,
            -DRAG_LIMIT <= cursor.y <= DRAG_LIMIT,
            -DRAG_LIMIT <= initial_world.x <= DRAG_LIMIT,
            -DRAG_LIMIT <= initial_world.y <= DRAG_LIMIT,
            drag_target_ok(old(self).grid, initial_pos, initial_world, cursor),
        ensures
            ({
                let t = spec_snap_room_pos(old(self).rooms@, old(self).grid, room@,
                    drag_target(old(self).grid, initial_pos, initial_world, cursor));
                let k = room_index(old(self).rooms@, room@).unwrap();
                &&& moved == pos_ok(t)
                &&& moved ==> final(self).rooms@ == with_pos(old(self).rooms@, k, t)
                &&& !moved ==> final(self).rooms@ == old(self).rooms@
            }),
            rooms_ok(final(self).rooms@),
            final(self).level_name == old(self).level_name,
            final(self).active_room == old(self).active_room,
            final(self).grid == old(self).grid,
    {
        let start = self.grid.grid_to_world(initial_pos);
        let target = Vec2 { x: start.x + (cursor.x - initial_world.x), y: start.y + (cursor.y - initial_world.y) };
        let t = self.snap_room_pos(room, target);
        if -LEVEL_LIMIT <= t.x && t.x <= LEVEL_LIMIT && -LEVEL_LIMIT <= t.y && t.y <= LEVEL_LIMIT {
            self.move_room(room, t);
            true
        } else {
            false
        }
    }

    /// Ends a drag with the cursor at the world position `cursor`: a room being
    /// drawn is created over the cells from where the drag started to the cell
    /// under the cursor, if it fits the level, and a moved room is linked anew to
    /// the rooms beside it. Returns the name of a created room.
    pub fn release_action(&mut self, action: &LevelDragAction, cursor: Vec2) -> (created: Option<String>)
        requires
            rooms_ok(old(self).rooms@),
            self.grid.world_to_grid_fits(cursor),
        ensures
            rooms_ok(final(self).rooms@),
            match action {
                LevelDragAction::CreateRoom { initial_pos } => {
                    let b = IAabb2::spec_from_corners(*initial_pos, old(self).grid.spec_cell(cursor));
                    if drawable(*initial_pos, old(self).grid.spec_cell(cursor)) {
                        created matches Some(name) && room_created(old(self).rooms@, final(self).rooms@, name@, b)
                    } else {
                        created is None && final(self).rooms@ == old(self).rooms@
                    }
                },
                LevelDragAction::MoveRoom { room, .. } => created is None && relinked(old(self).rooms@, final(self).rooms@, room@),
                LevelDragAction::MoveCamera { .. } => created is None && final(self).rooms@ == old(self).rooms@,
            },
            final(self).level_name == old(self).level_name,
            final(self).active_room == old(self).active_room,
            final(self).grid == old(self).grid,
    {
        match action {
            LevelDragAction::CreateRoom { initial_pos } => {
                let p = *initial_pos;
                let c = self.grid.world_to_grid(cursor).0;
                let lim = LEVEL_LIMIT / 2;
                if !(-lim <= p.x && p.x <= lim && -lim <= p.y && p.y <= lim && -lim <= c.x && c.x <= lim && -lim <= c.y
                    && c.y <= lim) {
                    return None;
                }
                let b = IAabb2::from_corners(p, c);
                let w = (b.max.x - b.min.x) as usize;
                let h = (b.max.y - b.min.y) as usize;
                match w.checked_mul(h) {
                    Some(_) => {},
                    None => {
                        return None;
                    },
                }
                Some(self.create_room(p, c))
            },
            LevelDragAction::MoveRoom { room, .. } => {
                self.update_room_transitions(room);
                None
            },
            LevelDragAction::MoveCamera { .. } => None,
        }
    }
}

impl LevelEditor {
    /// The room being edited was renamed to `name` in its editor: the level
    /// renames it (see `update_room_name`) and goes on editing the room under
    /// that name. Returns whether the level renamed it.
    pub fn rename_active_room(&mut self, name: &String) -> (renamed: bool)
        requires
            rooms_ok(old(self).rooms@),
        ensures
            match old(self).active_room {
                Some(a) => if a@ != name@ && room_index(old(self).rooms@, a@) is Some {
                    &&& renamed == (room_index(old(self).rooms@, name@) is None)
                    &&& renamed ==> renamed_in(old(self).rooms@, final(self).rooms@, a@, name@)
                    &&& !renamed ==> final(self).rooms@ == old(self).rooms@
                    &&& final(self).active_room matches Some(x) && x@ == name@
                } else {
                    &&& !renamed
                    &&& final(self).rooms@ == old(self).rooms@
                    &&& final(self).active_room == old(self).active_room
                },
                None => !renamed && final(self).rooms@ == old(self).rooms@ && final(self).active_room == old(self).active_room,
            },
            final(self).level_name == old(self).level_name,
            final(self).grid == old(self).grid,
    {
        let current = match &self.active_room {
            Some(a) => a.clone(),
            None => {
                return false;
            },
        };
        if current == *name || find_room(&self.rooms, &current).is_none() {
            return false;
        }
        let renamed = self.update_room_name(&current, name);
        self.active_room = Some(name.clone());
        renamed
    }
}

/// The world position a room is dragged to: where its cells started, moved by
/// how far the cursor went.
pub open spec fn drag_target(grid: crate::grid::Grid, initial_pos: IVec2, initial_world: Vec2, cursor: Vec2) -> Vec2 {
    let start = grid.spec_grid_to_world(initial_pos);
    Vec2 { x: (start.x + (cursor.x - initial_world.x)) as i64, y: (start.y + (cursor.y - initial_world.y)) as i64 }
}

/// Whether a dragged room's target, counted exactly, stays within the drag limits
/// and the grid can take it.
pub open spec fn drag_target_ok(grid: crate::grid::Grid, initial_pos: IVec2, initial_world: Vec2, cursor: Vec2) -> bool {
    let start = grid.spec_grid_to_world(initial_pos);
    &&& -DRAG_LIMIT <= start.x + (cursor.x - initial_world.x) <= DRAG_LIMIT
    &&& -DRAG_LIMIT <= start.y + (cursor.y - initial_world.y) <= DRAG_LIMIT
    &&& grid.world_to_grid_fits(drag_target(grid, initial_pos, initial_world, cursor))
}

/// Whether a room can be drawn between the corners `p` and `c`: both lie within
/// half the level limit, and its cells can be counted.
pub open spec fn drawable(p: IVec2, c: IVec2) -> bool {
    &&& corner_ok(p)
    &&& corner_ok(c)
    &&& box_size(IAabb2::spec_from_corners(p, c)).x * box_size(IAabb2::spec_from_corners(p, c)).y <= usize::MAX
}

} // verus!
