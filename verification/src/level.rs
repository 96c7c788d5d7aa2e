//! The level editor's bookkeeping: rooms laid out side by side, and the
//! transitions between rooms that share an edge.
use vstd::prelude::*;
use crate::collider::Collider;
use crate::geom::{Aabb2, IAabb2, IVec2};
use crate::grid::Grid;
use crate::movement::grid_sane;
use crate::room::{Room, RoomTransition};

verus! {

/// A room of a level and where it lies, in cells of the level grid.
#[derive(Debug)]
pub struct RoomState {
    pub pos: IVec2,
    pub room: Room,
}

/// Where a room lies in the level, how many cells it has and how its cells map to
/// its world coordinates.
#[derive(Clone, Copy, Debug, PartialEq, Eq, Structural)]
pub struct RoomPlace {
    pub pos: IVec2,
    pub size: crate::geom::UVec2,
    pub grid: Grid,
}

pub open spec fn place(r: RoomState) -> RoomPlace {
    RoomPlace { pos: r.pos, size: r.room.size, grid: r.room.grid }
}

/// How far from the origin a room of a level may lie, in cells.
pub const LEVEL_LIMIT: isize = 0x1000_0000;

/// Whether the room lies within `LEVEL_LIMIT` of the origin, is no larger than
/// that, and has a sane grid.
pub open spec fn place_ok(r: RoomPlace) -> bool {
    &&& -LEVEL_LIMIT <= r.pos.x <= LEVEL_LIMIT
    &&& -LEVEL_LIMIT <= r.pos.y <= LEVEL_LIMIT
    &&& r.size.x <= LEVEL_LIMIT
    &&& r.size.y <= LEVEL_LIMIT
    &&& grid_sane(r.grid)
}

pub open spec fn room_state_ok(r: RoomState) -> bool {
    place_ok(place(r))
}

/// The cells a room covers in the level.
pub open spec fn spec_aabb_i(r: RoomPlace) -> IAabb2 {
    IAabb2 {
        min: r.pos,
        max: IVec2 { x: (r.pos.x + r.size.x) as isize, y: (r.pos.y + r.size.y) as isize },
    }
}

impl RoomState {
    /// The cells the room covers in the level.
    pub fn aabb_i(&self) -> (b: IAabb2)
        requires
            room_state_ok(*self),
        ensures
            b == spec_aabb_i(place(*self)),
    {
        self.place().aabb_i()
    }

    pub fn place(&self) -> (p: RoomPlace)
        ensures
            p == place(*self),
    {
        RoomPlace { pos: self.pos, size: self.room.size, grid: self.room.grid }
    }
}

impl RoomPlace {
    pub fn aabb_i(&self) -> (b: IAabb2)
        requires
            place_ok(*self),
        ensures
            b == spec_aabb_i(*self),
    {
        IAabb2 {
            min: self.pos,
            max: IVec2 { x: self.pos.x + self.size.x as isize, y: self.pos.y + self.size.y as isize },
        }
    }
}

/// What a transition holds, with its target's name as text.
pub struct TransitionView {
    pub collider: Aabb2,
    pub to_room: Seq<char>,
    pub offset: IVec2,
}

pub open spec fn tview(t: RoomTransition) -> TransitionView {
    TransitionView { collider: t.collider@, to_room: t.to_room@, offset: t.offset }
}

/// The transition of room `r` over the level cells from `(x0, y0)` to `(x1, y1)`,
/// leading to the room `to` at `other`: its box in the room's world coordinates,
/// and the offset from the room's cells to the other's.
pub open spec fn spec_transition(r: RoomPlace, x0: int, y0: int, x1: int, y1: int, to: Seq<char>, other: RoomPlace) -> TransitionView {
    let g = r.grid;
    TransitionView {
        collider: Aabb2 {
            min: g.spec_grid_to_world(IVec2 { x: (x0 - r.pos.x) as isize, y: (y0 - r.pos.y) as isize }),
            max: g.spec_grid_to_world(IVec2 { x: (x1 - r.pos.x) as isize, y: (y1 - r.pos.y) as isize }),
        },
        to_room: to,
        offset: IVec2 { x: (r.pos.x - other.pos.x) as isize, y: (r.pos.y - other.pos.y) as isize },
    }
}

/// Where two rooms side by side meet: the column of the second next to the first,
/// and the column of the first next to the second.
pub open spec fn h_edge(a: IAabb2, b: IAabb2) -> Option<(int, int)> {
    if a.max.x == b.min.x {
        Some((b.min.x as int, a.max.x - 1))
    } else if b.max.x == a.min.x {
        Some((b.max.x - 1, a.min.x as int))
    } else {
        None
    }
}

/// Where two rooms one above the other meet: the row of the second next to the
/// first, and the row of the first next to the second.
pub open spec fn v_edge(a: IAabb2, b: IAabb2) -> Option<(int, int)> {
    if a.max.y == b.min.y {
        Some((b.min.y as int, a.max.y - 1))
    } else if b.max.y == a.min.y {
        Some((b.max.y - 1, a.min.y as int))
    } else {
        None
    }
}

pub open spec fn imax(a: int, b: int) -> int {
    if a >= b { a } else { b }
}

pub open spec fn imin(a: int, b: int) -> int {
    if a <= b { a } else { b }
}

/// The transitions across a shared vertical edge of rooms `a` and `b`, if any:
/// the first sequence is `a`'s, the second `b`'s.
pub open spec fn h_pair(a_name: Seq<char>, a: RoomPlace, b_name: Seq<char>, b: RoomPlace)
    -> (Seq<TransitionView>, Seq<TransitionView>) {
    let ab = spec_aabb_i(a);
    let bb = spec_aabb_i(b);
    let y0 = imax(ab.min.y as int, bb.min.y as int);
    let y1 = imin(ab.max.y as int, bb.max.y as int);
    match h_edge(ab, bb) {
        Some((xa, xb)) => if y1 >= y0 {
            (seq![spec_transition(a, xa, y0, xa + 1, y1, b_name, b)], seq![spec_transition(b, xb, y0, xb + 1, y1, a_name, a)])
        } else {
            (Seq::empty(), Seq::empty())
        },
        None => (Seq::empty(), Seq::empty()),
    }
}

/// The transitions across a shared horizontal edge of rooms `a` and `b`, if any.
pub open spec fn v_pair(a_name: Seq<char>, a: RoomPlace, b_name: Seq<char>, b: RoomPlace)
    -> (Seq<TransitionView>, Seq<TransitionView>) {
    let ab = spec_aabb_i(a);
    let bb = spec_aabb_i(b);
    let x0 = imax(ab.min.x as int, bb.min.x as int);
    let x1 = imin(ab.max.x as int, bb.max.x as int);
    match v_edge(ab, bb) {
        Some((ya, yb)) => if x1 >= x0 {
            (seq![spec_transition(a, x0, ya, x1, ya + 1, b_name, b)], seq![spec_transition(b, x0, yb, x1, yb + 1, a_name, a)])
        } else {
            (Seq::empty(), Seq::empty())
        },
        None => (Seq::empty(), Seq::empty()),
    }
}

/// The transitions between rooms `a` and `b` (which do not overlap): along a shared
/// vertical edge, then along a shared horizontal edge. The first sequence is
/// `a`'s, the second `b`'s.
pub open spec fn pair_transitions(a_name: Seq<char>, a: RoomPlace, b_name: Seq<char>, b: RoomPlace)
    -> (Seq<TransitionView>, Seq<TransitionView>) {
    let h = h_pair(a_name, a, b_name, b);
    let v = v_pair(a_name, a, b_name, b);
    (h.0 + v.0, h.1 + v.1)
}

/// Whether the level cells from `(x0, y0)` to `(x1, y1)`, both within a cell of
/// room `r`'s box, can be converted to world coordinates.
proof fn lemma_transition_fits(r: RoomPlace, x: int, y: int)
    requires
        place_ok(r),
        -3 * LEVEL_LIMIT <= x <= 3 * LEVEL_LIMIT,
        -3 * LEVEL_LIMIT <= y <= 3 * LEVEL_LIMIT,
    ensures
        r.grid.grid_to_world_fits(IVec2 { x: (x - r.pos.x) as isize, y: (y - r.pos.y) as isize }),
{
}

fn make_transition(r: &RoomPlace, x0: isize, y0: isize, x1: isize, y1: isize, to: &String, other: &RoomPlace) -> (t: RoomTransition)
    requires
        place_ok(*r),
        place_ok(*other),
        -3 * LEVEL_LIMIT <= x0 <= 3 * LEVEL_LIMIT,
        -3 * LEVEL_LIMIT <= y0 <= 3 * LEVEL_LIMIT,
        -3 * LEVEL_LIMIT <= x1 <= 3 * LEVEL_LIMIT,
        -3 * LEVEL_LIMIT <= y1 <= 3 * LEVEL_LIMIT,
    ensures
        tview(t) == spec_transition(*r, x0 as int, y0 as int, x1 as int, y1 as int, to@, *other),
{
    proof {
        lemma_transition_fits(*r, x0 as int, y0 as int);
        lemma_transition_fits(*r, x1 as int, y1 as int);
    }
    let g = &r.grid;
    let min = g.grid_to_world(IVec2 { x: x0 - r.pos.x, y: y0 - r.pos.y });
    let max = g.grid_to_world(IVec2 { x: x1 - r.pos.x, y: y1 - r.pos.y });
    RoomTransition {
        collider: Collider::new(Aabb2 { min, max }),
        to_room: to.clone(),
        offset: IVec2 { x: r.pos.x - other.pos.x, y: r.pos.y - other.pos.y },
    }
}

fn push_h(a_name: &String, a: &RoomPlace, b_name: &String, b: &RoomPlace, ra: &mut Vec<RoomTransition>, rb: &mut Vec<RoomTransition>)
    requires
        place_ok(*a),
        place_ok(*b),
    ensures
        final(ra)@.map_values(|t: RoomTransition| tview(t)) == old(ra)@.map_values(|t: RoomTransition| tview(t)) + h_pair(a_name@, *a, b_name@, *b).0,
        final(rb)@.map_values(|t: RoomTransition| tview(t)) == old(rb)@.map_values(|t: RoomTransition| tview(t)) + h_pair(a_name@, *a, b_name@, *b).1,
{
    let ab = a.aabb_i();
    let bb = b.aabb_i();
    let y0 = if ab.min.y >= bb.min.y { ab.min.y } else { bb.min.y };
    let y1 = if ab.max.y <= bb.max.y { ab.max.y } else { bb.max.y };
    let h: Option<(isize, isize)> = if ab.max.x == bb.min.x {
        Some((bb.min.x, ab.max.x - 1))
    } else if bb.max.x == ab.min.x {
        Some((bb.max.x - 1, ab.min.x))
    } else {
        None
    };
    match h {
        Some((xa, xb)) => if y1 >= y0 {
            ra.push(make_transition(a, xa, y0, xa + 1, y1, b_name, b));
            rb.push(make_transition(b, xb, y0, xb + 1, y1, a_name, a));
        },
        None => {},
    }
    assert(ra@.map_values(|t: RoomTransition| tview(t)) =~= old(ra)@.map_values(|t: RoomTransition| tview(t)) + h_pair(a_name@, *a, b_name@, *b).0);
    assert(rb@.map_values(|t: RoomTransition| tview(t)) =~= old(rb)@.map_values(|t: RoomTransition| tview(t)) + h_pair(a_name@, *a, b_name@, *b).1);
}

fn push_v(a_name: &String, a: &RoomPlace, b_name: &String, b: &RoomPlace, ra: &mut Vec<RoomTransition>, rb: &mut Vec<RoomTransition>)
    requires
        place_ok(*a),
        place_ok(*b),
    ensures
        final(ra)@.map_values(|t: RoomTransition| tview(t)) == old(ra)@.map_values(|t: RoomTransition| tview(t)) + v_pair(a_name@, *a, b_name@, *b).0,
        final(rb)@.map_values(|t: RoomTransition| tview(t)) == old(rb)@.map_values(|t: RoomTransition| tview(t)) + v_pair(a_name@, *a, b_name@, *b).1,
{
    let ab = a.aabb_i();
    let bb = b.aabb_i();
    let x0 = if ab.min.x >= bb.min.x { ab.min.x } else { bb.min.x };
    let x1 = if ab.max.x <= bb.max.x { ab.max.x } else { bb.max.x };
    let v: Option<(isize, isize)> = if ab.max.y == bb.min.y {
        Some((bb.min.y, ab.max.y - 1))
    } else if bb.max.y == ab.min.y {
        Some((bb.max.y - 1, ab.min.y))
    } else {
        None
    };
    match v {
        Some((ya, yb)) => if x1 >= x0 {
            ra.push(make_transition(a, x0, ya, x1, ya + 1, b_name, b));
            rb.push(make_transition(b, x0, yb, x1, yb + 1, a_name, a));
        },
        None => {},
    }
    assert(ra@.map_values(|t: RoomTransition| tview(t)) =~= old(ra)@.map_values(|t: RoomTransition| tview(t)) + v_pair(a_name@, *a, b_name@, *b).0);
    assert(rb@.map_values(|t: RoomTransition| tview(t)) =~= old(rb)@.map_values(|t: RoomTransition| tview(t)) + v_pair(a_name@, *a, b_name@, *b).1);
}

/// Appends the transitions between two rooms (see `pair_transitions`) to `ra` and `rb`.
pub fn push_pair_transitions(
    a_name: &String,
    a: &RoomPlace,
    b_name: &String,
    b: &RoomPlace,
    ra: &mut Vec<RoomTransition>,
    rb: &mut Vec<RoomTransition>,
)
    requires
        place_ok(*a),
        place_ok(*b),
    ensures
        final(ra)@.map_values(|t: RoomTransition| tview(t)) == old(ra)@.map_values(|t: RoomTransition| tview(t)) + pair_transitions(a_name@, *a, b_name@, *b).0,
        final(rb)@.map_values(|t: RoomTransition| tview(t)) == old(rb)@.map_values(|t: RoomTransition| tview(t)) + pair_transitions(a_name@, *a, b_name@, *b).1,
{
    push_h(a_name, a, b_name, b, ra, rb);
    push_v(a_name, a, b_name, b, ra, rb);
    proof {
        let h = h_pair(a_name@, *a, b_name@, *b);
        let v = v_pair(a_name@, *a, b_name@, *b);
        assert(old(ra)@.map_values(|t: RoomTransition| tview(t)) + h.0 + v.0 =~= old(ra)@.map_values(|t: RoomTransition| tview(t)) + (h.0 + v.0));
        assert(old(rb)@.map_values(|t: RoomTransition| tview(t)) + h.1 + v.1 =~= old(rb)@.map_values(|t: RoomTransition| tview(t)) + (h.1 + v.1));
    }
}

/// The level editor's rooms, by name, and its snapping grid.
#[derive(Debug)]
pub struct LevelEditor {
    pub level_name: String,
    pub active_room: Option<String>,
    /// The rooms of the level and their names, each name once.
    pub rooms: Vec<(String, RoomState)>,
    pub grid: Grid,
}

/// Whether every room lies within the level limits and no two rooms share a name.
pub open spec fn rooms_ok(rooms: Seq<(String, RoomState)>) -> bool {
    &&& forall|i: int| 0 <= i < rooms.len() ==> room_state_ok(#[trigger] rooms[i].1)
    &&& forall|i: int, j: int| 0 <= i < rooms.len() && 0 <= j < rooms.len() && i != j ==> #[trigger] rooms[i].0@ != #[trigger] rooms[j].0@
}

/// The index of the room named `name`, if any.
pub open spec fn room_index(rooms: Seq<(String, RoomState)>, name: Seq<char>) -> Option<int> {
    if exists|i: int| 0 <= i < rooms.len() && #[trigger] rooms[i].0@ == name {
        Some(choose|i: int| 0 <= i < rooms.len() && #[trigger] rooms[i].0@ == name)
    } else {
        None
    }
}

/// The transitions of a room, as views.
pub open spec fn tviews(ts: Seq<RoomTransition>) -> Seq<TransitionView> {
    ts.map_values(|t: RoomTransition| tview(t))
}

/// The transitions that do not lead to the room `name`.
pub open spec fn not_to(ts: Seq<TransitionView>, name: Seq<char>) -> Seq<TransitionView> {
    ts.filter(|t: TransitionView| t.to_room != name)
}

/// Whether the room at `j` gets transitions with the room `t` named `name`: it is
/// another room and they do not overlap.
pub open spec fn joins(name: Seq<char>, t: RoomPlace, other_name: Seq<char>, other: RoomPlace) -> bool {
    other_name != name && !spec_aabb_i(t).spec_intersects(spec_aabb_i(other))
}

/// The transitions of room `t`, named `name`, to the first `n` rooms, in order.
pub open spec fn transitions_from(name: Seq<char>, t: RoomPlace, rooms: Seq<(String, RoomState)>, n: int) -> Seq<TransitionView>
    decreases n,
{
    if n <= 0 {
        Seq::empty()
    } else {
        let prev = transitions_from(name, t, rooms, n - 1);
        let o = rooms[n - 1];
        if joins(name, t, o.0@, place(o.1)) {
            prev + pair_transitions(name, t, o.0@, place(o.1)).0
        } else {
            prev
        }
    }
}

/// The transitions that the room `other` gets to room `t`, named `name`.
pub open spec fn transitions_to(name: Seq<char>, t: RoomPlace, other_name: Seq<char>, other: RoomPlace) -> Seq<TransitionView> {
    if joins(name, t, other_name, other) {
        pair_transitions(name, t, other_name, other).1
    } else {
        Seq::empty()
    }
}

/// Whether `b` is `a` with other transitions.
pub open spec fn same_but_transitions(a: RoomState, b: RoomState) -> bool {
    &&& b.pos == a.pos
    &&& b.room == (Room { transitions: b.room.transitions, ..a.room })
}

fn without_transitions_to(ts: &Vec<RoomTransition>, name: &String) -> (r: Vec<RoomTransition>)
    ensures
        tviews(r@) == not_to(tviews(ts@), name@),
{
    let mut r: Vec<RoomTransition> = Vec::new();
    let n = ts.len();
    let mut i: usize = 0;
    while i < n
        invariant
            n == ts@.len(),
            i <= n,
            tviews(r@) == not_to(tviews(ts@.take(i as int)), name@),
        decreases n - i,
    {
        let keep = ts[i].to_room != *name;
        if keep {
            r.push(ts[i].clone());
        }
        proof {
            let pred = |t: TransitionView| t.to_room != name@;
            assert(tviews(ts@.take(i as int + 1)) =~= tviews(ts@.take(i as int)).push(tview(ts@[i as int])));
            tviews(ts@.take(i as int)).lemma_filter_push(tview(ts@[i as int]), pred);
            assert(tviews(r@) =~= not_to(tviews(ts@.take(i as int + 1)), name@));
        }
        i += 1;
    }
    assert(ts@.take(n as int) =~= ts@);
    r
}

pub(crate) fn find_room(rooms: &Vec<(String, RoomState)>, name: &String) -> (r: Option<usize>)
    requires
        rooms_ok(rooms@),
    ensures
        r matches Some(i) ==> room_index(rooms@, name@) == Some(i as int) && i < rooms@.len(),
        r is None ==> room_index(rooms@, name@) is None,
{
    let n = rooms.len();
    let mut i: usize = 0;
    while i < n
        invariant
            n == rooms@.len(),
            i <= n,
            rooms_ok(rooms@),
            forall|j: int| 0 <= j < i ==> (#[trigger] rooms@[j]).0@ != name@,
        decreases n - i,
    {
        if rooms[i].0 == *name {
            proof {
                assert(rooms@[i as int].0@ == name@);
                let c = choose|k: int| 0 <= k < rooms@.len() && #[trigger] rooms@[k].0@ == name@;
                assert(rooms_ok(rooms@));
                if c != i {
                    assert(rooms@[c].0@ != rooms@[i as int].0@);
                }
            }
            return Some(i);
        }
        i += 1;
    }
    None
}

/// Appends `back` to the transitions of `entry`.
fn append_transitions(entry: &mut (String, RoomState), back: &Vec<RoomTransition>)
    ensures
        final(entry).0 == old(entry).0,
        same_but_transitions(old(entry).1, final(entry).1),
        tviews(final(entry).1.room.transitions@) == tviews(old(entry).1.room.transitions@) + tviews(back@),
{
    let mut k: usize = 0;
    let ghost start = entry.1.room.transitions@;
    let ghost e0 = *entry;
    while k < back.len()
        invariant
            k <= back@.len(),
            entry.0 == e0.0,
            entry.1.pos == e0.1.pos,
            entry.1.room == (Room { transitions: entry.1.room.transitions, ..e0.1.room }),
            entry.1.room.transitions@ == start + back@.take(k as int),
            start == e0.1.room.transitions@,
        decreases back@.len() - k,
    {
        entry.1.room.transitions.push(back[k].clone());
        assert(back@.take(k as int + 1) =~= back@.take(k as int).push(back@[k as int]));
        assert(entry.1.room.transitions@ =~= start + back@.take(k as int + 1));
        k += 1;
    }
    assert(back@.take(back@.len() as int) =~= back@);
    assert(tviews(entry.1.room.transitions@) =~= tviews(start) + tviews(back@));
}

/// Drops the transitions to the room `name` from every room.
fn drop_transitions_to(rooms: &mut Vec<(String, RoomState)>, name: &String)
    ensures
        final(rooms)@.len() == old(rooms)@.len(),
        forall|j: int| 0 <= j < old(rooms)@.len() ==> {
            &&& (#[trigger] final(rooms)@[j]).0 == old(rooms)@[j].0
            &&& same_but_transitions(old(rooms)@[j].1, final(rooms)@[j].1)
            &&& tviews(final(rooms)@[j].1.room.transitions@) == not_to(tviews(old(rooms)@[j].1.room.transitions@), name@)
        },
{
    let n = rooms.len();
    let mut i: usize = 0;
    while i < n
        invariant
            n == rooms@.len(),
            n == old(rooms)@.len(),
            i <= n,
            forall|j: int| 0 <= j < i ==> {
                &&& (#[trigger] rooms@[j]).0 == old(rooms)@[j].0
                &&& same_but_transitions(old(rooms)@[j].1, rooms@[j].1)
                &&& tviews(rooms@[j].1.room.transitions@) == not_to(tviews(old(rooms)@[j].1.room.transitions@), name@)
            },
            forall|j: int| i <= j < n ==> (#[trigger] rooms@[j]) == old(rooms)@[j],
        decreases n - i,
    {
        let mut entry = rooms.remove(i);
        let kept = without_transitions_to(&entry.1.room.transitions, name);
        entry.1.room.transitions = kept;
        rooms.insert(i, entry);
        i += 1;
    }
}

/// Adds to every room but the one at `t` its transitions back to that room, and
/// returns that room's transitions to the others.
fn link_room(rooms: &mut Vec<(String, RoomState)>, t: usize, name: &String) -> (own: Vec<RoomTransition>)
    requires
        rooms_ok(old(rooms)@),
        t < old(rooms)@.len(),
        old(rooms)@[t as int].0@ == name@,
    ensures
        final(rooms)@.len() == old(rooms)@.len(),
        forall|k: int| 0 <= k < old(rooms)@.len() ==> {
            &&& (#[trigger] final(rooms)@[k]).0 == old(rooms)@[k].0
            &&& same_but_transitions(old(rooms)@[k].1, final(rooms)@[k].1)
        },
        final(rooms)@[t as int] == old(rooms)@[t as int],
        tviews(own@) == transitions_from(name@, place(old(rooms)@[t as int].1), old(rooms)@, old(rooms)@.len() as int),
        forall|k: int| 0 <= k < old(rooms)@.len() && k != t ==> tviews((#[trigger] final(rooms)@[k]).1.room.transitions@)
            == tviews(old(rooms)@[k].1.room.transitions@)
                + transitions_to(name@, place(old(rooms)@[t as int].1), old(rooms)@[k].0@, place(old(rooms)@[k].1)),
{
    let n = rooms.len();
    proof {
        assert(room_state_ok(rooms@[t as int].1));
    }
    let tp = rooms[t].1.place();
    let mine = tp.aabb_i();
    let mut own: Vec<RoomTransition> = Vec::new();
    let mut j: usize = 0;
    while j < n
        invariant
            n == rooms@.len(),
            n == old(rooms)@.len(),
            j <= n,
            t < n,
            tp == place(old(rooms)@[t as int].1),
            place_ok(tp),
            mine == spec_aabb_i(tp),
            rooms_ok(old(rooms)@),
            old(rooms)@[t as int].0@ == name@,
            forall|k: int| 0 <= k < n ==> {
                &&& (#[trigger] rooms@[k]).0 == old(rooms)@[k].0
                &&& same_but_transitions(old(rooms)@[k].1, rooms@[k].1)
            },
            tviews(own@) == transitions_from(name@, tp, old(rooms)@, j as int),
            forall|k: int| 0 <= k < j && k != t ==> tviews((#[trigger] rooms@[k]).1.room.transitions@)
                == tviews(old(rooms)@[k].1.room.transitions@)
                    + transitions_to(name@, tp, old(rooms)@[k].0@, place(old(rooms)@[k].1)),
            forall|k: int| (j <= k < n || k == t) && 0 <= k < n ==> (#[trigger] rooms@[k]) == old(rooms)@[k],
        decreases n - j,
    {
        proof {
            assert(room_state_ok(old(rooms)@[j as int].1));
            assert(place(rooms@[j as int].1) == place(old(rooms)@[j as int].1));
        }
        let jp = rooms[j].1.place();
        let other = jp.aabb_i();
        let joined = j != t && !mine.intersects(&other);
        proof {
            if j != t {
                assert(old(rooms)@[j as int].0@ != old(rooms)@[t as int].0@);
            }
            assert(joined == joins(name@, tp, old(rooms)@[j as int].0@, place(old(rooms)@[j as int].1)));
        }
        if joined {
            let mut back: Vec<RoomTransition> = Vec::new();
            push_pair_transitions(name, &tp, &rooms[j].0, &jp, &mut own, &mut back);
            let mut entry = rooms.remove(j);
            append_transitions(&mut entry, &back);
            rooms.insert(j, entry);
            assert(tviews(own@) =~= transitions_from(name@, tp, old(rooms)@, j as int + 1));
            assert(tviews(back@) =~= transitions_to(name@, tp, old(rooms)@[j as int].0@, place(old(rooms)@[j as int].1)));
        } else {
            proof {
                if j != t {
                    assert(transitions_to(name@, tp, old(rooms)@[j as int].0@, place(old(rooms)@[j as int].1)) =~= Seq::empty());
                    assert(tviews(rooms@[j as int].1.room.transitions@) =~= tviews(old(rooms)@[j as int].1.room.transitions@) + Seq::empty());
                }
            }
        }
        j += 1;
    }
    own
}

/// What rebuilding the transitions of the room `name` makes of the rooms `old`:
/// only transitions change; those to the room are dropped, its own lead across
/// every edge it shares with another room it does not overlap, and each such room
/// gets the transition back.
pub open spec fn relinked(old: Seq<(String, RoomState)>, new: Seq<(String, RoomState)>, name: Seq<char>) -> bool {
    &&& rooms_ok(new)
    &&& new.len() == old.len()
    &&& forall|i: int| 0 <= i < old.len() ==> {
        &&& (#[trigger] new[i]).0 == old[i].0
        &&& same_but_transitions(old[i].1, new[i].1)
    }
    &&& match room_index(old, name) {
        None => forall|i: int| 0 <= i < old.len() ==>
            tviews((#[trigger] new[i]).1.room.transitions@) == not_to(tviews(old[i].1.room.transitions@), name),
        Some(t) => {
            let tp = place(old[t].1);
            &&& tviews(new[t].1.room.transitions@) == transitions_from(name, tp, old, old.len() as int)
            &&& forall|i: int| 0 <= i < old.len() && i != t ==>
                tviews((#[trigger] new[i]).1.room.transitions@)
                    == not_to(tviews(old[i].1.room.transitions@), name)
                        + transitions_to(name, tp, old[i].0@, place(old[i].1))
        },
    }
}

impl LevelEditor {
    /// Rebuilds the transitions of the room `room_name`: transitions to it are
    /// dropped everywhere, its own are replaced by one across every edge it shares
    /// with another room that it does not overlap, and each such room gets the
    /// transition back. Transitions follow the order of the rooms.
    #[verifier::spinoff_prover]
    #[verifier::rlimit(40)]
    pub fn update_room_transitions(&mut self, room_name: &String)
        requires
            rooms_ok(old(self).rooms@),
        ensures
            rooms_ok(final(self).rooms@),
            final(self).rooms@.len() == old(self).rooms@.len(),
            forall|i: int| 0 <= i < old(self).rooms@.len() ==> {
                &&& (#[trigger] final(self).rooms@[i]).0 == old(self).rooms@[i].0
                &&& same_but_transitions(old(self).rooms@[i].1, final(self).rooms@[i].1)
            },
            match room_index(old(self).rooms@, room_name@) {
                None => forall|i: int| 0 <= i < old(self).rooms@.len() ==>
                    tviews((#[trigger] final(self).rooms@[i]).1.room.transitions@)
                        == not_to(tviews(old(self).rooms@[i].1.room.transitions@), room_name@),
                Some(t) => {
                    let tp = place(old(self).rooms@[t].1);
                    &&& tviews(final(self).rooms@[t].1.room.transitions@)
                        == transitions_from(room_name@, tp, old(self).rooms@, old(self).rooms@.len() as int)
                    &&& forall|i: int| 0 <= i < old(self).rooms@.len() && i != t ==>
                        tviews((#[trigger] final(self).rooms@[i]).1.room.transitions@)
                            == not_to(tviews(old(self).rooms@[i].1.room.transitions@), room_name@)
                                + transitions_to(room_name@, tp, old(self).rooms@[i].0@, place(old(self).rooms@[i].1))
                },
            },
            final(self).level_name == old(self).level_name,
            final(self).active_room == old(self).active_room,
            final(self).grid == old(self).grid,
    {
        drop_transitions_to(&mut self.rooms, room_name);
        let ghost dropped = self.rooms@;
        let n = self.rooms.len();
        assert(rooms_ok(self.rooms@)) by {
            assert forall|a: int, b: int| 0 <= a < n && 0 <= b < n && a != b implies #[trigger] self.rooms@[a].0@ != #[trigger] self.rooms@[b].0@ by {
                assert(old(self).rooms@[a].0@ != old(self).rooms@[b].0@);
            }
            assert forall|a: int| 0 <= a < n implies room_state_ok(#[trigger] self.rooms@[a].1) by {
                assert(room_state_ok(old(self).rooms@[a].1));
                assert(place(self.rooms@[a].1) == place(old(self).rooms@[a].1));
            }
        }
        let t = match find_room(&self.rooms, room_name) {
            Some(t) => t,
            None => {
                proof {
                    if room_index(old(self).rooms@, room_name@) is Some {
                        let k = room_index(old(self).rooms@, room_name@).unwrap();
                        assert(self.rooms@[k].0@ == room_name@);
                    }
                }
                return;
            },
        };
        proof {
            assert(self.rooms@[t as int].0@ == room_name@);
            let c = room_index(old(self).rooms@, room_name@).unwrap();
            if c != t {
                assert(old(self).rooms@[c].0@ != old(self).rooms@[t as int].0@);
            }
            assert(place(dropped[t as int].1) == place(old(self).rooms@[t as int].1));
        }
        let own = link_room(&mut self.rooms, t, room_name);
        proof {
            assert(transitions_from(room_name@, place(dropped[t as int].1), dropped, n as int)
                == transitions_from(room_name@, place(old(self).rooms@[t as int].1), old(self).rooms@, n as int)) by {
                lemma_transitions_from_places(room_name@, place(old(self).rooms@[t as int].1), dropped, old(self).rooms@, n as int);
            }
        }
        let mut entry = self.rooms.remove(t);
        entry.1.room.transitions = own;
        self.rooms.insert(t, entry);
        proof {
            assert forall|a: int, b: int| 0 <= a < n && 0 <= b < n && a != b implies #[trigger] self.rooms@[a].0@ != #[trigger] self.rooms@[b].0@ by {
                assert(old(self).rooms@[a].0@ != old(self).rooms@[b].0@);
            }
            assert forall|a: int| 0 <= a < n implies room_state_ok(#[trigger] self.rooms@[a].1) by {
                assert(room_state_ok(old(self).rooms@[a].1));
                assert(place(self.rooms@[a].1) == place(old(self).rooms@[a].1));
            }
            assert forall|i: int| 0 <= i < n && i != t implies
                tviews((#[trigger] self.rooms@[i]).1.room.transitions@)
                    == not_to(tviews(old(self).rooms@[i].1.room.transitions@), room_name@)
                        + transitions_to(room_name@, place(old(self).rooms@[t as int].1), old(self).rooms@[i].0@, place(old(self).rooms@[i].1)) by {
                assert(place(dropped[i].1) == place(old(self).rooms@[i].1));
                assert(dropped[i].0 == old(self).rooms@[i].0);
            }
        }
    }
}

/// The transitions from a room depend on the other rooms' names and places only.
pub(crate) proof fn lemma_transitions_from_places(name: Seq<char>, t: RoomPlace, a: Seq<(String, RoomState)>, b: Seq<(String, RoomState)>, n: int)
    requires
        0 <= n <= a.len(),
        a.len() == b.len(),
        forall|k: int| 0 <= k < a.len() ==> (#[trigger] a[k]).0 == b[k].0 && place(a[k].1) == place(b[k].1),
    ensures
        transitions_from(name, t, a, n) == transitions_from(name, t, b, n),
    decreases n,
{
    if n > 0 {
        lemma_transitions_from_places(name, t, a, b, n - 1);
        assert(a[n - 1].0 == b[n - 1].0 && place(a[n - 1].1) == place(b[n - 1].1));
    }
}

/// `t` leading to `new` instead of `old`.
pub open spec fn retargeted(t: TransitionView, old: Seq<char>, new: Seq<char>) -> TransitionView {
    if t.to_room == old { TransitionView { to_room: new, ..t } } else { t }
}

/// The transitions with those to `old` leading to `new` instead.
fn retarget(ts: &mut Vec<RoomTransition>, old_name: &String, new_name: &String)
    ensures
        tviews(final(ts)@) == tviews(old(ts)@).map_values(|t: TransitionView| retargeted(t, old_name@, new_name@)),
{
    let n = ts.len();
    let mut i: usize = 0;
    while i < n
        invariant
            n == ts@.len(),
            n == old(ts)@.len(),
            i <= n,
            forall|j: int| 0 <= j < i ==> tview(#[trigger] ts@[j]) == retargeted(tview(old(ts)@[j]), old_name@, new_name@),
            forall|j: int| i <= j < n ==> #[trigger] ts@[j] == old(ts)@[j],
        decreases n - i,
    {
        if ts[i].to_room == *old_name {
            let t = RoomTransition { collider: ts[i].collider, to_room: new_name.clone(), offset: ts[i].offset };
            ts.set(i, t);
        }
        i += 1;
    }
    assert(tviews(ts@) =~= tviews(old(ts)@).map_values(|t: TransitionView| retargeted(t, old_name@, new_name@)));
}

/// Whether `new` is `old` with the room named `a` renamed to `b`: the room at
/// the index of `a` takes the new name, every transition to `a` leads to `b`
/// instead, and nothing else changes.
pub open spec fn renamed_in(old: Seq<(String, RoomState)>, new: Seq<(String, RoomState)>, a: Seq<char>, b: Seq<char>) -> bool {
    let k = room_index(old, a).unwrap();
    &&& new.len() == old.len()
    &&& new[k].0@ == b
    &&& forall|i: int| 0 <= i < old.len() ==> {
        &&& (i != k ==> (#[trigger] new[i]).0 == old[i].0)
        &&& same_but_transitions(old[i].1, new[i].1)
        &&& tviews(new[i].1.room.transitions@) == tviews(old[i].1.room.transitions@)
            .map_values(|t: TransitionView| retargeted(t, a, b))
    }
    &&& rooms_ok(new)
}

impl LevelEditor {
    /// Renames the room `old_name` to `new_name` and makes every transition to it
    /// follow, unless the names are the same or another room already has the new
    /// name. Returns whether it renamed.
    pub fn update_room_name(&mut self, old_name: &String, new_name: &String) -> (renamed: bool)
        requires
            rooms_ok(old(self).rooms@),
            old_name@ != new_name@ && room_index(old(self).rooms@, new_name@) is None
                ==> room_index(old(self).rooms@, old_name@) is Some,
        ensures
            renamed == (old_name@ != new_name@ && room_index(old(self).rooms@, new_name@) is None),
            !renamed ==> final(self).rooms@ == old(self).rooms@,
            renamed ==> renamed_in(old(self).rooms@, final(self).rooms@, old_name@, new_name@),
            final(self).level_name == old(self).level_name,
            final(self).grid == old(self).grid,
            final(self).active_room == old(self).active_room,
    {
        if *old_name == *new_name {
            return false;
        }
        match find_room(&self.rooms, new_name) {
            Some(_) => {
                return false;
            },
            None => {},
        }
        let k = match find_room(&self.rooms, old_name) {
            Some(k) => k,
            None => {
                return false;
            },
        };
        let n = self.rooms.len();
        let mut i: usize = 0;
        while i < n
            invariant
                n == self.rooms@.len(),
                n == old(self).rooms@.len(),
                i <= n,
                k < n,
                self.level_name == old(self).level_name,
                self.grid == old(self).grid,
                self.active_room == old(self).active_room,
                forall|j: int| 0 <= j < n ==> (#[trigger] self.rooms@[j]).0 == old(self).rooms@[j].0,
                forall|j: int| 0 <= j < i ==> {
                    &&& same_but_transitions(old(self).rooms@[j].1, (#[trigger] self.rooms@[j]).1)
                    &&& tviews(self.rooms@[j].1.room.transitions@) == tviews(old(self).rooms@[j].1.room.transitions@)
                        .map_values(|t: TransitionView| retargeted(t, old_name@, new_name@))
                },
                forall|j: int| i <= j < n ==> #[trigger] self.rooms@[j] == old(self).rooms@[j],
            decreases n - i,
        {
            let mut entry = self.rooms.remove(i);
            retarget(&mut entry.1.room.transitions, old_name, new_name);
            self.rooms.insert(i, entry);
            i += 1;
        }
        let mut entry = self.rooms.remove(k);
        entry.0 = new_name.clone();
        self.rooms.insert(k, entry);
        proof {
            assert forall|a: int, b: int| 0 <= a < n && 0 <= b < n && a != b implies #[trigger] self.rooms@[a].0@ != #[trigger] self.rooms@[b].0@ by {
                if a != k as int && b != k as int {
                    assert(old(self).rooms@[a].0@ != old(self).rooms@[b].0@);
                } else if a == k as int {
                    assert(old(self).rooms@[b].0@ != new_name@);
                } else {
                    assert(old(self).rooms@[a].0@ != new_name@);
                }
            }
            assert forall|a: int| 0 <= a < n implies room_state_ok(#[trigger] self.rooms@[a].1) by {
                assert(room_state_ok(old(self).rooms@[a].1));
                assert(place(self.rooms@[a].1) == place(old(self).rooms@[a].1));
            }
        }
        true
    }
}

} // verus!
