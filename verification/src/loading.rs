//! Which rooms of a level to load: every room file of the level, and every room
//! that a loaded room leads to, each once.
use vstd::prelude::*;
use crate::level::RoomState;
use crate::room::{Room, RoomTransition};

verus! {

/// Whether a room named `name` is among `rooms`.
pub open spec fn is_loaded(rooms: Seq<(String, RoomState)>, name: Seq<char>) -> bool {
    exists|i: int| 0 <= i < rooms.len() && (#[trigger] rooms[i]).0@ == name
}

/// The names, by value.
pub open spec fn names_view(names: Seq<String>) -> Seq<Seq<char>> {
    names.map_values(|s: String| s@)
}

/// The names of the rooms the transitions lead to, in order.
pub open spec fn targets(transitions: Seq<RoomTransition>) -> Seq<Seq<char>> {
    transitions.map_values(|t: RoomTransition| t.to_room@)
}

/// Whether `rooms` holds a room named `name`.
pub fn loaded(rooms: &Vec<(String, RoomState)>, name: &String) -> (b: bool)
    ensures
        b == is_loaded(rooms@, name@),
{
    let n = rooms.len();
    let mut i: usize = 0;
    while i < n
        invariant
            n == rooms@.len(),
            i <= n,
            forall|j: int| 0 <= j < i ==> (#[trigger] rooms@[j]).0@ != name@,
        decreases n - i,
    {
        if rooms[i].0 == *name {
            assert(rooms@[i as int].0@ == name@);
            return true;
        }
        i += 1;
    }
    false
}

/// How `next_to_load` leaves the queue `after`, from `before`, having returned
/// `r`: names are taken off the end; the one returned is the first that is not
/// loaded, and those taken before it are; nothing is returned once all are.
pub open spec fn taken_next(
    before: Seq<String>,
    after: Seq<String>,
    rooms: Seq<(String, RoomState)>,
    r: Option<Seq<char>>,
) -> bool {
    &&& after.len() <= before.len()
    &&& after == before.take(after.len() as int)
    &&& match r {
        Some(name) => {
            &&& after.len() < before.len()
            &&& name == before[after.len() as int]@
            &&& !is_loaded(rooms, name)
            &&& forall|j: int| after.len() < j < before.len() ==> is_loaded(rooms, (#[trigger] before[j])@)
        },
        None => {
            &&& after.len() == 0
            &&& forall|j: int| 0 <= j < before.len() ==> is_loaded(rooms, (#[trigger] before[j])@)
        },
    }
}

/// Takes the next room to load off the end of `to_load`, dropping the names of
/// rooms already loaded; nothing once the list runs out.
pub fn next_to_load(to_load: &mut Vec<String>, rooms: &Vec<(String, RoomState)>) -> (r: Option<String>)
    ensures
        taken_next(old(to_load)@, final(to_load)@, rooms@, match r {
            Some(name) => Some(name@),
            None => None,
        }),
{
    loop
        invariant
            to_load@.len() <= old(to_load)@.len(),
            to_load@ == old(to_load)@.take(to_load@.len() as int),
            forall|j: int| to_load@.len() <= j < old(to_load)@.len() ==> is_loaded(rooms@, (#[trigger] old(to_load)@[j])@),
        decreases to_load@.len(),
    {
        let ghost before = to_load@;
        match to_load.pop() {
            None => {
                return None;
            },
            Some(name) => {
                assert(name == old(to_load)@[to_load@.len() as int]);
                assert(to_load@ =~= old(to_load)@.take(to_load@.len() as int));
                if !loaded(rooms, &name) {
                    return Some(name);
                }
            },
        }
    }
}

/// Puts the rooms that `room` leads to at the end of `to_load`, in the order of
/// its transitions.
pub fn queue_transitions(to_load: &mut Vec<String>, room: &Room)
    ensures
        names_view(final(to_load)@) == names_view(old(to_load)@) + targets(room.transitions@),
{
    let n = room.transitions.len();
    let mut i: usize = 0;
    while i < n
        invariant
            n == room.transitions@.len(),
            i <= n,
            names_view(to_load@) == names_view(old(to_load)@) + targets(room.transitions@.take(i as int)),
        decreases n - i,
    {
        let name = room.transitions[i].to_room.clone();
        let ghost before = to_load@;
        to_load.push(name);
        proof {
            assert(room.transitions@.take(i as int + 1) =~= room.transitions@.take(i as int).push(room.transitions@[i as int]));
            assert(names_view(to_load@) =~= names_view(before).push(name@));
            assert(targets(room.transitions@.take(i as int + 1)) =~= targets(room.transitions@.take(i as int)).push(room.transitions@[i as int].to_room@));
            assert(names_view(to_load@) =~= names_view(old(to_load)@) + targets(room.transitions@.take(i as int + 1)));
        }
        i += 1;
    }
    assert(room.transitions@.take(n as int) =~= room.transitions@);
}

/// Whether loading can go on from `rooms` with the names `queued` waiting: no room
/// is loaded twice, and every room a loaded room leads to is loaded or queued.
pub open spec fn loading_inv(rooms: Seq<(String, RoomState)>, queued: Seq<Seq<char>>) -> bool {
    &&& forall|i: int, j: int| 0 <= i < j < rooms.len() ==> (#[trigger] rooms[i]).0@ != (#[trigger] rooms[j]).0@
    &&& forall|i: int, k: int| 0 <= i < rooms.len() && 0 <= k < targets(rooms[i].1.room.transitions@).len()
        ==> is_loaded(rooms, #[trigger] targets(rooms[i].1.room.transitions@)[k])
            || queued.contains(targets(rooms[i].1.room.transitions@)[k])
}

/// Whether every room a room of `rooms` leads to is among them.
pub open spec fn loading_closed(rooms: Seq<(String, RoomState)>) -> bool {
    forall|i: int, k: int| 0 <= i < rooms.len() && 0 <= k < targets(rooms[i].1.room.transitions@).len()
        ==> is_loaded(rooms, #[trigger] targets(rooms[i].1.room.transitions@)[k])
}

/// Loading starts well: nothing loaded, the level's room files queued.
pub proof fn law_loading_starts(files: Seq<Seq<char>>)
    ensures
        loading_inv(Seq::empty(), files),
{
}

/// A loading step keeps it going well: the room that `next_to_load` took is
/// loaded and added, and the rooms it leads to are queued (`queue_transitions`).
pub proof fn law_loading_step(
    rooms: Seq<(String, RoomState)>,
    before: Seq<String>,
    taken: Seq<String>,
    name: String,
    state: RoomState,
    after: Seq<String>,
)
    requires
        loading_inv(rooms, names_view(before)),
        taken_next(before, taken, rooms, Some(name@)),
        names_view(after) == names_view(taken) + targets(state.room.transitions@),
    ensures
        loading_inv(rooms.push((name, state)), names_view(after)),
{
    let r2 = rooms.push((name, state));
    assert forall|i: int| 0 <= i < rooms.len() implies #[trigger] r2[i] == rooms[i] by {}
    assert forall|i: int, j: int| 0 <= i < j < r2.len() implies (#[trigger] r2[i]).0@ != (#[trigger] r2[j]).0@ by {
        if j == rooms.len() {
            if r2[i].0@ == name@ {
                assert(rooms[i].0@ == name@);
                assert(is_loaded(rooms, name@));
            }
        }
    }
    assert forall|a: Seq<char>| is_loaded(rooms, a) implies is_loaded(r2, a) by {
        let i = choose|i: int| 0 <= i < rooms.len() && (#[trigger] rooms[i]).0@ == a;
        assert(r2[i] == rooms[i]);
    }
    assert(r2[rooms.len() as int] == (name, state));
    assert(is_loaded(r2, name@));
    let tk = taken.len() as int;
    assert forall|i: int, k: int| 0 <= i < r2.len() && 0 <= k < targets(r2[i].1.room.transitions@).len()
        implies is_loaded(r2, #[trigger] targets(r2[i].1.room.transitions@)[k])
            || names_view(after).contains(targets(r2[i].1.room.transitions@)[k]) by {
        let t = targets(r2[i].1.room.transitions@)[k];
        if i == rooms.len() {
            assert(names_view(after)[names_view(taken).len() + k] == t);
        } else {
            assert(r2[i] == rooms[i]);
            if !is_loaded(rooms, t) {
                assert(names_view(before).contains(t));
                let j = choose|j: int| 0 <= j < names_view(before).len() && names_view(before)[j] == t;
                assert(before[j]@ == t);
                if j < tk {
                    assert(taken[j] == before[j]);
                    assert(names_view(after)[j] == names_view(taken)[j]);
                } else if j == tk {
                    assert(t == name@);
                } else {
                    assert(is_loaded(rooms, (before[j])@));
                }
            }
        }
    }
}

/// Loading ends well: once `next_to_load` has nothing left, each room is loaded
/// once, and every room a loaded room leads to is loaded.
pub proof fn law_loading_done(rooms: Seq<(String, RoomState)>, before: Seq<String>, after: Seq<String>)
    requires
        loading_inv(rooms, names_view(before)),
        taken_next(before, after, rooms, None),
    ensures
        loading_closed(rooms),
        forall|i: int, j: int| 0 <= i < j < rooms.len() ==> (#[trigger] rooms[i]).0@ != (#[trigger] rooms[j]).0@,
{
    assert forall|i: int, k: int| 0 <= i < rooms.len() && 0 <= k < targets(rooms[i].1.room.transitions@).len()
        implies is_loaded(rooms, #[trigger] targets(rooms[i].1.room.transitions@)[k]) by {
        let t = targets(rooms[i].1.room.transitions@)[k];
        if names_view(before).contains(t) {
            let j = choose|j: int| 0 <= j < names_view(before).len() && names_view(before)[j] == t;
            assert(before[j]@ == t);
        }
    }
}

} // verus!
