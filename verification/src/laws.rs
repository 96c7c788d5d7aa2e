//! Properties that relate the library's operations to each other.
use vstd::prelude::*;
use crate::collider::{collide_fits, spec_collide, unit_axis, Collision};
use crate::id::Id;
use crate::geom::{Aabb2, IVec2, UVec2, Vec2};
use crate::level::{pair_transitions, place_ok, retargeted, RoomPlace, RoomState, TransitionView};
use crate::level_edit::with_pos;
use crate::placeable::PlaceableId;
use crate::room_edit::{kept, toggled};
use crate::editor::RoomEditor;
use crate::room::{same_room, ActiveLayer, Room};
use crate::placeable::Placeable;
use crate::text_scroller::{flat_text, TextScrollerView};
use crate::logic::{coins_left, coins_picked, negatable, picks_up, reflect};
use crate::movement::{abs, signum, MOVE_STEP};
use crate::placeable::Coin;
use crate::collider::Collider;
use crate::tilemap::{air, TileMapView};
use crate::tileset::{pattern_matches, sample_step, Connection, ConnectionFilter};
use crate::light::casts_edge;
use crate::rules::Rules;
use crate::placeable::Hazard;
use crate::logic::{clamp_sides, clamp_top, outside_sides, side_offset, drill_jump_velocity, hurts, wall_jump_velocity};
use crate::game::{GameFlags, GameKey};

verus! {

/// Overlap is symmetric: `a` overlaps `b` exactly when `b` overlaps `a`.
pub proof fn law_check_symmetric(a: Aabb2, b: Aabb2)
    ensures
        a.spec_intersects(b) == b.spec_intersects(a),
{
}

/// Two boxes collide exactly when they overlap.
pub proof fn law_collide_iff_check(a: Aabb2, b: Aabb2)
    ensures
        (spec_collide(a, b) is Some) == a.spec_intersects(b),
{
}

/// Splitting a move into whole steps loses nothing: the steps and the remainder add
/// up to the total, and the remainder is smaller than a step and never points
/// against the total.
pub proof fn law_calc_move_conserves(t: int)
    ensures
        signum(t) * (abs(t) / (MOVE_STEP as int)) * MOVE_STEP + (t - signum(t) * (abs(t) / (MOVE_STEP as int)) * MOVE_STEP) == t,
        abs(t - signum(t) * (abs(t) / (MOVE_STEP as int)) * MOVE_STEP) < MOVE_STEP,
        0 <= signum(t) * (t - signum(t) * (abs(t) / (MOVE_STEP as int)) * MOVE_STEP),
{
    let s = MOVE_STEP as int;
    let n = abs(t) / s;
    let m = abs(t) % s;
    vstd::arithmetic::div_mod::lemma_fundamental_div_mod(abs(t), s);
    let r = t - signum(t) * n * s;
    if t > 0 {
        assert(r == m) by (nonlinear_arith)
            requires
                t == s * n + m,
                r == t - 1 * n * s,
        ;
    } else if t < 0 {
        assert(r == -m) by (nonlinear_arith)
            requires
                -t == s * n + m,
                r == t - (-1) * n * s,
        ;
    } else {
        assert(r == 0) by (nonlinear_arith)
            requires
                r == t - 0 * n * s,
                t == 0,
        ;
    }
}

proof fn lemma_cell_of_index(x: int, y: int, w: int)
    requires
        0 <= x < w,
        0 <= y,
    ensures
        (x + y * w) % w == x,
        (x + y * w) / w == y,
{
    vstd::arithmetic::div_mod::lemma_fundamental_div_mod_converse(x + y * w, w, y, x);
}

/// Moving a map's tiles by `d` and back again restores every cell whose tile stayed
/// on the map.
pub proof fn law_translate_back(m: TileMapView, d: IVec2, x: int, y: int)
    requires
        m.well_formed(),
        m.in_bounds(x, y),
        m.in_bounds(x + d.x, y + d.y),
        fits_neg(d),
    ensures
        m.translated(d).translated(IVec2 { x: (-d.x) as isize, y: (-d.y) as isize }).tile_at(x, y) == m.tile_at(x, y),
{
    let w = m.size.x as int;
    let h = m.size.y as int;
    crate::tilemap::lemma_cell_index(x, y, w, h);
    crate::tilemap::lemma_cell_index(x + d.x, y + d.y, w, h);
    lemma_cell_of_index(x, y, w);
    lemma_cell_of_index(x + d.x, y + d.y, w);
    let t1 = m.translated(d);
    assert(t1.well_formed());
    assert(t1.tile_at(x + d.x, y + d.y) == m.tile_at(x, y));
}

/// Whether the components of `d` can be negated.
pub open spec fn fits_neg(d: IVec2) -> bool {
    d.x > isize::MIN && d.y > isize::MIN
}

/// Resizing a map keeps every tile that lies inside both the old and the new size.
pub proof fn law_resize_keeps(m: TileMapView, size: UVec2, x: int, y: int)
    requires
        m.well_formed(),
        m.in_bounds(x, y),
        0 <= x < size.x,
        0 <= y < size.y,
    ensures
        m.resized(size).tile_at(x, y) == m.tile_at(x, y),
{
    crate::tilemap::lemma_cell_index(x, y, size.x as int, size.y as int);
    lemma_cell_of_index(x, y, size.x as int);
}

/// Transitions between two rooms come in pairs: each leads to the other room,
/// and their offsets are opposite.
pub proof fn law_transitions_paired(a_name: Seq<char>, a: RoomPlace, b_name: Seq<char>, b: RoomPlace)
    requires
        place_ok(a),
        place_ok(b),
    ensures
        ({
            let (ta, tb) = pair_transitions(a_name, a, b_name, b);
            &&& ta.len() == tb.len()
            &&& forall|i: int| 0 <= i < ta.len() ==> {
                &&& (#[trigger] ta[i]).to_room == b_name
                &&& tb[i].to_room == a_name
                &&& ta[i].offset.x == -tb[i].offset.x
                &&& ta[i].offset.y == -tb[i].offset.y
            }
        }),
{
}

/// Along an axis normal, a bounce with bounciness `b` scales the velocity along
/// the normal by `1 - b`.
proof fn lemma_reflect_along(v: Vec2, n: Vec2, b: int)
    requires
        unit_axis(n),
        negatable(v),
        b == 1 || b == 2,
    ensures
        reflect(v, n, b).x * n.x + reflect(v, n, b).y * n.y == (1 - b) * (v.x * n.x + v.y * n.y),
{
    let d = v.x * n.x + v.y * n.y;
    let r = reflect(v, n, b);
    if n.y == 0 {
        assert(n.x == 1 || n.x == -1);
        assert(d == v.x * n.x);
        assert(n.x * n.x == 1) by (nonlinear_arith)
            requires
                n.x == 1 || n.x == -1,
        ;
        assert(n.x * d * b == v.x * b) by (nonlinear_arith)
            requires
                d == v.x * n.x,
                n.x * n.x == 1,
        ;
        assert(n.y * d * b == 0) by (nonlinear_arith)
            requires
                n.y == 0,
        ;
        assert(r.x == v.x - v.x * b);
        assert(r.y == v.y);
        assert(r.x * n.x + r.y * n.y == (1 - b) * d) by (nonlinear_arith)
            requires
                r.x == v.x - v.x * b,
                n.y == 0,
                d == v.x * n.x,
        ;
    } else {
        assert(n.x == 0 && (n.y == 1 || n.y == -1));
        assert(d == v.y * n.y);
        assert(n.y * n.y == 1) by (nonlinear_arith)
            requires
                n.y == 1 || n.y == -1,
        ;
        assert(n.y * d * b == v.y * b) by (nonlinear_arith)
            requires
                d == v.y * n.y,
                n.y * n.y == 1,
        ;
        assert(n.x * d * b == 0) by (nonlinear_arith)
            requires
                n.x == 0,
        ;
        assert(r.y == v.y - v.y * b);
        assert(r.x == v.x);
        assert(r.x * n.x + r.y * n.y == (1 - b) * d) by (nonlinear_arith)
            requires
                r.y == v.y - v.y * b,
                n.x == 0,
                d == v.y * n.y,
        ;
    }
}

/// Bouncing with bounciness one leaves no velocity along the normal.
pub proof fn law_bounce_stops(v: Vec2, n: Vec2)
    requires
        unit_axis(n),
        negatable(v),
    ensures
        reflect(v, n, 1).x * n.x + reflect(v, n, 1).y * n.y == 0,
{
    lemma_reflect_along(v, n, 1);
}

/// Bouncing with bounciness two reverses the velocity along the normal.
pub proof fn law_drill_bounce_reverses(v: Vec2, n: Vec2)
    requires
        unit_axis(n),
        negatable(v),
    ensures
        reflect(v, n, 2).x * n.x + reflect(v, n, 2).y * n.y == -(v.x * n.x + v.y * n.y),
{
    lemma_reflect_along(v, n, 2);
}

/// After collecting, no coin left is collected or overlaps the player, and every
/// coin is either left, picked up now, or was collected before.
pub proof fn law_coins_left(collider: Collider, coins: Seq<Coin>, n: int)
    requires
        0 <= n <= coins.len(),
    ensures
        forall|k: int| 0 <= k < coins_left(collider, coins, n).len() ==>
            !(#[trigger] coins_left(collider, coins, n)[k]).collected && !picks_up(collider, coins_left(collider, coins, n)[k]),
        coins_picked(collider, coins, n) + coins_left(collider, coins, n).len() <= n,
    decreases n,
{
    if n > 0 {
        law_coins_left(collider, coins, n - 1);
    }
}

/// Moving a room and then back to where it was (as cancelling a drag does) gives
/// back the level.
pub proof fn law_move_back(rooms: Seq<(String, RoomState)>, k: int, p: IVec2)
    requires
        0 <= k < rooms.len(),
    ensures
        with_pos(with_pos(rooms, k, p), k, rooms[k].1.pos) == rooms,
{
    assert(with_pos(with_pos(rooms, k, p), k, rooms[k].1.pos) =~= rooms);
}

/// Renaming a room and renaming it back gives back every transition, when no
/// transition led to the new name before.
pub proof fn law_rename_back(ts: Seq<TransitionView>, old: Seq<char>, new: Seq<char>)
    requires
        forall|i: int| 0 <= i < ts.len() ==> (#[trigger] ts[i]).to_room != new,
    ensures
        ts.map_values(|t: TransitionView| retargeted(t, old, new)).map_values(|t: TransitionView| retargeted(t, new, old)) == ts,
{
    let once = ts.map_values(|t: TransitionView| retargeted(t, old, new));
    let twice = once.map_values(|t: TransitionView| retargeted(t, new, old));
    assert forall|i: int| 0 <= i < ts.len() implies twice[i] == ts[i] by {
        assert(once[i] == retargeted(ts[i], old, new));
    }
    assert(twice =~= ts);
}

/// Picking the same block twice leaves the selection as it was.
pub proof fn law_pick_twice(s: Set<PlaceableId>, id: PlaceableId)
    ensures
        toggled(toggled(s, id), id) == s,
{
    if s.contains(id) {
        assert(s.remove(id).insert(id) =~= s);
    } else {
        assert(s.insert(id).remove(id) =~= s);
    }
}

/// Pausing and resuming with Escape gives back the game's switches.
pub proof fn law_pause_twice(flags: GameFlags)
    requires
        !flags.is_paused,
    ensures
        flags.after_key(GameKey::Escape).after_key(GameKey::Escape) == flags,
{
}

/// Cancelling a drag that took blocks gives back the room as it was before the
/// blocks were taken, and the undo stack as it was.
pub proof fn law_cancel_grab(before: RoomEditor, dragging: RoomEditor, after: RoomEditor)
    requires
        kept(before, dragging),
        after.room == dragging.undo_stack@.last(),
        after.undo_stack@ == dragging.undo_stack@.drop_last(),
    ensures
        same_room(before.room, after.room),
        after.undo_stack@ == before.undo_stack@,
{
}

/// Colliding the other way round gives the opposite collision: the normal and the
/// offset are negated and the penetration stays, unless the overlap is the same
/// from either side along an axis.
#[verifier::spinoff_prover]
pub proof fn law_collide_symmetric(a: Aabb2, b: Aabb2)
    requires
        collide_fits(a, b),
        a.spec_intersects(b),
        a.max.x - b.min.x != b.max.x - a.min.x,
        a.max.y - b.min.y != b.max.y - a.min.y,
    ensures
        spec_collide(a, b) is Some,
        spec_collide(b, a) == Some(Collision {
            normal: Vec2 { x: (-spec_collide(a, b).unwrap().normal.x) as i64, y: (-spec_collide(a, b).unwrap().normal.y) as i64 },
            penetration: spec_collide(a, b).unwrap().penetration,
            offset: (-spec_collide(a, b).unwrap().offset) as i64,
        }),
{
    let dx_right = a.max.x - b.min.x;
    let dx_left = b.max.x - a.min.x;
    let dy_up = a.max.y - b.min.y;
    let dy_down = b.max.y - a.min.y;
    assert(b.spec_intersects(a));
    assert(dx_right > 0 && dx_left > 0 && dy_up > 0 && dy_down > 0);
    let c = spec_collide(a, b).unwrap();
    let d = spec_collide(b, a).unwrap();
    assert(spec_collide(b, a) is Some);
    assert(d.penetration == c.penetration);
    assert(d.normal.x == -c.normal.x);
    assert(d.normal.y == -c.normal.y);
    if dx_right < dx_left {
        assert(c.normal.x == -1 || c.normal.x == 0);
    }
    if dy_up < dy_down {
        assert(dy_up * -1 == -dy_up);
        assert(dy_up * 1 == dy_up);
    } else {
        assert(dy_down * -1 == -dy_down);
        assert(dy_down * 1 == dy_down);
    }
    if dx_right < dx_left {
        assert(dx_right * -1 == -dx_right);
        assert(dx_right * 1 == dx_right);
    } else {
        assert(dx_left * -1 == -dx_left);
        assert(dx_left * 1 == dx_left);
    }
    assert(d.offset == -c.offset);
}

/// A collider gives back the box it was made of, with that box's center and size.
pub proof fn law_collider_keeps_box(aabb: Aabb2)
    ensures
        Collider::spec_new(aabb)@ == aabb,
        Collider::spec_new(aabb)@.spec_center() == aabb.spec_center(),
        Collider::spec_new(aabb)@.spec_size() == aabb.spec_size(),
{
    Collider::lemma_spec_new(aabb);
}

/// Whether `ids` were handed out by successive calls on one generator, whose
/// counter stood at `counters[i]` before the `i`-th call (see `IdGen::gen`).
pub open spec fn handed_out(ids: Seq<Id>, counters: Seq<u64>) -> bool {
    &&& ids.len() == counters.len()
    &&& forall|i: int| 0 <= i < ids.len() ==> (#[trigger] ids[i]).0 == counters[i]
    &&& forall|i: int| 0 <= i < counters.len() - 1 ==> counters[i + 1] == #[trigger] counters[i] + 1
}

/// One generator never hands out the same identifier twice: each one is larger
/// than all before it.
pub proof fn law_ids_increase(ids: Seq<Id>, counters: Seq<u64>, i: int, j: int)
    requires
        handed_out(ids, counters),
        0 <= i < j < ids.len(),
    ensures
        ids[i].0 < ids[j].0,
    decreases j - i,
{
    if j == i + 1 {
        assert(counters[i + 1] == counters[i] + 1);
    } else {
        law_ids_increase(ids, counters, i, j - 1);
        assert(counters[j - 1 + 1] == counters[j - 1] + 1);
    }
}

/// The cell at an index found from a position is that position, and the index
/// is the position's place in row order.
pub proof fn law_index_round_trip(pos: UVec2, width: usize)
    requires
        width > 0,
        pos.x < width,
    ensures
        (pos.x + pos.y * width) % (width as int) == pos.x,
        (pos.x + pos.y * width) / (width as int) == pos.y,
{
    vstd::arithmetic::div_mod::lemma_fundamental_div_mod_converse(
        pos.x + pos.y * width,
        width as int,
        pos.y as int,
        pos.x as int,
    );
}

/// Whether `id` in `layer` of `room` holds `block`: the same thing, or a tile with
/// the same name at the same position.
pub open spec fn reads_back(room: Room, block: Placeable, layer: ActiveLayer, id: PlaceableId) -> bool {
    match block {
        Placeable::Tile((t, pos)) => match room.spec_get_block(id, layer) {
            Some(Placeable::Tile((t2, p2))) => t2@ == t@ && p2 == pos,
            _ => false,
        },
        _ => room.spec_get_block(id, layer) == Some(block),
    }
}

/// What is put into a room can be read back at the place `place_block` returns:
/// the same thing, a tile with the same name at the same position (for lists
/// shorter than the largest index).
pub proof fn law_get_placed(before: Room, after: Room, block: Placeable, layer: ActiveLayer, id: PlaceableId)
    requires
        Room::block_placed(before, after, block, layer, id),
        before.hazards@.len() < usize::MAX,
        before.coins@.len() < usize::MAX,
        before.npcs@.len() < usize::MAX,
        before.spotlights@.len() < usize::MAX,
        before.spec_layer(layer).props@.len() < usize::MAX,
        block matches Placeable::Tile((t, pos)) ==> {
            &&& before.spec_layer(layer).tiles.well_formed()
            &&& before.spec_layer(layer).tiles@.in_bounds(pos.x as int, pos.y as int)
        },
    ensures
        reads_back(after, block, layer, id),
{
    match block {
        Placeable::Tile((t, pos)) => {
            let m0 = before.spec_layer(layer).tiles;
            let m1 = after.spec_layer(layer).tiles;
            let i = pos.x + pos.y * m0.size.x;
            crate::tilemap::lemma_cell_index(pos.x as int, pos.y as int, m0.size.x as int, m0.size.y as int);
            assert(m1@ == m0@.with_tile(pos.x as int, pos.y as int, t@));
            assert(m1.size == m0.size);
            assert(m1@.in_bounds(pos.x as int, pos.y as int));
            assert(m1@.tiles[i] == t@);
            assert(m1.tiles@[i]@ == m1@.tiles[i]);
            assert(after.spec_get_block(id, layer) == Some(Placeable::Tile((m1.tiles@[i], pos))));
            assert(m1.tiles@[i]@ == t@);
            assert(block == Placeable::Tile((t, pos)));
            assert(reads_back(after, block, layer, id));
        },
        Placeable::Prop(p) => {
            let k = before.spec_layer(layer).props@.len();
            assert(after.spec_layer(layer).props@[k as int] == p);
            assert(id == PlaceableId::Prop(k as usize));
            assert(k as usize == k);
            assert(after.spec_get_block(id, layer) == Some(Placeable::Prop(p)));
        },
        Placeable::Hazard(h) => {
            assert(after.hazards@[before.hazards@.len() as int] == h);
            assert(reads_back(after, block, layer, id));
        },
        Placeable::Coin(c) => {
            assert(after.coins@[before.coins@.len() as int] == c);
            assert(reads_back(after, block, layer, id));
        },
        Placeable::Npc(n) => {
            assert(after.npcs@[before.npcs@.len() as int] == n);
            assert(reads_back(after, block, layer, id));
        },
        Placeable::Spotlight(l) => {
            let k = before.spotlights@.len();
            assert(after.spotlights@[k as int] == l);
            assert(id == PlaceableId::Spotlight(k as usize));
            assert(k as usize == k);
            assert(after.spec_get_block(id, layer) == Some(Placeable::Spotlight(l)));
        },
    }
}

/// What a scroller reveals is always a prefix of its script's text: if the text
/// revealed so far, followed by what the scroller still has to reveal, is the
/// whole text (as it is for a new scroller, which has revealed nothing), then
/// after one more update (see `TextScroller::update`) the text revealed so far,
/// now with the new graphemes, is still followed by what is left, and is a prefix
/// of the whole text: nothing is lost, repeated or reordered.
pub proof fn law_revealed_prefix(
    before: TextScrollerView,
    after: TextScrollerView,
    shown: Seq<Seq<char>>,
    revealed: Seq<char>,
    total: Seq<char>,
)
    requires
        revealed + before.pending() == total,
        flat_text(shown) + after.pending() == before.pending(),
    ensures
        (revealed + flat_text(shown)) + after.pending() == total,
        (revealed + flat_text(shown)).is_prefix_of(total),
{
    let r = revealed + flat_text(shown);
    assert(r + after.pending() =~= revealed + (flat_text(shown) + after.pending()));
    assert(total.subrange(0, r.len() as int) =~= r);
}

/// How a tile joins a neighbour: a neighbour beyond the edge of the map joins it,
/// so that border tiles are drawn as going on past the edge; an air neighbour is
/// empty; a tile of the same kind or drawn on a higher layer joins it; any other
/// tile does not.
pub proof fn law_off_map_joins(m: TileMapView, index: int, tile: Option<Seq<char>>, rules: Rules, k: int)
    requires
        m.well_formed(),
        m.size.x > 0,
        0 <= k < 8,
        m.center(index, tile) is Some,
    ensures
        ({
            let w = m.size.x as int;
            let nx = index % w + sample_step(k).0 - 1;
            let ny = index / w + sample_step(k).1 - 1;
            &&& !(0 <= nx < w && 0 <= ny < m.size.y) ==> m.connection(index, tile, rules, k) == Connection::Same
            &&& (0 <= nx < w && 0 <= ny < m.size.y && m.tiles[nx + ny * w] == air())
                ==> m.connection(index, tile, rules, k) == Connection::Empty
            &&& (0 <= nx < w && 0 <= ny < m.size.y && m.tiles[nx + ny * w] != air()) ==> {
                let t = m.tiles[nx + ny * w];
                let c = m.center(index, tile).unwrap();
                &&& (t == c || rules.spec_layer(t) > rules.spec_layer(c)) ==> m.connection(index, tile, rules, k) == Connection::Same
                &&& (t != c && rules.spec_layer(t) <= rules.spec_layer(c)) ==> m.connection(index, tile, rules, k) == Connection::Other
            }
        }),
{
}

/// A hazard with a direction hurts a player overlapping it whenever the player's
/// velocity has no positive component along that direction (at rest, moving
/// across it or against it), and spares one moving along it; a hazard without a
/// direction hurts any player overlapping it.
pub proof fn law_hazard_hurts(collider: Collider, velocity: Vec2, hazard: Hazard)
    requires
        collider@.spec_intersects(hazard.collider@),
    ensures
        hazard.direction matches Some(d) ==> (hurts(collider, velocity, hazard)
            <==> velocity.x * d.x + velocity.y * d.y <= 0),
        hazard.direction is None ==> hurts(collider, velocity, hazard),
{
}

/// A hazard never hurts a player that does not overlap it.
pub proof fn law_hazard_needs_overlap(collider: Collider, velocity: Vec2, hazard: Hazard)
    requires
        !collider@.spec_intersects(hazard.collider@),
    ensures
        !hurts(collider, velocity, hazard),
{
}

/// A wall jump never slows a player rising along the wall: the new vertical
/// speed is the larger of the speed before the jump and the jump's own vertical
/// speed; sideways the player leaves the wall at the jump's speed.
pub proof fn law_wall_jump_keeps_rise(n: Vec2, wall_jump: Vec2, strength: int, v: Vec2)
    requires
        n.x != 0,
    ensures
        wall_jump_velocity(n, wall_jump, strength, v).y >= v.y,
        wall_jump_velocity(n, wall_jump, strength, v).y >= wall_jump.y,
        wall_jump_velocity(n, wall_jump, strength, v).y == v.y
            || wall_jump_velocity(n, wall_jump, strength, v).y == wall_jump.y,
        n.x > 0 ==> wall_jump_velocity(n, wall_jump, strength, v).x == wall_jump.x,
        n.x < 0 && wall_jump.x > i64::MIN ==> wall_jump_velocity(n, wall_jump, strength, v).x == -wall_jump.x,
{
}

/// A drill jump straight up speeds the player up along its way: its upward speed
/// grows by the increment, and is at least the minimum; it keeps no sideways speed.
pub proof fn law_drill_jump_up(v: Vec2, inc: int, min: int)
    ensures
        ({
            let d = Vec2 { x: 0, y: crate::geom::COORD_ONE };
            let speed = if v.y + inc >= min { v.y + inc } else { min };
            &&& drill_jump_velocity(v, d, inc, min).x == 0
            &&& drill_jump_velocity(v, d, inc, min).y == speed as i64
            &&& speed >= min
            &&& speed >= v.y + inc
        }),
{
    let one = crate::geom::COORD_ONE as int;
    let d = Vec2 { x: 0, y: crate::geom::COORD_ONE };
    assert((v.x * d.x + v.y * d.y) == v.y * one);
    vstd::arithmetic::div_mod::lemma_div_multiples_vanish(v.y as int, one);
    let speed = if v.y + inc >= min { v.y + inc } else { min };
    vstd::arithmetic::div_mod::lemma_div_multiples_vanish(speed, one);
    assert(one * speed == speed * one) by (nonlinear_arith);
    assert(v.y * one == one * v.y) by (nonlinear_arith);
}

/// What each filter of a tile set's pattern accepts: `Any` every neighbour,
/// `Empty` only air, `Filled` anything but air, `Same` only a joining tile and
/// `Other` anything but a joining tile.
pub proof fn law_filters_accept(c: Connection)
    ensures
        ConnectionFilter::Any.spec_matches(c),
        ConnectionFilter::Empty.spec_matches(c) <==> c == Connection::Empty,
        ConnectionFilter::Filled.spec_matches(c) <==> c != Connection::Empty,
        ConnectionFilter::Same.spec_matches(c) <==> c == Connection::Same,
        ConnectionFilter::Other.spec_matches(c) <==> (c == Connection::Empty || c == Connection::Other),
{
}

/// A tile image fits a neighbourhood exactly when each of its eight filters
/// accepts the neighbour in its place.
pub proof fn law_pattern_fits(pattern: [ConnectionFilter; 8], connections: [Connection; 8], k: int)
    requires
        0 <= k < 8,
    ensures
        pattern_matches(pattern, connections) ==> pattern[k].spec_matches(connections[k]),
        !pattern[k].spec_matches(connections[k]) ==> !pattern_matches(pattern, connections),
{
}

/// Light stops at the bottom of a tile exactly when the cell below lies in the map
/// and is air or drawn on a lower layer; likewise to the right, at the top and to
/// the left. Air stops no light.
pub proof fn law_light_edges(m: TileMapView, rules: Rules, i: int)
    requires
        m.well_formed(),
        m.size.x > 0,
        0 <= i < m.tiles.len(),
    ensures
        ({
            let w = m.size.x as int;
            let h = m.size.y as int;
            let x = i % w;
            let y = i / w;
            let t = m.tiles[i];
            let stops = |nx: int, ny: int| 0 <= nx < w && 0 <= ny < h && ({
                let n = m.tiles[nx + ny * w];
                n == air() || rules.spec_layer(n) < rules.spec_layer(t)
            });
            &&& t == air() ==> !casts_edge(m, rules, i, 0) && !casts_edge(m, rules, i, 1)
                && !casts_edge(m, rules, i, 2) && !casts_edge(m, rules, i, 3)
            &&& t != air() ==> {
                &&& casts_edge(m, rules, i, 0) == stops(x, y - 1)
                &&& casts_edge(m, rules, i, 1) == stops(x + 1, y)
                &&& casts_edge(m, rules, i, 2) == stops(x, y + 1)
                &&& casts_edge(m, rules, i, 3) == stops(x - 1, y)
            }
        }),
{
}

/// A coin is picked up exactly when it was not collected yet and overlaps the player.
pub proof fn law_coin_pickup(collider: Collider, coin: Coin)
    ensures
        picks_up(collider, coin) <==> (!coin.collected && collider@.spec_intersects(coin.collider@)),
{
}

/// A tile with nothing at its place (and none given) joins no neighbour.
pub proof fn law_no_center_no_joins(m: TileMapView, index: int, rules: Rules, k: int)
    requires
        m.center(index, None) is None,
    ensures
        m.connection(index, None, rules, k) == Connection::Empty,
{
}

/// Keeping the player under the top of the room: a player whose head is above
/// the top is moved straight down until its head is at the top, keeping its
/// size; a player below the top stays where it is.
pub proof fn law_clamp_top(c: Collider, b: Aabb2)
    requires
        c@.min.y <= c@.max.y,
        crate::movement::in_world(c@),
        crate::movement::in_world(b),
    ensures
        clamp_top(c, b).spec_head().y <= b.max.y,
        c.spec_head().y > b.max.y ==> clamp_top(c, b).spec_head().y == b.max.y,
        c.spec_head().y <= b.max.y ==> clamp_top(c, b) == c,
        clamp_top(c, b)@.min.x == c@.min.x && clamp_top(c, b)@.max.x == c@.max.x,
        clamp_top(c, b)@.max.y - clamp_top(c, b)@.min.y == c@.max.y - c@.min.y,
{
    if c.spec_head().y > b.max.y {
        let d = b.max.y - c.spec_head().y;
        let c2 = clamp_top(c, b);
        Collider::lemma_spec_new(c@.spec_translate(Vec2 { x: 0, y: d as i64 }));
        crate::collider::lemma_translate_center(c@.min.y as int, c@.max.y as int, d);
        assert(c2@.min.y == c@.min.y + d);
        assert(c2@.max.y == c@.max.y + d);
        assert(c2@.spec_center().y == c@.spec_center().y + d);
    }
}

/// Keeping the player between the walls: afterwards its feet are no further from
/// the room's center line than half the room's width (rounded down); a player
/// already within stays where it is, and the player only moves sideways.
pub proof fn law_clamp_sides(c: Collider, b: Aabb2)
    requires
        c@.min.x <= c@.max.x,
        crate::movement::in_world(c@),
        crate::movement::in_world(b),
    ensures
        crate::movement::abs(clamp_sides(c, b).spec_feet().x - b.spec_center().x) <= (b.max.x - b.min.x) / 2,
        !outside_sides(c, b) ==> clamp_sides(c, b) == c,
        clamp_sides(c, b)@.min.y == c@.min.y && clamp_sides(c, b)@.max.y == c@.max.y,
        clamp_sides(c, b)@.max.x - clamp_sides(c, b)@.min.x == c@.max.x - c@.min.x,
{
    if outside_sides(c, b) {
        let off = side_offset(c, b);
        let half = (b.max.x - b.min.x) / 2;
        let d = crate::movement::signum(off) * (half - crate::movement::abs(off));
        assert(-0x1_0000_0000_0000 <= d <= 0x1_0000_0000_0000) by {
            assert(crate::movement::signum(off) == 1 || crate::movement::signum(off) == -1 || crate::movement::signum(off) == 0);
        }
        let c2 = clamp_sides(c, b);
        Collider::lemma_spec_new(c@.spec_translate(Vec2 { x: d as i64, y: 0 }));
        crate::collider::lemma_translate_center(c@.min.x as int, c@.max.x as int, d);
        assert(c2@.spec_center().x == c@.spec_center().x + d);
        if off > 0 {
            assert(d == half - off);
        } else {
            assert(d == -(half + off));
        }
    }
}

} // verus!
