//! The player's interaction with the world: sensing walls and ground, bouncing off
//! what it runs into, staying inside the room, collecting coins and dying.
use vstd::prelude::*;
use crate::collider::{unit_axis, Collider, Collision};
use crate::geom::{fits, Aabb2, Coord, IVec2, Time, Vec2, COORD_ONE, TIME_ONE};
use crate::id::Id;
use crate::movement::{
    actor_collides, first_block_hit, id_known, in_world, lemma_hit_within, lemma_world_checkable, spec_actor_collides,
    velocity_ok, world_ok, hit_known, hit_within, Actor, Block, ColliderId, MoveCollision, PENETRATION_LIMIT,
};
use crate::placeable::{Coin, Hazard};
use crate::player::{Coyote, Player, PlayerState};
use crate::room::{Room, RoomTransition};
use crate::rules::{Rules, Tile};
use crate::tilemap::TileMap;

verus! {

/// The first block with identifier `id` among the first `n` blocks.
pub open spec fn block_index(blocks: Seq<Block>, id: Id, n: int) -> Option<int>
    decreases n,
{
    if n <= 0 {
        None
    } else {
        match block_index(blocks, id, n - 1) {
            Some(i) => Some(i),
            None => if blocks[n - 1].id == id { Some(n - 1) } else { None },
        }
    }
}

proof fn lemma_block_index(blocks: Seq<Block>, id: Id, n: int, j: int)
    requires
        0 <= j < n <= blocks.len(),
        blocks[j].id == id,
    ensures
        block_index(blocks, id, n) matches Some(i) && 0 <= i <= j && blocks[i].id == id,
    decreases n,
{
    if n - 1 > j {
        lemma_block_index(blocks, id, n - 1, j);
    } else {
        if let Some(i) = block_index(blocks, id, n - 1) {
            lemma_block_index_bounds(blocks, id, n - 1);
        }
    }
}

proof fn lemma_block_index_bounds(blocks: Seq<Block>, id: Id, n: int)
    ensures
        block_index(blocks, id, n) matches Some(i) ==> 0 <= i < n && blocks[i].id == id,
    decreases n,
{
    if n > 0 {
        lemma_block_index_bounds(blocks, id, n - 1);
    }
}

/// The tile of what a sensor touched: the tile in that cell, or the tile of the
/// first block with that identifier.
pub open spec fn spec_hit_tile(tiles: TileMap, blocks: Seq<Block>, id: ColliderId) -> Seq<char> {
    match id {
        ColliderId::Tile(pos) => tiles@.tile_at(pos.x as int, pos.y as int).unwrap(),
        ColliderId::Entity(id) => blocks[block_index(blocks, id, blocks.len() as int).unwrap()].tile@,
    }
}

/// The tile of what a sensor touched.
pub fn hit_tile(tiles: &TileMap, blocks: &Vec<Block>, id: ColliderId) -> (t: Tile)
    requires
        tiles@.well_formed(),
        id_known(id, *tiles, blocks@),
    ensures
        t@ == spec_hit_tile(*tiles, blocks@, id),
{
    match id {
        ColliderId::Tile(pos) => {
            let t = tiles.get_tile_isize(pos).unwrap();
            let r = t.clone();
            assert(r@ == t@);
            r
        },
        ColliderId::Entity(bid) => {
            proof {
                let j = choose|j: int| 0 <= j < blocks@.len() && (#[trigger] blocks@[j]).id == bid;
                lemma_block_index(blocks@, bid, blocks@.len() as int, j);
            }
            let n = blocks.len();
            let mut i: usize = 0;
            while i < n
                invariant
                    n == blocks@.len(),
                    i <= n,
                    block_index(blocks@, bid, i as int) is None,
                    block_index(blocks@, bid, n as int) is Some,
                    id == ColliderId::Entity(bid),
                decreases n - i,
            {
                if blocks[i].id == bid {
                    proof {
                        lemma_block_index_stays(blocks@, bid, i as int + 1, n as int);
                    }
                    let r = blocks[i].tile.clone();
                    assert(block_index(blocks@, bid, i as int + 1) == Some(i as int));
                    return r;
                }
                i += 1;
            }
            proof {
                assert(false);
            }
            blocks[0].tile.clone()
        },
    }
}

proof fn lemma_block_index_stays(blocks: Seq<Block>, id: Id, m: int, n: int)
    requires
        0 < m <= n,
        block_index(blocks, id, m) is Some,
    ensures
        block_index(blocks, id, n) == block_index(blocks, id, m),
    decreases n - m,
{
    if n > m {
        lemma_block_index_stays(blocks, id, m, n - 1);
    }
}

/// The world the player senses: the main layer of the room, its blocks and the
/// rules, with every box in the world checkable against it.
pub open spec fn room_ok(room: Room, blocks: Seq<Block>, rules: Rules) -> bool {
    world_ok(room.grid, room.layers.main.tiles, blocks, false, rules)
}

/// What `collider` runs into when it does not move.
pub open spec fn spec_check_collision(collider: Collider, room: Room, blocks: Seq<Block>, rules: Rules)
    -> Option<(ColliderId, Collision)> {
    spec_actor_collides(collider, Vec2 { x: 0, y: 0 }, room.grid, room.layers.main.tiles, blocks, false, rules)
}

/// What `collider` runs into when it does not move: a solid tile of the main layer
/// or a block.
pub fn check_collision(collider: &Collider, room: &Room, blocks: &Vec<Block>, rules: &Rules) -> (r: Option<(ColliderId, Collision)>)
    requires
        in_world(collider@),
        room_ok(*room, blocks@, *rules),
    ensures
        r == spec_check_collision(*collider, *room, blocks@, *rules),
        hit_known(r, room.layers.main.tiles, blocks@),
        hit_within(r, PENETRATION_LIMIT as int),
{
    proof {
        lemma_world_checkable(*collider, room.grid, room.layers.main.tiles, false, *rules);
        lemma_hit_within(*collider, Vec2 { x: 0, y: 0 }, room.grid, room.layers.main.tiles, blocks@, false, *rules);
        assert forall|i: int| 0 <= i < blocks@.len() implies crate::collider::collide_fits(collider@, (#[trigger] blocks@[i]).collider@) by {
            assert(in_world(blocks@[i].collider@));
        }
    }
    actor_collides(collider, Vec2 { x: 0, y: 0 }, &room.grid, &room.layers.main.tiles, blocks, false, rules)
}

/// Whether the actor's wall and feet sensors lie in the world.
pub open spec fn sensors_in_world(actor: Actor) -> bool {
    &&& actor.sensors_fit()
    &&& in_world(actor.spec_wall_collider())
    &&& in_world(actor.spec_feet_collider())
}

/// The player's state before the wall sensor decides: sliding or flying both
/// start over as flying.
pub open spec fn unstuck_from_wall(s: PlayerState) -> PlayerState {
    if s is Airborn || s is WallSliding { PlayerState::Airborn } else { s }
}

/// What sensing a wall beside the player makes of the player `p` (see `check_wall`).
pub open spec fn after_wall(p: Player, q: Player, actor: Actor, room: Room, blocks: Seq<Block>, rules: Rules) -> bool {
    &&& {
        let hit = spec_check_collision(Collider::spec_new(actor.spec_wall_collider()), room, blocks, rules);
        let s = unstuck_from_wall(p.state);
        match hit {
            None => {
                &&& q.touching_wall is None
                &&& q.state == s
                &&& q.coyote_time == p.coyote_time
            },
            Some((id, col)) => {
                let tile = spec_hit_tile(room.layers.main.tiles, blocks, id);
                &&& q.touching_wall matches Some((t, n)) && t@ == tile && n == col.normal
                &&& if s is Airborn {
                    &&& q.state matches PlayerState::WallSliding { tile: t, wall_normal }
                        && t@ == tile && wall_normal == col.normal
                    &&& q.coyote_time == Some((Coyote::Wall { wall_normal: col.normal }, rules.coyote_time))
                } else {
                    &&& q.state == s
                    &&& q.coyote_time == p.coyote_time
                }
            },
        }
    }
    &&& q.id == p.id
    &&& q.velocity == p.velocity
    &&& q.control_timeout == p.control_timeout
    &&& q.facing_left == p.facing_left
    &&& q.can_hold_jump == p.can_hold_jump
    &&& q.can_drill_dash == p.can_drill_dash
    &&& q.jump_buffer == p.jump_buffer
    &&& q.drill_release == p.drill_release
}

/// Senses a wall beside the player. The player touches the wall if its wall
/// sensor runs into something; flying into a wall starts a wall slide, which a
/// late jump can still use for the coyote time.
pub fn check_wall(player: &mut Player, actor: &Actor, room: &Room, blocks: &Vec<Block>, rules: &Rules)
    requires
        sensors_in_world(*actor),
        room_ok(*room, blocks@, *rules),
    ensures
        after_wall(*old(player), *final(player), *actor, *room, blocks@, *rules),
{
    player.touching_wall = None;
    if player.state.is_airborn() || player.state.is_wall_sliding() {
        player.state = PlayerState::Airborn;
    }
    let collider = actor.wall_collider();
    proof {
        crate::collider::lemma_collider_is_box(collider);
    }
    match check_collision(&collider, room, blocks, rules) {
        Some((id, col)) => {
            let tile = hit_tile(&room.layers.main.tiles, blocks, id);
            player.touching_wall = Some((tile.clone(), col.normal));
            if player.state.is_airborn() {
                player.state = PlayerState::WallSliding { tile, wall_normal: col.normal };
                player.coyote_time = Some((Coyote::Wall { wall_normal: col.normal }, rules.coyote_time));
            }
        },
        None => {},
    }
}

/// The player's state before the ground sensor decides: standing starts over as
/// flying.
pub open spec fn lifted(s: PlayerState) -> PlayerState {
    if s is Grounded { PlayerState::Airborn } else { s }
}

/// What sensing the ground below the player makes of the player `p`, and whether it just landed (see `check_ground`).
pub open spec fn after_ground(p: Player, q: Player, landed: bool, actor: Actor, room: Room, blocks: Seq<Block>, rules: Rules) -> bool {
    &&& {
        let was_grounded = p.state is Grounded;
        let s = lifted(p.state);
        let sense = (s is Airborn || s is WallSliding) && p.velocity.y <= 0;
        let hit = spec_check_collision(Collider::spec_new(actor.spec_feet_collider()), room, blocks, rules);
        if sense && hit is Some {
            let tile = spec_hit_tile(room.layers.main.tiles, blocks, hit.unwrap().0);
            &&& q.state matches PlayerState::Grounded(t) && t@ == tile
            &&& q.coyote_time == Some((Coyote::Ground, rules.coyote_time))
            &&& landed == !was_grounded
        } else {
            &&& q.state == s
            &&& q.coyote_time == p.coyote_time
            &&& !landed
        }
    }
    &&& q.id == p.id
    &&& q.velocity == p.velocity
    &&& q.touching_wall == p.touching_wall
    &&& q.control_timeout == p.control_timeout
    &&& q.facing_left == p.facing_left
    &&& q.can_hold_jump == p.can_hold_jump
    &&& q.can_drill_dash == p.can_drill_dash
    &&& q.jump_buffer == p.jump_buffer
    &&& q.drill_release == p.drill_release
}

/// Senses the ground below the player. A player that is not moving up and stood,
/// flew or slid stands on whatever its feet sensor runs into, and may still jump
/// for the coyote time after leaving it. Returns whether the player just landed.
pub fn check_ground(player: &mut Player, actor: &Actor, room: &Room, blocks: &Vec<Block>, rules: &Rules) -> (landed: bool)
    requires
        sensors_in_world(*actor),
        room_ok(*room, blocks@, *rules),
    ensures
        after_ground(*old(player), *final(player), landed, *actor, *room, blocks@, *rules),
{
    let was_grounded = player.state.is_grounded();
    if was_grounded {
        player.state = PlayerState::Airborn;
    }
    let sense = (player.state.is_airborn() || player.state.is_wall_sliding()) && player.velocity.y <= 0;
    if sense {
        let collider = actor.feet_collider();
        proof {
            crate::collider::lemma_collider_is_box(collider);
        }
        match check_collision(&collider, room, blocks, rules) {
            Some((id, _)) => {
                let tile = hit_tile(&room.layers.main.tiles, blocks, id);
                player.state = PlayerState::Grounded(tile);
                player.coyote_time = Some((Coyote::Ground, rules.coyote_time));
                return !was_grounded;
            },
            None => {},
        }
    }
    false
}

/// The cells that a box covers in which the tile is drillable and overlaps the box.
pub open spec fn drillable_cell(collider: Collider, room: Room, rules: Rules, x: int, y: int) -> bool {
    let tiles = room.layers.main.tiles;
    let pos = IVec2 { x: x as isize, y: y as isize };
    match tiles@.tile_at(x, y) {
        Some(t) => t != crate::tilemap::air() && rules.spec_tile(t).unwrap().drillable
            && collider@.spec_intersects(crate::movement::cell_box(room.grid, pos)),
        None => false,
    }
}

/// Whether the box overlaps a drillable tile of the main layer.
pub open spec fn spec_check_tiles(collider: Collider, room: Room, rules: Rules) -> bool {
    let g = collider.spec_grid_aabb(room.grid);
    exists|x: int, y: int| g.min.x <= x <= g.max.x && g.min.y <= y <= g.max.y && #[trigger] drillable_cell(collider, room, rules, x, y)
}

/// Whether the rules list every tile of the map, air included.
pub open spec fn rules_cover(tiles: TileMap, rules: Rules) -> bool {
    forall|i: int| 0 <= i < tiles@.tiles.len() ==> rules.knows(#[trigger] tiles@.tiles[i])
}

/// Whether the player's box overlaps a drillable tile, which keeps a drill drilling.
pub fn check_tiles(collider: &Collider, room: &Room, rules: &Rules) -> (b: bool)
    requires
        in_world(collider@),
        crate::movement::grid_sane(room.grid),
        room.layers.main.tiles@.well_formed(),
        rules_cover(room.layers.main.tiles, *rules),
    ensures
        b == spec_check_tiles(*collider, *room, *rules),
{
    let tiles = &room.layers.main.tiles;
    proof {
        lemma_world_checkable(*collider, room.grid, *tiles, false, *rules);
    }
    let g = collider.grid_aabb(&room.grid);
    let mut x = g.min.x;
    while x <= g.max.x
        invariant
            g == collider.spec_grid_aabb(room.grid),
            crate::movement::collide_tiles_ok(*collider, room.grid, *tiles, false, *rules),
            tiles == &room.layers.main.tiles,
            tiles@.well_formed(),
            rules_cover(*tiles, *rules),
            g.min.x <= x <= g.max.x + 1,
            g.min.y <= g.max.y,
            forall|i: int, j: int| g.min.x <= i < x && g.min.y <= j <= g.max.y ==> !#[trigger] drillable_cell(*collider, *room, *rules, i, j),
        decreases g.max.x + 1 - x,
    {
        let mut y = g.min.y;
        while y <= g.max.y
            invariant
                g == collider.spec_grid_aabb(room.grid),
                crate::movement::collide_tiles_ok(*collider, room.grid, *tiles, false, *rules),
                tiles == &room.layers.main.tiles,
                tiles@.well_formed(),
                rules_cover(*tiles, *rules),
                g.min.x <= x <= g.max.x,
                g.min.y <= y <= g.max.y + 1,
                forall|i: int, j: int| g.min.x <= i < x && g.min.y <= j <= g.max.y ==> !#[trigger] drillable_cell(*collider, *room, *rules, i, j),
                forall|j: int| g.min.y <= j < y ==> !#[trigger] drillable_cell(*collider, *room, *rules, x as int, j),
            decreases g.max.y + 1 - y,
        {
            let pos = IVec2 { x, y };
            proof {
                assert(crate::movement::cell_ok(*collider, room.grid, *tiles, false, *rules, x as int, y as int));
            }
            match tiles.get_tile_isize(pos) {
                Some(t) => {
                    proof {
                        crate::tilemap::lemma_cell_index(x as int, y as int, tiles@.size.x as int, tiles@.size.y as int);
                        assert(rules.knows(tiles@.tiles[x + y * tiles@.size.x]));
                    }
                    let air = crate::tilemap::is_air(t);
                    let drill = rules.tile(t).drillable;
                    if !air && drill {
                        let p = room.grid.grid_to_world(pos);
                        let cell = Collider::new(Aabb2::point(p).extend_positive(room.grid.cell_size));
                        if collider.check(&cell) {
                            assert(drillable_cell(*collider, *room, *rules, x as int, y as int));
                            return true;
                        }
                    }
                },
                None => {},
            }
            y += 1;
        }
        x += 1;
    }
    false
}

/// Kills the player: it stops, waits a second to respawn, and one more death is counted.
pub fn kill_player(player: &mut Player, deaths: &mut usize)
    requires
        *old(deaths) < usize::MAX,
    ensures
        *final(player) == (Player {
            velocity: Vec2 { x: 0, y: 0 },
            state: PlayerState::Respawning { time: TIME_ONE },
            ..*old(player)
        }),
        *final(deaths) == *old(deaths) + 1,
{
    player.velocity = Vec2 { x: 0, y: 0 };
    player.state = PlayerState::Respawning { time: TIME_ONE };
    *deaths = *deaths + 1;
}

/// `v` after bouncing off a surface with normal `n`: `v - n * dot(v, n) * bounciness`.
pub open spec fn reflect(v: Vec2, n: Vec2, bounciness: int) -> Vec2 {
    let d = v.x * n.x + v.y * n.y;
    Vec2 { x: (v.x - n.x * d * bounciness) as i64, y: (v.y - n.y * d * bounciness) as i64 }
}

/// Whether each component of `v` can be negated.
pub open spec fn negatable(v: Vec2) -> bool {
    v.x > i64::MIN && v.y > i64::MIN
}

fn reflect_exec(v: Vec2, n: Vec2, bounciness: i64) -> (r: Vec2)
    requires
        unit_axis(n),
        bounciness == 1 || bounciness == 2,
        negatable(v),
    ensures
        r == reflect(v, n, bounciness as int),
        negatable(r),
{
    let r = if n.x != 0 {
        Vec2 { x: if bounciness == 2 { -v.x } else { 0 }, y: v.y }
    } else {
        Vec2 { x: v.x, y: if bounciness == 2 { -v.y } else { 0 } }
    };
    assert(r == reflect(v, n, bounciness as int)) by (nonlinear_arith)
        requires
            unit_axis(n),
            bounciness == 1 || bounciness == 2,
            r == (if n.x != 0 {
                Vec2 { x: if bounciness == 2 { (-v.x) as i64 } else { 0 }, y: v.y }
            } else {
                Vec2 { x: v.x, y: if bounciness == 2 { (-v.y) as i64 } else { 0 } }
            }),
            negatable(v),
    ;
    r
}

/// What the player's move reports it ran into makes it bounce: a wall slide ends,
/// and the velocity loses its part along each normal, or reverses it while the
/// player is a drill (vertical first, then horizontal).
pub fn bounce(player: &mut Player, collision: MoveCollision)
    requires
        hit_within(collision.x, PENETRATION_LIMIT as int),
        hit_within(collision.y, PENETRATION_LIMIT as int),
        negatable(old(player).velocity),
    ensures
        ({
            let s = if old(player).state is WallSliding { PlayerState::Airborn } else { old(player).state };
            let b: int = if s is Drilling || s is AirDrill { 2 } else { 1 };
            let v1 = match collision.y {
                Some((_, c)) => reflect(old(player).velocity, c.normal, b),
                None => old(player).velocity,
            };
            let v2 = match collision.x {
                Some((_, c)) => reflect(v1, c.normal, b),
                None => v1,
            };
            &&& final(player).state == s
            &&& final(player).velocity == v2
        }),
        negatable(final(player).velocity),
        final(player).id == old(player).id,
        final(player).touching_wall == old(player).touching_wall,
        final(player).coyote_time == old(player).coyote_time,
        final(player).jump_buffer == old(player).jump_buffer,
        final(player).control_timeout == old(player).control_timeout,
        final(player).can_drill_dash == old(player).can_drill_dash,
{
    if player.state.is_wall_sliding() {
        player.state = PlayerState::Airborn;
    }
    let bounciness: i64 = if player.state.using_drill() { 2 } else { 1 };
    match collision.y {
        Some((_, c)) => {
            player.velocity = reflect_exec(player.velocity, c.normal, bounciness);
        },
        None => {},
    }
    match collision.x {
        Some((_, c)) => {
            player.velocity = reflect_exec(player.velocity, c.normal, bounciness);
        },
        None => {},
    }
}

/// The collider moved down so that its head is no higher than the top of `b`.
pub open spec fn clamp_top(c: Collider, b: Aabb2) -> Collider {
    if c.spec_head().y > b.max.y {
        Collider::spec_new(c@.spec_translate(Vec2 { x: 0, y: (b.max.y - c.spec_head().y) as i64 }))
    } else {
        c
    }
}

/// How far the feet of `c` are from the vertical center line of `b`.
pub open spec fn side_offset(c: Collider, b: Aabb2) -> int {
    c.spec_feet().x - b.spec_center().x
}

/// Whether the feet of `c` are further from the center line of `b` than half its width.
pub open spec fn outside_sides(c: Collider, b: Aabb2) -> bool {
    crate::movement::abs(side_offset(c, b)) > (b.max.x - b.min.x) / 2
}

/// The collider moved sideways so that its feet are half the width of `b` (rounded
/// down) from the center line of `b`, if they were further.
pub open spec fn clamp_sides(c: Collider, b: Aabb2) -> Collider {
    let off = side_offset(c, b);
    let half = (b.max.x - b.min.x) / 2;
    if outside_sides(c, b) {
        Collider::spec_new(c@.spec_translate(Vec2 {
            x: (crate::movement::signum(off) * (half - crate::movement::abs(off))) as i64,
            y: 0,
        }))
    } else {
        c
    }
}

proof fn lemma_near_world_sized(c: Collider)
    requires
        crate::movement::near_world(c@),
    ensures
        c.well_sized(),
        c@.size_fits(),
        c@.center_fits(),
{
}

/// Keeps the player inside the room: its head goes no higher than the top (a
/// drill bounces back down, anything else stops rising), its feet go no further
/// sideways than the walls (and it stops), and it dies if its feet fall below the
/// bottom. Returns whether it died.
pub fn level_bounds(player: &mut Player, actor: &mut Actor, room: &Room, deaths: &mut usize) -> (died: bool)
    requires
        in_world(old(actor).collider@),
        room.bounds_fit(),
        in_world(room.spec_bounds()),
        negatable(old(player).velocity),
        *old(deaths) < usize::MAX,
    ensures
        ({
            let b = room.spec_bounds();
            let c0 = old(actor).collider;
            let c1 = clamp_top(c0, b);
            let c2 = clamp_sides(c1, b);
            let vy = if c0.spec_head().y > b.max.y {
                if old(player).state is Drilling { -old(player).velocity.y } else { 0 }
            } else {
                old(player).velocity.y as int
            };
            let vx = if outside_sides(c1, b) { 0 } else { old(player).velocity.x as int };
            &&& final(actor).collider == c2
            &&& died == (c2.spec_feet().y < b.min.y)
            &&& if died {
                &&& final(player).velocity == (Vec2 { x: 0, y: 0 })
                &&& final(player).state == (PlayerState::Respawning { time: TIME_ONE })
                &&& *final(deaths) == *old(deaths) + 1
            } else {
                &&& final(player).velocity.x == vx
                &&& final(player).velocity.y == vy
                &&& final(player).state == old(player).state
                &&& *final(deaths) == *old(deaths)
            }
        }),
        final(actor).id == old(actor).id,
        final(actor).move_remainder == old(actor).move_remainder,
        final(player).id == old(player).id,
{
    let b = room.bounds();
    proof {
        lemma_near_world_sized(actor.collider);
    }
    // Top
    let head = actor.collider.head();
    if head.y > b.max.y {
        actor.collider.translate(Vec2 { x: 0, y: b.max.y - head.y });
        player.velocity.y = if player.state.is_drilling() { -player.velocity.y } else { 0 };
    }
    proof {
        crate::collider::lemma_collider_is_box(actor.collider);
        lemma_near_world_sized(actor.collider);
    }
    // Sides
    let feet = actor.collider.feet();
    let center = b.center();
    let offset = feet.x - center.x;
    let half = b.width() / 2;
    let dist = if offset < 0 { -offset } else { offset };
    if dist > half {
        let dx: i64 = if offset > 0 { half - dist } else { dist - half };
        assert(dx == crate::movement::signum(offset as int) * (half - dist));
        actor.collider.translate(Vec2 { x: dx, y: 0 });
        player.velocity.x = 0;
    }
    proof {
        crate::collider::lemma_collider_is_box(actor.collider);
        lemma_near_world_sized(actor.collider);
    }
    // Bottom
    if actor.collider.feet().y < b.min.y {
        kill_player(player, deaths);
        return true;
    }
    false
}

/// Whether the player's box picks up the coin: it is not collected yet and overlaps.
pub open spec fn picks_up(collider: Collider, coin: Coin) -> bool {
    !coin.collected && collider@.spec_intersects(coin.collider@)
}

/// The coins among the first `n` that stay: not collected and not picked up.
pub open spec fn coins_left(collider: Collider, coins: Seq<Coin>, n: int) -> Seq<Coin>
    decreases n,
{
    if n <= 0 {
        Seq::empty()
    } else if !coins[n - 1].collected && !picks_up(collider, coins[n - 1]) {
        coins_left(collider, coins, n - 1).push(coins[n - 1])
    } else {
        coins_left(collider, coins, n - 1)
    }
}

/// How many of the first `n` coins the player picks up.
pub open spec fn coins_picked(collider: Collider, coins: Seq<Coin>, n: int) -> int
    decreases n,
{
    if n <= 0 {
        0
    } else {
        coins_picked(collider, coins, n - 1) + if picks_up(collider, coins[n - 1]) { 1int } else { 0 }
    }
}

/// The center of the last of the first `n` coins that the player picks up.
pub open spec fn last_picked(collider: Collider, coins: Seq<Coin>, n: int) -> Option<Vec2>
    decreases n,
{
    if n <= 0 {
        None
    } else if picks_up(collider, coins[n - 1]) {
        Some(coins[n - 1].collider@.spec_center())
    } else {
        last_picked(collider, coins, n - 1)
    }
}

proof fn lemma_coins_picked_bound(collider: Collider, coins: Seq<Coin>, n: int)
    requires
        0 <= n,
    ensures
        0 <= coins_picked(collider, coins, n) <= n,
    decreases n,
{
    if n > 0 {
        lemma_coins_picked_bound(collider, coins, n - 1);
    }
}

/// Collects the coins that the player's box overlaps: they are counted and, with
/// the coins collected before, leave the room. Returns where the last coin
/// collected was, for the effects.
pub fn player_coins(collider: &Collider, coins: &mut Vec<Coin>, coins_collected: &mut usize) -> (at: Option<Vec2>)
    requires
        *old(coins_collected) + old(coins)@.len() <= usize::MAX,
        forall|i: int| 0 <= i < old(coins)@.len() ==> (#[trigger] old(coins)@[i]).collider@.center_fits(),
    ensures
        final(coins)@ == coins_left(*collider, old(coins)@, old(coins)@.len() as int),
        *final(coins_collected) == *old(coins_collected) + coins_picked(*collider, old(coins)@, old(coins)@.len() as int),
        at == last_picked(*collider, old(coins)@, old(coins)@.len() as int),
{
    let n = coins.len();
    let mut kept: Vec<Coin> = Vec::new();
    let mut at: Option<Vec2> = None;
    let mut i: usize = 0;
    while i < n
        invariant
            n == old(coins)@.len(),
            coins@ == old(coins)@,
            i <= n,
            kept@ == coins_left(*collider, coins@, i as int),
            *coins_collected == *old(coins_collected) + coins_picked(*collider, coins@, i as int),
            at == last_picked(*collider, coins@, i as int),
            *old(coins_collected) + n <= usize::MAX,
            forall|i: int| 0 <= i < coins@.len() ==> (#[trigger] coins@[i]).collider@.center_fits(),
        decreases n - i,
    {
        proof {
            lemma_coins_picked_bound(*collider, coins@, i as int);
        }
        let coin = &coins[i];
        if !coin.collected && collider.check(&coin.collider) {
            *coins_collected = *coins_collected + 1;
            at = Some(coin.collider.pos());
        } else if !coin.collected {
            kept.push(coin.clone());
        }
        i += 1;
    }
    *coins = kept;
    at
}

/// Whether the hazard kills the player: they overlap and the player does not move
/// along the hazard's direction, if it has one.
pub open spec fn hurts(collider: Collider, velocity: Vec2, hazard: Hazard) -> bool {
    &&& collider@.spec_intersects(hazard.collider@)
    &&& match hazard.direction {
        Some(d) => velocity.x * d.x + velocity.y * d.y <= 0,
        None => true,
    }
}

/// Whether a hazard's direction, if any, has components `-1`, `0` or `1`.
pub open spec fn direction_ok(hazard: Hazard) -> bool {
    hazard.direction matches Some(d) ==> -1 <= d.x <= 1 && -1 <= d.y <= 1
}

/// Kills the player if some hazard hurts it. Returns whether it died.
pub fn player_hazards(player: &mut Player, collider: &Collider, hazards: &Vec<Hazard>, deaths: &mut usize) -> (died: bool)
    requires
        velocity_ok(old(player).velocity),
        *old(deaths) < usize::MAX,
        forall|i: int| 0 <= i < hazards@.len() ==> direction_ok(#[trigger] hazards@[i]),
    ensures
        died == exists|i: int| 0 <= i < hazards@.len() && hurts(*collider, old(player).velocity, #[trigger] hazards@[i]),
        died ==> final(player).velocity == (Vec2 { x: 0, y: 0 })
            && final(player).state == (PlayerState::Respawning { time: TIME_ONE })
            && *final(deaths) == *old(deaths) + 1,
        !died ==> *final(player) == *old(player) && *final(deaths) == *old(deaths),
        final(player).id == old(player).id,
        forall|i: int| 0 <= i < hazards@.len() && collider@.spec_intersects((#[trigger] hazards@[i]).collider@)
            && (hazards@[i].direction matches Some(d) ==> old(player).velocity.x * d.x + old(player).velocity.y * d.y <= 0)
            ==> died,
        died ==> exists|i: int| 0 <= i < hazards@.len() && collider@.spec_intersects((#[trigger] hazards@[i]).collider@)
            && (hazards@[i].direction matches Some(d) ==> old(player).velocity.x * d.x + old(player).velocity.y * d.y <= 0),
{
    let n = hazards.len();
    let mut i: usize = 0;
    while i < n
        invariant
            n == hazards@.len(),
            i <= n,
            *player == *old(player),
            *deaths == *old(deaths),
            velocity_ok(player.velocity),
            *old(deaths) < usize::MAX,
            forall|i: int| 0 <= i < hazards@.len() ==> direction_ok(#[trigger] hazards@[i]),
            forall|j: int| 0 <= j < i ==> !hurts(*collider, old(player).velocity, #[trigger] hazards@[j]),
        decreases n - i,
    {
        let hazard = &hazards[i];
        if collider.check(&hazard.collider) {
            let hit = match hazard.direction {
                Some(d) => {
                    assert(direction_ok(hazards@[i as int]));
                    let v = player.velocity;
                    let dx: i64 = if d.x > 0 { v.x } else if d.x < 0 { -v.x } else { 0 };
                    let dy: i64 = if d.y > 0 { v.y } else if d.y < 0 { -v.y } else { 0 };
                    assert(dx + dy == v.x * d.x + v.y * d.y) by (nonlinear_arith)
                        requires
                            -1 <= d.x <= 1,
                            -1 <= d.y <= 1,
                            dx == (if d.x > 0 { v.x as int } else if d.x < 0 { -v.x } else { 0 }),
                            dy == (if d.y > 0 { v.y as int } else if d.y < 0 { -v.y } else { 0 }),
                    ;
                    dx + dy <= 0
                },
                None => true,
            };
            if hit {
                assert(hurts(*collider, old(player).velocity, hazards@[i as int]));
                kill_player(player, deaths);
                return true;
            }
        }
        i += 1;
    }
    false
}

/// What the paused states decide for a frame.
#[derive(Clone, Copy, Debug, PartialEq, Eq, Structural)]
pub enum PauseOutcome {
    /// The player is not paused: the frame goes on as usual.
    Running,
    /// The player waits (to respawn, or at the finish).
    Paused,
    /// The player waits at the finish, and a heart rises from it.
    Heart,
    /// The finish animation is over: the next level starts.
    NextLevel,
}

/// `v` changed at rate `rate` per second for `dt` microseconds, rounded down.
pub open spec fn scaled(rate: int, dt: int) -> int {
    rate * dt / (TIME_ONE as int)
}

/// The time between two hearts at the finish: half a second.
pub const HEART_INTERVAL: Time = 500_000;

/// How long the player may stand at the finish and how fast gravity may pull,
/// for the arithmetic of a paused frame.
pub open spec fn pause_ok(player: Player, actor: Actor, room: Room, rules: Rules, dt: Time) -> bool {
    &&& 0 <= dt <= TIME_ONE
    &&& -0x100_0000_0000 <= rules.gravity.y <= 0x100_0000_0000
    &&& -0x1000_0000_0000_0000 <= player.velocity.y <= 0x1000_0000_0000_0000
    &&& match player.state {
        PlayerState::Respawning { time } => {
            &&& fits(time - dt)
            &&& in_world(actor.collider@)
            &&& -crate::movement::WORLD_LIMIT <= room.spawn_point.x <= crate::movement::WORLD_LIMIT
            &&& -crate::movement::WORLD_LIMIT <= room.spawn_point.y <= crate::movement::WORLD_LIMIT
        },
        PlayerState::Finished { time, next_heart } => fits(time - dt) && fits(next_heart - dt) && fits(next_heart - dt + HEART_INTERVAL),
        _ => true,
    }
}

/// Runs the paused states for a frame of `dt`. A respawning player waits, then
/// comes back at rest at the spawn point, flying. A player at the finish waits
/// for the next level while hearts rise every half second, falling straight down.
pub fn pause_state(player: &mut Player, actor: &mut Actor, room: &Room, rules: &Rules, dt: Time) -> (r: PauseOutcome)
    requires
        pause_ok(*old(player), *old(actor), *room, *rules, dt),
    ensures
        match old(player).state {
            PlayerState::Respawning { time } => {
                &&& r == PauseOutcome::Paused
                &&& if time - dt <= 0 {
                    &&& final(player).state == PlayerState::Airborn
                    &&& final(player).velocity == (Vec2 { x: 0, y: 0 })
                    &&& final(actor).collider.spec_feet() == room.spawn_point
                    &&& final(actor).collider@.spec_size() == old(actor).collider@.spec_size()
                } else {
                    &&& final(player).state == (PlayerState::Respawning { time: (time - dt) as i64 })
                    &&& final(player).velocity == old(player).velocity
                    &&& final(actor).collider == old(actor).collider
                }
            },
            PlayerState::Finished { time, next_heart } => {
                &&& final(actor).collider == old(actor).collider
                &&& if time - dt <= 0 {
                    &&& r == PauseOutcome::NextLevel
                    &&& final(player).state == (PlayerState::Finished { time: (time - dt) as i64, next_heart })
                    &&& final(player).velocity == old(player).velocity
                } else {
                    let heart = next_heart - dt <= 0;
                    &&& r == (if heart { PauseOutcome::Heart } else { PauseOutcome::Paused })
                    &&& final(player).state == (PlayerState::Finished {
                        time: (time - dt) as i64,
                        next_heart: (if heart { next_heart - dt + HEART_INTERVAL } else { next_heart - dt }) as i64,
                    })
                    &&& final(player).velocity == (Vec2 {
                        x: 0,
                        y: (old(player).velocity.y + scaled(rules.gravity.y as int, dt as int)) as i64,
                    })
                }
            },
            _ => r == PauseOutcome::Running && *final(player) == *old(player) && *final(actor) == *old(actor),
        },
        final(player).id == old(player).id,
        final(actor).id == old(actor).id,
{
    match player.state {
        PlayerState::Respawning { time } => {
            let t = time - dt;
            if t <= 0 {
                player.state = PlayerState::Airborn;
                player.velocity = Vec2 { x: 0, y: 0 };
                proof {
                    lemma_near_world_sized(actor.collider);
                }
                actor.collider.teleport(room.spawn_point);
            } else {
                player.state = PlayerState::Respawning { time: t };
            }
            PauseOutcome::Paused
        },
        PlayerState::Finished { time, next_heart } => {
            let t = time - dt;
            if t <= 0 {
                player.state = PlayerState::Finished { time: t, next_heart };
                return PauseOutcome::NextLevel;
            }
            let mut h = next_heart - dt;
            let heart = h <= 0;
            if heart {
                h = h + HEART_INTERVAL;
            }
            player.state = PlayerState::Finished { time: t, next_heart: h };
            let g = rules.gravity.y;
            assert(-0x100_0000_0000 * TIME_ONE <= g * dt <= 0x100_0000_0000 * TIME_ONE) by (nonlinear_arith)
                requires
                    -0x100_0000_0000 <= g <= 0x100_0000_0000,
                    0 <= dt <= TIME_ONE,
            ;
            let fall = crate::geom::floor_div(g * dt, TIME_ONE);
            assert(-0x100_0000_0000 <= fall <= 0x100_0000_0000) by (nonlinear_arith)
                requires
                    -0x100_0000_0000 * TIME_ONE <= g * dt <= 0x100_0000_0000 * TIME_ONE,
                    fall == (g * dt) / (TIME_ONE as int),
            ;
            player.velocity = Vec2 { x: 0, y: player.velocity.y + fall };
            if heart { PauseOutcome::Heart } else { PauseOutcome::Paused }
        },
        _ => PauseOutcome::Running,
    }
}

/// `x` limited to `[-m, m]`.
pub open spec fn clamp_abs(x: int, m: int) -> int {
    if x > m { m } else if x < -m { -m } else { x }
}

/// Turns an air drill back into a flying player once the drill is no longer held,
/// unless a dash is still running. Leaving the drill early (without the release
/// grace) costs horizontal speed: it is cut to the walking speed. Returns whether
/// it did, for the effects.
pub fn drill_dash_cancel(player: &mut Player, hold_drill: bool, move_speed: i64) -> (slowed: bool)
    requires
        move_speed >= 0,
    ensures
        ({
            let cancels = old(player).state == (PlayerState::AirDrill { dash: None }) && !hold_drill;
            if !cancels {
                &&& !slowed
                &&& *final(player) == *old(player)
            } else {
                &&& final(player).state == PlayerState::Airborn
                &&& final(player).drill_release is None
                &&& slowed == old(player).drill_release is None
                &&& final(player).velocity.y == old(player).velocity.y
                &&& final(player).velocity.x == if slowed {
                    clamp_abs(old(player).velocity.x as int, move_speed as int)
                } else {
                    old(player).velocity.x as int
                }
            }
        }),
        final(player).id == old(player).id,
{
    match player.state {
        PlayerState::AirDrill { dash: None } => {},
        _ => {
            return false;
        },
    }
    if hold_drill {
        return false;
    }
    player.state = PlayerState::Airborn;
    if player.drill_release.is_some() {
        player.drill_release = None;
        return false;
    }
    let x = player.velocity.x;
    player.velocity.x = if x > move_speed { move_speed } else if x < -move_speed { -move_speed } else { x };
    true
}

/// `rate * (multiplier - 1)`, with the multiplier in `COORD_ONE`ths, applied for
/// `dt`: the extra pull of gravity.
pub open spec fn extra_pull(rate: int, multiplier: int, dt: int) -> int {
    scaled(rate * (multiplier - crate::geom::COORD_ONE) / (crate::geom::COORD_ONE as int), dt)
}

/// Whether `variable_jump` keeps its arithmetic in range.
pub open spec fn jump_rules_ok(rules: Rules, dt: Time, v: Vec2) -> bool {
    &&& 0 <= dt <= TIME_ONE
    &&& -0x1_0000_0000 <= rules.gravity.y <= 0x1_0000_0000
    &&& -0x100_0000 <= rules.jump.fall_multiplier <= 0x100_0000
    &&& -0x100_0000 <= rules.jump.low_multiplier <= 0x100_0000
    &&& 0 <= rules.free_fall_speed
    &&& 0 <= rules.wall_slide_speed
    &&& -0x1000_0000_0000_0000 <= v.y <= 0x1000_0000_0000_0000
}

fn pull(rate: i64, multiplier: i64, dt: Time) -> (r: i64)
    requires
        -0x1_0000_0000 <= rate <= 0x1_0000_0000,
        -0x100_0000 <= multiplier <= 0x100_0000,
        0 <= dt <= TIME_ONE,
    ensures
        r == extra_pull(rate as int, multiplier as int, dt as int),
        -0x1000_0000_0000 <= r <= 0x1000_0000_0000,
{
    let m = multiplier - crate::geom::COORD_ONE;
    assert(-0x1_0000_0000 * 0x200_0000 <= rate * m <= 0x1_0000_0000 * 0x200_0000) by (nonlinear_arith)
        requires
            -0x1_0000_0000 <= rate <= 0x1_0000_0000,
            -0x200_0000 <= m <= 0x200_0000,
    ;
    let per_second = crate::geom::floor_div(rate * m, crate::geom::COORD_ONE);
    assert(-9_007_199_254_741 <= per_second <= 9_007_199_254_741) by (nonlinear_arith)
        requires
            -0x1_0000_0000 * 0x200_0000 <= rate * m <= 0x1_0000_0000 * 0x200_0000,
            per_second == (rate * m) / (crate::geom::COORD_ONE as int),
    ;
    assert(-9_007_199_254_741 * TIME_ONE <= per_second * dt <= 9_007_199_254_741 * TIME_ONE) by (nonlinear_arith)
        requires
            -9_007_199_254_741 <= per_second <= 9_007_199_254_741,
            0 <= dt <= TIME_ONE,
    ;
    let r = crate::geom::floor_div(per_second * dt, TIME_ONE);
    assert(-0x1000_0000_0000 <= r <= 0x1000_0000_0000) by (nonlinear_arith)
        requires
            -9_007_199_254_741 * TIME_ONE <= per_second * dt <= 9_007_199_254_741 * TIME_ONE,
            r == (per_second * dt) / (TIME_ONE as int),
    ;
    r
}

/// Makes jumps higher the longer the jump is held: a falling player falls faster
/// (up to the free-fall speed, or the wall-slide speed on a wall), and a rising
/// player that lets go of jump (or may not hold it) rises less. An air drill is
/// left alone.
pub fn variable_jump(player: &mut Player, hold_jump: bool, rules: &Rules, dt: Time)
    requires
        jump_rules_ok(*rules, dt, old(player).velocity),
    ensures
        ({
            let v = old(player).velocity.y as int;
            let g = rules.gravity.y as int;
            let vy = if old(player).state is AirDrill {
                v
            } else if v < 0 {
                let cap = if old(player).state is WallSliding { rules.wall_slide_speed } else { rules.free_fall_speed };
                clamp_abs(v + extra_pull(g, rules.jump.fall_multiplier as int, dt as int), cap as int)
            } else if v > 0 && !(hold_jump && old(player).can_hold_jump) {
                v + extra_pull(g, rules.jump.low_multiplier as int, dt as int)
            } else {
                v
            };
            final(player).velocity.y == vy
        }),
        final(player).velocity.x == old(player).velocity.x,
        final(player).state == old(player).state,
        final(player).id == old(player).id,
        final(player).can_hold_jump == old(player).can_hold_jump,
{
    if player.state.is_air_drilling() {
        return;
    }
    let v = player.velocity.y;
    if v < 0 {
        let fallen = v + pull(rules.gravity.y, rules.jump.fall_multiplier, dt);
        let cap = if player.state.is_wall_sliding() { rules.wall_slide_speed } else { rules.free_fall_speed };
        player.velocity.y = if fallen > cap { cap } else if fallen < -cap { -cap } else { fallen };
    } else if v > 0 && !(hold_jump && player.can_hold_jump) {
        player.velocity.y = v + pull(rules.gravity.y, rules.jump.low_multiplier, dt);
    }
}

/// Remembers this frame's input: a jump press starts the jump buffer, and
/// letting go of jump ends the held jump.
pub fn remember_input(player: &mut Player, jump: bool, hold_jump: bool, rules: &Rules)
    ensures
        final(player).jump_buffer == if jump { Some(rules.jump_buffer_time) } else { old(player).jump_buffer },
        final(player).can_hold_jump == (old(player).can_hold_jump && hold_jump),
        final(player).state == old(player).state,
        final(player).velocity == old(player).velocity,
        final(player).id == old(player).id,
{
    if jump {
        player.jump_buffer = Some(rules.jump_buffer_time);
    }
    if player.can_hold_jump && !hold_jump {
        player.can_hold_jump = false;
    }
}

/// Turns the player to face the way it moves.
pub fn update_facing(player: &mut Player)
    ensures
        final(player).facing_left == if old(player).facing_left && old(player).velocity.x > 0
            || !old(player).facing_left && old(player).velocity.x < 0 {
            !old(player).facing_left
        } else {
            old(player).facing_left
        },
        final(player).velocity == old(player).velocity,
        final(player).state == old(player).state,
        final(player).id == old(player).id,
{
    if player.facing_left && player.velocity.x > 0 || !player.facing_left && player.velocity.x < 0 {
        player.facing_left = !player.facing_left;
    }
}

/// The jump a player may make now: off the ground, off a wall, or a late jump
/// within the coyote time while flying or drilling in the air.
pub open spec fn available_jump(p: Player) -> Option<Coyote> {
    match p.state {
        PlayerState::Grounded(_) => Some(Coyote::Ground),
        PlayerState::WallSliding { wall_normal, .. } => Some(Coyote::Wall { wall_normal }),
        PlayerState::Airborn | PlayerState::AirDrill { .. } => match p.coyote_time {
            Some((c, _)) => Some(c),
            None => None,
        },
        _ => None,
    }
}

/// The velocity of a wall jump off a wall with normal `n`: `wall_jump` (the jump
/// off a wall to the left of the player, already turned by the wall angle and
/// scaled by the jump strength) mirrored for a wall on the right, never slower
/// upwards than `v`.
pub open spec fn wall_jump_velocity(n: Vec2, wall_jump: Vec2, strength: int, v: Vec2) -> Vec2 {
    let j = if n.x > 0 {
        wall_jump
    } else if n.x < 0 {
        Vec2 { x: (-wall_jump.x) as i64, y: wall_jump.y }
    } else {
        Vec2 { x: (n.x * strength) as i64, y: (n.y * strength) as i64 }
    };
    Vec2 { x: j.x, y: if j.y >= v.y { j.y } else { v.y } }
}

/// The velocity of a jump out of the ground while drilling along the unit vector
/// `d` (in `COORD_ONE`ths): along `d`, at the current speed along `d` plus `inc`,
/// and at least `min`.
pub open spec fn drill_jump_velocity(v: Vec2, d: Vec2, inc: int, min: int) -> Vec2 {
    let one = crate::geom::COORD_ONE as int;
    let current = (v.x * d.x + v.y * d.y) / one;
    let speed = if current + inc >= min { current + inc } else { min };
    Vec2 { x: (d.x * speed / one) as i64, y: (d.y * speed / one) as i64 }
}

/// Whether the jump arithmetic stays in range.
pub open spec fn jump_ok(p: Player, rules: Rules, wall_jump: Vec2) -> bool {
    let big = 0x100_0000_0000int;
    &&& -big <= p.velocity.x <= big
    &&& -big <= p.velocity.y <= big
    &&& -big <= wall_jump.x <= big
    &&& -big <= wall_jump.y <= big
    &&& -big <= rules.jump.wall_strength <= big
    &&& -big <= rules.drill.jump_speed_inc <= big
    &&& -big <= rules.drill.jump_speed_min <= big
    &&& match available_jump(p) {
        Some(Coyote::Wall { wall_normal }) => -1 <= wall_normal.x <= 1 && -1 <= wall_normal.y <= 1,
        Some(Coyote::DrillJump { direction }) => {
            let one = crate::geom::COORD_ONE as int;
            -one <= direction.x <= one && -one <= direction.y <= one
        },
        _ => true,
    }
}

fn unit_times(u: i64, c: i64) -> (r: i64)
    requires
        -1 <= u <= 1,
        -0x100_0000_0000 <= c <= 0x100_0000_0000,
    ensures
        r == u * c,
{
    let r = if u > 0 { c } else if u < 0 { -c } else { 0 };
    assert(r == u * c) by (nonlinear_arith)
        requires
            -1 <= u <= 1,
            r == (if u > 0 { c as int } else if u < 0 { -c } else { 0 }),
    ;
    r
}

/// Jumps if a jump was asked for recently (the jump buffer) and one is available:
/// the coyote time and the buffer are used up and the jump may be held. Off the
/// ground the player rises at the jump strength; off a wall it leaps away (see
/// `wall_jump_velocity`) and cannot steer for a while; out of the ground while
/// drilling it speeds up along its direction. Returns the jump made.
pub fn jump(player: &mut Player, rules: &Rules, wall_jump: Vec2) -> (made: Option<Coyote>)
    requires
        jump_ok(*old(player), *rules, wall_jump),
    ensures
        old(player).jump_buffer is None ==> made is None && *final(player) == *old(player),
        old(player).jump_buffer is Some ==> made == available_jump(*old(player)),
        made is None ==> *final(player) == *old(player),
        made is Some ==> {
            &&& final(player).coyote_time is None
            &&& final(player).jump_buffer is None
            &&& final(player).can_hold_jump
            &&& match made.unwrap() {
                Coyote::Ground => {
                    &&& final(player).velocity == (Vec2 { x: old(player).velocity.x, y: rules.jump.normal_strength })
                    &&& final(player).state == PlayerState::Airborn
                    &&& final(player).control_timeout == old(player).control_timeout
                },
                Coyote::Wall { wall_normal } => {
                    &&& final(player).velocity == wall_jump_velocity(wall_normal, wall_jump, rules.jump.wall_strength as int, old(player).velocity)
                    &&& final(player).velocity.y >= old(player).velocity.y
                    &&& wall_normal.x != 0 ==> {
                        &&& final(player).velocity.y >= wall_jump.y
                        &&& final(player).velocity.y == old(player).velocity.y || final(player).velocity.y == wall_jump.y
                    }
                    &&& final(player).control_timeout == Some(rules.jump.wall_timeout)
                    &&& final(player).state == PlayerState::Airborn
                },
                Coyote::DrillJump { direction } => {
                    &&& final(player).velocity == drill_jump_velocity(
                        old(player).velocity, direction, rules.drill.jump_speed_inc as int, rules.drill.jump_speed_min as int)
                    &&& final(player).state == old(player).state
                    &&& final(player).control_timeout == old(player).control_timeout
                },
                Coyote::DrillDirection { .. } => {
                    &&& final(player).velocity == old(player).velocity
                    &&& final(player).state == old(player).state
                    &&& final(player).control_timeout == old(player).control_timeout
                },
            }
        },
        final(player).id == old(player).id,
        final(player).facing_left == old(player).facing_left,
        final(player).can_drill_dash == old(player).can_drill_dash,
        final(player).touching_wall == old(player).touching_wall,
        final(player).drill_release == old(player).drill_release,
{
    if player.jump_buffer.is_none() {
        return None;
    }
    let jump = match &player.state {
        PlayerState::Grounded(_) => Some(Coyote::Ground),
        PlayerState::WallSliding { wall_normal, .. } => Some(Coyote::Wall { wall_normal: *wall_normal }),
        PlayerState::Airborn | PlayerState::AirDrill { .. } => match player.coyote_time {
            Some((c, _)) => Some(c),
            None => None,
        },
        _ => None,
    };
    let jump = match jump {
        Some(j) => j,
        None => {
            return None;
        },
    };
    player.coyote_time = None;
    player.jump_buffer = None;
    player.can_hold_jump = true;
    match jump {
        Coyote::Ground => {
            player.velocity.y = rules.jump.normal_strength;
            player.state = PlayerState::Airborn;
        },
        Coyote::Wall { wall_normal } => {
            let j = if wall_normal.x > 0 {
                wall_jump
            } else if wall_normal.x < 0 {
                Vec2 { x: -wall_jump.x, y: wall_jump.y }
            } else {
                Vec2 {
                    x: unit_times(wall_normal.x, rules.jump.wall_strength),
                    y: unit_times(wall_normal.y, rules.jump.wall_strength),
                }
            };
            let y = if j.y >= player.velocity.y { j.y } else { player.velocity.y };
            player.velocity = Vec2 { x: j.x, y };
            player.control_timeout = Some(rules.jump.wall_timeout);
            player.state = PlayerState::Airborn;
        },
        Coyote::DrillJump { direction } => {
            let v = player.velocity;
            let one = crate::geom::COORD_ONE;
            assert(-0x100_0000_0000 * 16000 <= v.x * direction.x <= 0x100_0000_0000 * 16000) by (nonlinear_arith)
                requires
                    -0x100_0000_0000 <= v.x <= 0x100_0000_0000,
                    -16000 <= direction.x <= 16000,
            ;
            assert(-0x100_0000_0000 * 16000 <= v.y * direction.y <= 0x100_0000_0000 * 16000) by (nonlinear_arith)
                requires
                    -0x100_0000_0000 <= v.y <= 0x100_0000_0000,
                    -16000 <= direction.y <= 16000,
            ;
            let current = crate::geom::floor_div(v.x * direction.x + v.y * direction.y, one);
            assert(-0x200_0000_0000 <= current <= 0x200_0000_0000) by (nonlinear_arith)
                requires
                    -0x200_0000_0000 * 16000 <= v.x * direction.x + v.y * direction.y <= 0x200_0000_0000 * 16000,
                    current == (v.x * direction.x + v.y * direction.y) / 16000,
            ;
            let boosted = current + rules.drill.jump_speed_inc;
            let speed = if boosted >= rules.drill.jump_speed_min { boosted } else { rules.drill.jump_speed_min };
            assert(-0x300_0000_0000 * 16000 <= direction.x * speed <= 0x300_0000_0000 * 16000) by (nonlinear_arith)
                requires
                    -0x300_0000_0000 <= speed <= 0x300_0000_0000,
                    -16000 <= direction.x <= 16000,
            ;
            assert(-0x300_0000_0000 * 16000 <= direction.y * speed <= 0x300_0000_0000 * 16000) by (nonlinear_arith)
                requires
                    -0x300_0000_0000 <= speed <= 0x300_0000_0000,
                    -16000 <= direction.y <= 16000,
            ;
            player.velocity = Vec2 {
                x: crate::geom::floor_div(direction.x * speed, one),
                y: crate::geom::floor_div(direction.y * speed, one),
            };
        },
        Coyote::DrillDirection { .. } => {},
    }
    Some(jump)
}

/// What a drill did to the ground this frame.
#[derive(Clone, Copy, Debug, PartialEq, Eq, Structural)]
pub enum DrillEvent {
    /// Nothing changed.
    Nothing,
    /// The drill left the ground.
    Exited,
    /// The drill is still in the ground.
    Digging,
    /// The drill entered the ground.
    Entered,
}

/// What the drill makes of the player `p` after the ground check, and what it did (see `update_drill_state`).
pub open spec fn after_drill(p: Player, q: Player, e: DrillEvent, can_drill: bool, hold_drill: bool, rules: Rules, dir: Vec2, speed: i64) -> bool {
    &&& match p.state {
        PlayerState::Drilling => if !can_drill {
            &&& e == DrillEvent::Exited
            &&& q.can_drill_dash
            &&& q.state == if hold_drill { PlayerState::AirDrill { dash: None } } else { PlayerState::Airborn }
            &&& q.drill_release == if hold_drill { Some(rules.drill.release_time) } else { p.drill_release }
            &&& q.coyote_time == Some((Coyote::DrillJump { direction: dir }, rules.coyote_time))
            &&& q.velocity == p.velocity
        } else {
            &&& e == DrillEvent::Digging
            &&& q == p
        },
        PlayerState::AirDrill { .. } => if can_drill {
            let s = if speed >= rules.drill.speed_min { speed } else { rules.drill.speed_min };
            &&& e == DrillEvent::Entered
            &&& q.state == PlayerState::Drilling
            &&& q.coyote_time == Some((Coyote::DrillDirection { initial: dir }, rules.coyote_time))
            &&& q.velocity == (Vec2 {
                x: (dir.x * s / (crate::geom::COORD_ONE as int)) as i64,
                y: (dir.y * s / (crate::geom::COORD_ONE as int)) as i64,
            })
            &&& q.can_drill_dash == p.can_drill_dash
            &&& q.drill_release == p.drill_release
        } else {
            &&& e == DrillEvent::Nothing
            &&& q == p
        },
        _ => e == DrillEvent::Nothing && q == p,
    }
    &&& q.id == p.id
}

/// The drill state after the ground check. A drill that leaves the ground may
/// dash again and, if the drill is still held, stays a drill for a grace time;
/// a late jump then speeds it along `dir`. A drill in the air that reaches
/// drillable ground starts drilling along `dir`, at `speed` but no slower than the
/// drilling minimum. `dir` is the direction of the velocity as a vector of length
/// `COORD_ONE` (or zero) and `speed` its length, both as the caller computed them.
pub fn update_drill_state(player: &mut Player, can_drill: bool, hold_drill: bool, rules: &Rules, dir: Vec2, speed: i64)
    -> (e: DrillEvent)
    requires
        -16000 <= dir.x <= 16000,
        -16000 <= dir.y <= 16000,
        0 <= speed <= 0x100_0000_0000,
        0 <= rules.drill.speed_min <= 0x100_0000_0000,
    ensures
        after_drill(*old(player), *final(player), e, can_drill, hold_drill, *rules, dir, speed),
{
    if player.state.is_drilling() {
        if can_drill {
            return DrillEvent::Digging;
        }
        player.can_drill_dash = true;
        if hold_drill {
            player.drill_release = Some(rules.drill.release_time);
            player.state = PlayerState::AirDrill { dash: None };
        } else {
            player.state = PlayerState::Airborn;
        }
        player.coyote_time = Some((Coyote::DrillJump { direction: dir }, rules.coyote_time));
        DrillEvent::Exited
    } else if player.state.is_air_drilling() && can_drill {
        let s = if speed >= rules.drill.speed_min { speed } else { rules.drill.speed_min };
        assert(-16000 * 0x100_0000_0000 <= dir.x * s <= 16000 * 0x100_0000_0000) by (nonlinear_arith)
            requires
                -16000 <= dir.x <= 16000,
                0 <= s <= 0x100_0000_0000,
        ;
        assert(-16000 * 0x100_0000_0000 <= dir.y * s <= 16000 * 0x100_0000_0000) by (nonlinear_arith)
            requires
                -16000 <= dir.y <= 16000,
                0 <= s <= 0x100_0000_0000,
        ;
        player.coyote_time = Some((Coyote::DrillDirection { initial: dir }, rules.coyote_time));
        player.velocity = Vec2 {
            x: crate::geom::floor_div(dir.x * s, crate::geom::COORD_ONE),
            y: crate::geom::floor_div(dir.y * s, crate::geom::COORD_ONE),
        };
        player.state = PlayerState::Drilling;
        DrillEvent::Entered
    } else {
        DrillEvent::Nothing
    }
}

/// Updates the player's state from its sensors, as a frame does after moving:
/// the wall sensor, then the ground sensor (returning whether the player just
/// landed), then the drill, which keeps drilling while the player's box overlaps
/// drillable ground (see `update_drill_state`; `dir` and `speed` are the
/// direction and length of the velocity, as the caller computed them).
pub fn update_state(
    player: &mut Player,
    actor: &Actor,
    room: &Room,
    blocks: &Vec<Block>,
    rules: &Rules,
    hold_drill: bool,
    dir: Vec2,
    speed: i64,
) -> (r: (bool, DrillEvent))
    requires
        sensors_in_world(*actor),
        room_ok(*room, blocks@, *rules),
        in_world(actor.collider@),
        rules_cover(room.layers.main.tiles, *rules),
        -16000 <= dir.x <= 16000,
        -16000 <= dir.y <= 16000,
        0 <= speed <= 0x100_0000_0000,
        0 <= rules.drill.speed_min <= 0x100_0000_0000,
    ensures
        exists|p1: Player, p2: Player|
            #![trigger after_wall(*old(player), p1, *actor, *room, blocks@, *rules), after_ground(p1, p2, r.0, *actor, *room, blocks@, *rules)]
        {
            &&& after_wall(*old(player), p1, *actor, *room, blocks@, *rules)
            &&& after_ground(p1, p2, r.0, *actor, *room, blocks@, *rules)
            &&& after_drill(p2, *final(player), r.1, spec_check_tiles(actor.collider, *room, *rules), hold_drill, *rules, dir, speed)
        },
{
    check_wall(player, actor, room, blocks, rules);
    let ghost p1 = *player;
    let landed = check_ground(player, actor, room, blocks, rules);
    let ghost p2 = *player;
    let can_drill = check_tiles(&actor.collider, room, rules);
    let e = update_drill_state(player, can_drill, hold_drill, rules, dir, speed);
    assert(after_wall(*old(player), p1, *actor, *room, blocks@, *rules));
    let r = (landed, e);
    assert(after_ground(p1, p2, r.0, *actor, *room, blocks@, *rules));
    assert(after_drill(p2, *player, r.1, spec_check_tiles(actor.collider, *room, *rules), hold_drill, *rules, dir, speed));
    r
}

/// What a standing or sliding player may kick up: dust under its feet when it
/// walks faster than a tenth of a unit per second, or off the wall when it slides
/// down faster than that.
#[derive(Clone, Copy, Debug, PartialEq, Eq, Structural)]
pub enum Dust {
    Still,
    Walk,
    Slide,
}

/// A tenth of a world unit per second.
pub const DUST_SPEED: i64 = 1600;

/// Standing or sliding lets the player dash again. Returns where dust may rise;
/// whether it does is left to chance.
pub fn restore_drill_dash(player: &mut Player) -> (d: Dust)
    ensures
        final(player).can_drill_dash == (old(player).can_drill_dash || old(player).state is Grounded
            || old(player).state is WallSliding),
        d == match old(player).state {
            PlayerState::Grounded(_) => if old(player).velocity.x > DUST_SPEED || old(player).velocity.x < -DUST_SPEED {
                Dust::Walk
            } else {
                Dust::Still
            },
            PlayerState::WallSliding { .. } => if old(player).velocity.y < -DUST_SPEED { Dust::Slide } else { Dust::Still },
            _ => Dust::Still,
        },
        final(player).state == old(player).state,
        final(player).velocity == old(player).velocity,
        final(player).id == old(player).id,
{
    match &player.state {
        PlayerState::Grounded(_) => {
            player.can_drill_dash = true;
            if player.velocity.x > DUST_SPEED || player.velocity.x < -DUST_SPEED { Dust::Walk } else { Dust::Still }
        },
        PlayerState::WallSliding { .. } => {
            player.can_drill_dash = true;
            if player.velocity.y < -DUST_SPEED { Dust::Slide } else { Dust::Still }
        },
        _ => Dust::Still,
    }
}

/// One component of a dash: the target, unless the player already moves faster
/// the same way.
pub open spec fn dash_component(target: int, current: int) -> int {
    if target != 0 && crate::movement::signum(target) == crate::movement::signum(current)
        && crate::movement::abs(current) > crate::movement::abs(target) {
        current
    } else {
        target
    }
}

/// Whether the player, standing or sliding on drillable ground (or touching a
/// drillable wall), pushes into it: the move direction points into it.
pub open spec fn pushes_into_ground(p: Player, rules: Rules, move_dir: Vec2) -> bool {
    let from_state = match p.state {
        PlayerState::Grounded(tile) => rules.spec_tile(tile@).unwrap().drillable && -move_dir.y > 0,
        PlayerState::WallSliding { tile, wall_normal } => rules.spec_tile(tile@).unwrap().drillable
            && -(move_dir.x * wall_normal.x + move_dir.y * wall_normal.y) > 0,
        _ => false,
    };
    let from_wall = match p.touching_wall {
        Some((tile, normal)) => rules.spec_tile(tile@).unwrap().drillable && -(move_dir.x * normal.x + move_dir.y * normal.y) > 0,
        None => false,
    };
    from_state || from_wall
}

/// Whether `drill_dash` can work: the tiles it asks about are known, and its
/// arithmetic stays in range.
pub open spec fn drill_dash_ok(p: Player, rules: Rules, move_dir: Vec2, move_unit: Vec2) -> bool {
    &&& -1 <= move_dir.x <= 1
    &&& -1 <= move_dir.y <= 1
    &&& -16000 <= move_unit.x <= 16000
    &&& -16000 <= move_unit.y <= 16000
    &&& 0 <= rules.drill.dash_speed_min <= 0x100_0000_0000
    &&& 0 <= rules.drill.speed_min <= 0x100_0000_0000
    &&& p.velocity.x > i64::MIN
    &&& p.velocity.y > i64::MIN
    &&& match p.state {
        PlayerState::Grounded(tile) => rules.knows(tile@),
        PlayerState::WallSliding { tile, wall_normal } => rules.knows(tile@) && -1 <= wall_normal.x <= 1 && -1 <= wall_normal.y <= 1,
        _ => true,
    }
    &&& match p.touching_wall {
        Some((tile, normal)) => rules.knows(tile@) && -1 <= normal.x <= 1 && -1 <= normal.y <= 1,
        None => true,
    }
}

fn unit_dot(a: Vec2, b: Vec2) -> (r: i64)
    requires
        -1 <= a.x <= 1,
        -1 <= a.y <= 1,
        -1 <= b.x <= 1,
        -1 <= b.y <= 1,
    ensures
        r == a.x * b.x + a.y * b.y,
        -2 <= r <= 2,
{
    let x = unit_times(a.x, b.x);
    let y = unit_times(a.y, b.y);
    assert(-1 <= x <= 1 && -1 <= y <= 1) by (nonlinear_arith)
        requires
            x == a.x * b.x,
            y == a.y * b.y,
            -1 <= a.x <= 1,
            -1 <= a.y <= 1,
            -1 <= b.x <= 1,
            -1 <= b.y <= 1,
    ;
    x + y
}

/// Turns the player into a drill when it asks to (and the room allows it), unless
/// it is one already; a drill in the ground cannot dash until it leaves it. A
/// player that may dash and steers dashes along `move_unit` (the move direction as
/// a vector of length `COORD_ONE`) at the dash speed, keeping any faster speed it
/// has the same way, and cannot dash again until it lands. Otherwise, pushing into
/// drillable ground it stands or slides on starts drilling at the drilling speed.
/// Returns whether it dashed.
pub fn drill_dash(
    player: &mut Player,
    drill_allowed: bool,
    drill: bool,
    move_dir: Vec2,
    move_unit: Vec2,
    rules: &Rules,
) -> (dashed: bool)
    requires
        drill_dash_ok(*old(player), *rules, move_dir, move_unit),
    ensures
        ({
            let p = *old(player);
            let one = crate::geom::COORD_ONE as int;
            if p.state is Drilling {
                &&& !dashed
                &&& final(player).state == p.state
                &&& !final(player).can_drill_dash
                &&& final(player).velocity == p.velocity
            } else if !drill_allowed || !drill || p.state is AirDrill {
                &&& !dashed
                &&& *final(player) == p
            } else if rules.drill.can_dash && p.can_drill_dash && move_dir != (Vec2 { x: 0, y: 0 }) {
                let speed = rules.drill.dash_speed_min as int;
                &&& dashed
                &&& final(player).velocity == (Vec2 {
                    x: dash_component(move_unit.x * speed / one, p.velocity.x as int) as i64,
                    y: dash_component(move_unit.y * speed / one, p.velocity.y as int) as i64,
                })
                &&& !final(player).can_drill_dash
                &&& final(player).state == (PlayerState::AirDrill { dash: Some(rules.drill.dash_time) })
            } else {
                let speed = rules.drill.speed_min as int;
                &&& !dashed
                &&& final(player).velocity == if pushes_into_ground(p, *rules, move_dir) {
                    Vec2 { x: (move_unit.x * speed / one) as i64, y: (move_unit.y * speed / one) as i64 }
                } else {
                    p.velocity
                }
                &&& final(player).can_drill_dash == p.can_drill_dash
                &&& final(player).state == (PlayerState::AirDrill { dash: None })
            }
        }),
        final(player).id == old(player).id,
        final(player).touching_wall == old(player).touching_wall,
        final(player).coyote_time == old(player).coyote_time,
{
    if player.state.is_drilling() {
        player.can_drill_dash = false;
        return false;
    }
    if !drill_allowed || !drill || player.state.is_air_drilling() {
        return false;
    }
    let one = crate::geom::COORD_ONE;
    let moving = !(move_dir.x == 0 && move_dir.y == 0);
    if rules.drill.can_dash && player.can_drill_dash && moving {
        let speed = rules.drill.dash_speed_min;
        assert(-16000 * 0x100_0000_0000 <= move_unit.x * speed <= 16000 * 0x100_0000_0000) by (nonlinear_arith)
            requires
                -16000 <= move_unit.x <= 16000,
                0 <= speed <= 0x100_0000_0000,
        ;
        assert(-16000 * 0x100_0000_0000 <= move_unit.y * speed <= 16000 * 0x100_0000_0000) by (nonlinear_arith)
            requires
                -16000 <= move_unit.y <= 16000,
                0 <= speed <= 0x100_0000_0000,
        ;
        let tx = crate::geom::floor_div(move_unit.x * speed, one);
        let ty = crate::geom::floor_div(move_unit.y * speed, one);
        let cur = player.velocity;
        let x = if tx != 0 && (tx > 0) == (cur.x > 0) && (tx < 0) == (cur.x < 0)
            && (if cur.x < 0 { -cur.x } else { cur.x }) > (if tx < 0 { -tx } else { tx }) {
            cur.x
        } else {
            tx
        };
        let y = if ty != 0 && (ty > 0) == (cur.y > 0) && (ty < 0) == (cur.y < 0)
            && (if cur.y < 0 { -cur.y } else { cur.y }) > (if ty < 0 { -ty } else { ty }) {
            cur.y
        } else {
            ty
        };
        player.velocity = Vec2 { x, y };
        player.can_drill_dash = false;
        player.state = PlayerState::AirDrill { dash: Some(rules.drill.dash_time) };
        return true;
    }
    let from_state = match &player.state {
        PlayerState::Grounded(tile) => rules.tile(tile).drillable && -move_dir.y > 0,
        PlayerState::WallSliding { tile, wall_normal } => rules.tile(tile).drillable && -unit_dot(move_dir, *wall_normal) > 0,
        _ => false,
    };
    let from_wall = match &player.touching_wall {
        Some((tile, normal)) => rules.tile(tile).drillable && -unit_dot(move_dir, *normal) > 0,
        None => false,
    };
    if from_state || from_wall {
        let speed = rules.drill.speed_min;
        assert(-16000 * 0x100_0000_0000 <= move_unit.x * speed <= 16000 * 0x100_0000_0000) by (nonlinear_arith)
            requires
                -16000 <= move_unit.x <= 16000,
                0 <= speed <= 0x100_0000_0000,
        ;
        assert(-16000 * 0x100_0000_0000 <= move_unit.y * speed <= 16000 * 0x100_0000_0000) by (nonlinear_arith)
            requires
                -16000 <= move_unit.y <= 16000,
                0 <= speed <= 0x100_0000_0000,
        ;
        player.velocity = Vec2 {
            x: crate::geom::floor_div(move_unit.x * speed, one),
            y: crate::geom::floor_div(move_unit.y * speed, one),
        };
    }
    player.state = PlayerState::AirDrill { dash: None };
    false
}

/// Half the side of the player's box, which is 0.9 units square.
pub const PLAYER_HALF_SIZE: i64 = 7200;

/// The player of a new world, with a fresh identifier: the given player and its
/// actor carried over from another room, or a new player at rest whose box
/// stands on the spawn point.
pub fn spawn_player(id_gen: &mut crate::id::IdGen, spawn_point: Vec2, carried: Option<(Player, Actor)>) -> (r: (Player, Actor))
    requires
        old(id_gen)@ < u64::MAX,
        -crate::movement::WORLD_LIMIT <= spawn_point.x <= crate::movement::WORLD_LIMIT,
        -crate::movement::WORLD_LIMIT <= spawn_point.y <= crate::movement::WORLD_LIMIT,
    ensures
        final(id_gen)@ == old(id_gen)@ + 1,
        r.0.id == Id(old(id_gen)@),
        r.1.id == Id(old(id_gen)@),
        match carried {
            Some((p, a)) => r.0 == (Player { id: r.0.id, ..p }) && r.1 == (Actor { id: r.1.id, ..a }),
            None => {
                &&& r.0.velocity == (Vec2 { x: 0, y: 0 })
                &&& r.0.state == PlayerState::Airborn
                &&& r.0.coyote_time is None
                &&& r.0.jump_buffer is None
                &&& r.1.collider@ == (Aabb2 {
                    min: Vec2 { x: (spawn_point.x - PLAYER_HALF_SIZE) as i64, y: spawn_point.y },
                    max: Vec2 { x: (spawn_point.x + PLAYER_HALF_SIZE) as i64, y: (spawn_point.y + 2 * PLAYER_HALF_SIZE) as i64 },
                })
                &&& r.1.riding is None
                &&& r.1.move_remainder == (Vec2 { x: 0, y: 0 })
            },
        },
{
    let id = id_gen.gen();
    match carried {
        Some((mut player, mut actor)) => {
            player.id = id;
            actor.id = id;
            (player, actor)
        },
        None => {
            let mut collider = Collider::new(
                Aabb2::point(Vec2 { x: 0, y: 0 }).extend_symmetric(Vec2 { x: PLAYER_HALF_SIZE, y: PLAYER_HALF_SIZE }),
            );
            proof {
                crate::collider::lemma_feet_is_bottom(-PLAYER_HALF_SIZE as int, PLAYER_HALF_SIZE as int);
            }
            collider.teleport(spawn_point);
            (Player::new(id), Actor::new(id, collider))
        },
    }
}

/// The box in which the camera's center may stand: the room's box with each side
/// moved inwards by `half_view`, how far the view reaches from its center each way
/// (the screen's proportions and the camera's field of view, which the caller
/// knows). Where the room is smaller than the view, the corners swap places.
pub fn camera_bounds(room: &Room, half_view: Vec2) -> (b: Aabb2)
    requires
        room.bounds_fit(),
        room.spec_bounds().min.add_fits(half_view),
        room.spec_bounds().max.sub_fits(half_view),
    ensures
        ({
            let r = room.spec_bounds();
            b == Aabb2::spec_from_corners(
                Vec2 { x: (r.min.x + half_view.x) as i64, y: (r.min.y + half_view.y) as i64 },
                Vec2 { x: (r.max.x - half_view.x) as i64, y: (r.max.y - half_view.y) as i64 },
            )
        }),
{
    let room_bounds = room.bounds();
    Aabb2::from_corners(room_bounds.bottom_left().add(half_view), room_bounds.top_right().sub(half_view))
}

/// `v` held between `lo` and `hi`.
pub open spec fn clamp_to(v: int, lo: int, hi: int) -> int {
    if v < lo { lo } else if v > hi { hi } else { v }
}

/// Where the camera looks: the center of the player's collider, held inside
/// `bounds` (see `camera_bounds`) on each axis.
pub fn camera_target(actor: &Actor, bounds: Aabb2) -> (p: Vec2)
    requires
        actor.collider@.center_fits(),
        bounds.min.x <= bounds.max.x,
        bounds.min.y <= bounds.max.y,
    ensures
        ({
            let c = actor.collider@.spec_center();
            &&& p.x == clamp_to(c.x as int, bounds.min.x as int, bounds.max.x as int)
            &&& p.y == clamp_to(c.y as int, bounds.min.y as int, bounds.max.y as int)
        }),
{
    let target = actor.collider.pos();
    let x: Coord = if target.x < bounds.min.x {
        bounds.min.x
    } else if target.x > bounds.max.x {
        bounds.max.x
    } else {
        target.x
    };
    let y: Coord = if target.y < bounds.min.y {
        bounds.min.y
    } else if target.y > bounds.max.y {
        bounds.max.y
    } else {
        target.y
    };
    Vec2 { x, y }
}

/// Where the player stands on entering the room that `transition` leads to: its
/// feet, moved by the transition's offset in whole units.
pub fn transition_entry(actor: &Actor, transition: &RoomTransition) -> (p: Vec2)
    requires
        actor.collider.well_sized(),
        fits(actor.collider.spec_feet().x + transition.offset.x * COORD_ONE),
        fits(actor.collider.spec_feet().y + transition.offset.y * COORD_ONE),
    ensures
        p.x == actor.collider.spec_feet().x + transition.offset.x * COORD_ONE,
        p.y == actor.collider.spec_feet().y + transition.offset.y * COORD_ONE,
{
    let feet = actor.collider.feet();
    let dx: i128 = transition.offset.x as i128 * COORD_ONE as i128;
    let dy: i128 = transition.offset.y as i128 * COORD_ONE as i128;
    Vec2 { x: (feet.x as i128 + dx) as i64, y: (feet.y as i128 + dy) as i64 }
}

} // verus!
