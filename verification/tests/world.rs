use drill_above::assets::{Assets, Sprites, TileSprites};
use drill_above::collider::Collider;
use drill_above::geom::{Aabb2, IVec2, UVec2, Vec2};
use drill_above::id::Id;
use drill_above::logic::{
    bounce, camera_bounds, transition_entry, camera_target, check_collision, update_state, DrillEvent, check_ground, check_tiles, check_wall, kill_player, level_bounds, player_coins,
    player_hazards,
};
use drill_above::movement::{calc_move, move_actor, Actor, ColliderId, MoveCollision};
use drill_above::placeable::{Coin, Hazard, Sprite};
use drill_above::player::{Coyote, Player, PlayerState};
use drill_above::room::{ActiveLayer, Room, RoomTransition};
use drill_above::rules::{DrillRules, JumpRules, Rules, TileRules};
use drill_above::tileset::{get_tile_uv, ConnectionFilter, TileSet, TileSetConfig};

fn any_set(n: usize) -> TileSet {
    let size = UVec2 { x: n, y: 1 };
    TileSet {
        config: TileSetConfig {
            size,
            tiles: (0..n).map(|i| ([ConnectionFilter::Any; 8], get_tile_uv(i, size))).collect(),
        },
    }
}

fn rules() -> Rules {
    Rules {
        gravity: Vec2 { x: 0, y: -40 * 16000 },
        move_speed: 6 * 16000,
        acceleration: 50 * 16000,
        deceleration: 30 * 16000,
        jump_buffer_time: 100_000,
        coyote_time: 100_000,
        edge_correction_max: 4000,
        free_fall_speed: 20 * 16000,
        wall_slide_speed: 4 * 16000,
        jump: JumpRules {
            normal_push: 0,
            normal_strength: 12 * 16000,
            wall_strength: 12 * 16000,
            wall_angle: 0,
            wall_timeout: 100_000,
            fall_multiplier: 2 * 16000,
            low_multiplier: 2 * 16000,
        },
        drill: DrillRules {
            can_dash: true,
            release_time: 100_000,
            speed_min: 10 * 16000,
            speed_inc: 16000,
            dash_time: 200_000,
            dash_speed_min: 12 * 16000,
            dash_speed_inc: 16000,
            jump_speed_min: 12 * 16000,
            jump_speed_inc: 16000,
        },
        tiles: vec![
            ("air".to_string(), TileRules::default()),
            ("stone".to_string(), TileRules::default()),
            ("dirt".to_string(), TileRules { drillable: true, ..TileRules::default() }),
        ],
    }
}

fn assets() -> Assets {
    Assets {
        sprites: Sprites {
            tiles: TileSprites {
                mask: any_set(1),
                tiles: vec![
                    ("air".to_string(), any_set(2)),
                    ("stone".to_string(), any_set(3)),
                    ("dirt".to_string(), any_set(3)),
                ],
            },
        },
        rules: rules(),
    }
}

const ONE: i64 = 16000;

fn aabb(x0: i64, y0: i64, x1: i64, y1: i64) -> Aabb2 {
    Aabb2 { min: Vec2 { x: x0, y: y0 }, max: Vec2 { x: x1, y: y1 } }
}

/// A 5x5 room whose bottom row is stone, with a stone wall cell at (4, 1).
fn room() -> Room {
    let assets = assets();
    let mut room = Room::new(UVec2 { x: 5, y: 5 });
    for x in 0..5 {
        room.place_tile(IVec2 { x, y: 0 }, "stone".to_string(), ActiveLayer::Main, &assets);
    }
    room.place_tile(IVec2 { x: 4, y: 1 }, "stone".to_string(), ActiveLayer::Main, &assets);
    room
}

/// The player's box, 0.9 units square, with its bottom-left corner at `(x, y)`.
fn player_box(x: i64, y: i64) -> Collider {
    Collider::new(aabb(x, y, x + 14400, y + 14400))
}

#[test]
fn calc_move_splits_into_pixels() {
    let mut rem = Vec2 { x: 300, y: -200 };
    let (sign, steps) = calc_move(&mut rem, Vec2 { x: 2900, y: -900 });
    assert_eq!(sign, Vec2 { x: 1, y: -1 });
    assert_eq!(steps, Vec2 { x: 3, y: 1 });
    assert_eq!(rem, Vec2 { x: 200, y: -100 });
    let mut zero = Vec2 { x: 0, y: 0 };
    let (sign, steps) = calc_move(&mut zero, Vec2 { x: 999, y: 0 });
    assert_eq!(sign, Vec2 { x: 1, y: 0 });
    assert_eq!(steps, Vec2 { x: 0, y: 0 });
    assert_eq!(zero, Vec2 { x: 999, y: 0 });
}

#[test]
fn falling_actor_lands_on_the_floor() {
    let room = room();
    let mut actor = Actor::new(Id(0), player_box(2 * ONE + 800, ONE + 2000));
    let blocks = vec![];
    let col = move_actor(
        &mut actor,
        Vec2 { x: 0, y: -5000 },
        Vec2 { x: 0, y: -ONE },
        &room.grid,
        &room.layers.main.tiles,
        &blocks,
        false,
        &rules(),
    );
    assert!(col.x.is_none());
    let (id, c) = col.y.expect("hit the floor");
    assert!(matches!(id, ColliderId::Tile(IVec2 { x: 2, y: 0 })));
    assert_eq!(c.normal, Vec2 { x: 0, y: 1 });
    assert_eq!(c.penetration, 1000);
    assert_eq!(actor.collider.raw().min.y, ONE);
    assert_eq!(actor.move_remainder, Vec2 { x: 0, y: 0 });
}

#[test]
fn free_move_goes_all_the_way() {
    let room = room();
    let mut actor = Actor::new(Id(0), player_box(ONE + 800, 2 * ONE));
    let blocks = vec![];
    let col = move_actor(
        &mut actor,
        Vec2 { x: 3500, y: 2000 },
        Vec2 { x: ONE, y: ONE },
        &room.grid,
        &room.layers.main.tiles,
        &blocks,
        false,
        &rules(),
    );
    assert!(col.x.is_none() && col.y.is_none());
    assert_eq!(actor.collider.raw().min, Vec2 { x: ONE + 800 + 3000, y: 2 * ONE + 2000 });
    assert_eq!(actor.move_remainder, Vec2 { x: 500, y: 0 });
}

#[test]
fn walking_into_a_wall_stops() {
    let room = room();
    // Just left of the wall cell at (4, 1), standing on the floor.
    let mut actor = Actor::new(Id(0), player_box(4 * ONE - 14400 - 500, ONE));
    let blocks = vec![];
    let col = move_actor(
        &mut actor,
        Vec2 { x: 2000, y: 0 },
        Vec2 { x: ONE, y: 0 },
        &room.grid,
        &room.layers.main.tiles,
        &blocks,
        false,
        &rules(),
    );
    let (_, c) = col.x.expect("hit the wall");
    assert_eq!(c.normal, Vec2 { x: -1, y: 0 });
    assert_eq!(actor.collider.raw().max.x, 4 * ONE);
}

#[test]
fn a_drill_passes_drillable_tiles() {
    let assets = assets();
    let mut room = room();
    room.place_tile(IVec2 { x: 2, y: 0 }, "dirt".to_string(), ActiveLayer::Main, &assets);
    let mut actor = Actor::new(Id(0), player_box(2 * ONE + 800, ONE + 500));
    let blocks = vec![];
    let col = move_actor(
        &mut actor,
        Vec2 { x: 0, y: -3000 },
        Vec2 { x: 0, y: -ONE },
        &room.grid,
        &room.layers.main.tiles,
        &blocks,
        true,
        &rules(),
    );
    assert!(col.y.is_none());
    assert_eq!(actor.collider.raw().min.y, ONE - 2500);
}

#[test]
fn check_collision_finds_the_floor() {
    let room = room();
    let hit = check_collision(&player_box(2 * ONE, ONE - 100), &room, &vec![], &rules());
    assert!(matches!(hit, Some((ColliderId::Tile(IVec2 { x: 2, y: 0 }), _))));
    assert!(check_collision(&player_box(2 * ONE, ONE), &room, &vec![], &rules()).is_none());
}

#[test]
fn standing_player_is_grounded() {
    let room = room();
    let rules = rules();
    let actor = Actor::new(Id(0), player_box(2 * ONE, ONE));
    let mut player = Player::new(Id(0));
    let landed = check_ground(&mut player, &actor, &room, &vec![], &rules);
    assert!(landed);
    assert!(matches!(&player.state, PlayerState::Grounded(t) if t == "stone"));
    assert_eq!(player.coyote_time, Some((Coyote::Ground, rules.coyote_time)));
    // Still standing: not a new landing.
    assert!(!check_ground(&mut player, &actor, &room, &vec![], &rules));
    assert!(player.state.is_grounded());
}

#[test]
fn rising_player_is_not_grounded() {
    let room = room();
    let actor = Actor::new(Id(0), player_box(2 * ONE, ONE));
    let mut player = Player::new(Id(0));
    player.velocity = Vec2 { x: 0, y: ONE };
    assert!(!check_ground(&mut player, &actor, &room, &vec![], &rules()));
    assert!(player.state.is_airborn());
}

#[test]
fn flying_into_a_wall_starts_a_slide() {
    let room = room();
    let rules = rules();
    // The wall sensor is 10% wider than the box: it reaches the wall at x = 4.
    let actor = Actor::new(Id(0), player_box(4 * ONE - 14400 - 100, ONE + 1000));
    let mut player = Player::new(Id(0));
    check_wall(&mut player, &actor, &room, &vec![], &rules);
    match &player.state {
        PlayerState::WallSliding { tile, wall_normal } => {
            assert_eq!(tile, "stone");
            assert_eq!(*wall_normal, Vec2 { x: -1, y: 0 });
        },
        s => panic!("unexpected state {s:?}"),
    }
    assert_eq!(player.touching_wall, Some(("stone".to_string(), Vec2 { x: -1, y: 0 })));
    assert_eq!(player.coyote_time, Some((Coyote::Wall { wall_normal: Vec2 { x: -1, y: 0 } }, rules.coyote_time)));
    // Away from the wall the slide ends.
    let away = Actor::new(Id(0), player_box(ONE, 2 * ONE));
    check_wall(&mut player, &away, &room, &vec![], &rules);
    assert!(player.state.is_airborn());
    assert!(player.touching_wall.is_none());
}

#[test]
fn drillable_ground_under_the_player() {
    let assets = assets();
    let mut room = room();
    assert!(!check_tiles(&player_box(2 * ONE, ONE - 100), &room, &rules()));
    room.place_tile(IVec2 { x: 2, y: 0 }, "dirt".to_string(), ActiveLayer::Main, &assets);
    assert!(check_tiles(&player_box(2 * ONE, ONE - 100), &room, &rules()));
    assert!(!check_tiles(&player_box(2 * ONE, ONE), &room, &rules()));
}

#[test]
fn bounce_off_the_floor() {
    let hit = Some((ColliderId::Tile(IVec2 { x: 0, y: 0 }), drill_above::collider::Collision {
        normal: Vec2 { x: 0, y: 1 },
        penetration: 10,
        offset: 0,
    }));
    let mut player = Player::new(Id(0));
    player.velocity = Vec2 { x: 3, y: -5 };
    bounce(&mut player, MoveCollision { x: None, y: hit });
    assert_eq!(player.velocity, Vec2 { x: 3, y: 0 });
    let mut drill = Player::new(Id(0));
    drill.state = PlayerState::Drilling;
    drill.velocity = Vec2 { x: 3, y: -5 };
    bounce(&mut drill, MoveCollision { x: None, y: hit });
    assert_eq!(drill.velocity, Vec2 { x: 3, y: 5 });
    let mut slider = Player::new(Id(0));
    slider.state = PlayerState::WallSliding { tile: "stone".to_string(), wall_normal: Vec2 { x: 1, y: 0 } };
    bounce(&mut slider, MoveCollision { x: None, y: None });
    assert!(slider.state.is_airborn());
}

#[test]
fn killing_counts_a_death() {
    let mut player = Player::new(Id(3));
    player.velocity = Vec2 { x: 5, y: 5 };
    let mut deaths = 2;
    kill_player(&mut player, &mut deaths);
    assert_eq!(deaths, 3);
    assert_eq!(player.velocity, Vec2 { x: 0, y: 0 });
    assert!(matches!(player.state, PlayerState::Respawning { time: 1_000_000 }));
}

#[test]
fn level_bounds_keep_the_player_inside() {
    let room = room();
    let mut deaths = 0;
    // Head above the top of the 5-unit room, feet beyond the right wall.
    let mut actor = Actor::new(Id(0), player_box(5 * ONE, 5 * ONE - 4400));
    let mut player = Player::new(Id(0));
    player.velocity = Vec2 { x: 7, y: 9 };
    let died = level_bounds(&mut player, &mut actor, &room, &mut deaths);
    assert!(!died);
    assert_eq!(actor.collider.raw().max.y, 5 * ONE);
    assert_eq!(actor.collider.feet().x, 5 * ONE);
    assert_eq!(player.velocity, Vec2 { x: 0, y: 0 });
    // Falling out of the bottom kills.
    let mut fallen = Actor::new(Id(0), player_box(2 * ONE, -20000));
    let died = level_bounds(&mut player, &mut fallen, &room, &mut deaths);
    assert!(died);
    assert_eq!(deaths, 1);
}

#[test]
fn drilling_player_bounces_off_the_ceiling() {
    let room = room();
    let mut deaths = 0;
    let mut actor = Actor::new(Id(0), player_box(2 * ONE, 5 * ONE - 14000));
    let mut player = Player::new(Id(0));
    player.state = PlayerState::Drilling;
    player.velocity = Vec2 { x: 0, y: 9 };
    level_bounds(&mut player, &mut actor, &room, &mut deaths);
    assert_eq!(player.velocity.y, -9);
}

#[test]
fn coins_are_collected_once() {
    let player = player_box(2 * ONE, ONE);
    let mut coins = vec![
        Coin { collider: Collider::new(aabb(2 * ONE, ONE, 3 * ONE, 2 * ONE)), collected: false },
        Coin { collider: Collider::new(aabb(4 * ONE, 3 * ONE, 5 * ONE, 4 * ONE)), collected: false },
        Coin { collider: Collider::new(aabb(2 * ONE, ONE, 3 * ONE, 2 * ONE)), collected: true },
    ];
    let mut count = 10;
    let at = player_coins(&player, &mut coins, &mut count);
    assert_eq!(count, 11);
    assert_eq!(at, Some(Vec2 { x: 2 * ONE + ONE / 2, y: ONE + ONE / 2 }));
    assert_eq!(coins.len(), 1);
    assert_eq!(coins[0].collider.raw().min, Vec2 { x: 4 * ONE, y: 3 * ONE });
    assert!(player_coins(&player, &mut coins, &mut count).is_none());
    assert_eq!(count, 11);
}

#[test]
fn hazards_kill_unless_moving_along() {
    let player_collider = player_box(2 * ONE, ONE);
    let spikes = Hazard {
        sprite: Sprite::new(aabb(2 * ONE, ONE, 3 * ONE, 2 * ONE)),
        direction: Some(Vec2 { x: 0, y: 1 }),
        collider: Collider::new(aabb(2 * ONE, ONE, 3 * ONE, ONE + 6400)),
        hazard_type: "spikes".to_string(),
    };
    let hazards = vec![spikes];
    let mut deaths = 0;
    let mut rising = Player::new(Id(0));
    rising.velocity = Vec2 { x: 0, y: 100 };
    assert!(!player_hazards(&mut rising, &player_collider, &hazards, &mut deaths));
    assert_eq!(deaths, 0);
    let mut falling = Player::new(Id(0));
    falling.velocity = Vec2 { x: 0, y: -100 };
    assert!(player_hazards(&mut falling, &player_collider, &hazards, &mut deaths));
    assert_eq!(deaths, 1);
    assert!(matches!(falling.state, PlayerState::Respawning { .. }));
}

#[test]
fn sensors_update_the_state_in_order() {
    let assets = assets();
    let mut room = room();
    let rules = rules();
    let actor = Actor::new(Id(0), player_box(2 * ONE, ONE));
    let mut player = Player::new(Id(0));
    let (landed, e) = update_state(&mut player, &actor, &room, &vec![], &rules, false, Vec2 { x: 0, y: 0 }, 0);
    assert!(landed);
    assert_eq!(e, DrillEvent::Nothing);
    assert!(matches!(&player.state, PlayerState::Grounded(t) if t == "stone"));
    // A drill in the air that overlaps dirt starts drilling along its direction.
    room.place_tile(IVec2 { x: 2, y: 0 }, "dirt".to_string(), ActiveLayer::Main, &assets);
    let deep = Actor::new(Id(0), player_box(2 * ONE, ONE - 100));
    let mut drill = Player::new(Id(0));
    drill.state = PlayerState::AirDrill { dash: None };
    drill.velocity = Vec2 { x: 0, y: -ONE };
    let (_, e) = update_state(&mut drill, &deep, &room, &vec![], &rules, true, Vec2 { x: 0, y: -ONE }, ONE);
    assert_eq!(e, DrillEvent::Entered);
    assert!(matches!(drill.state, PlayerState::Drilling));
    assert_eq!(drill.velocity, Vec2 { x: 0, y: -10 * ONE });
}

#[test]
fn camera_stays_inside_the_room() {
    let room = room();
    let b = camera_bounds(&room, Vec2 { x: ONE, y: 2 * ONE });
    assert_eq!(b, aabb(ONE, 2 * ONE, 4 * ONE, 3 * ONE));
    // A view wider than the room swaps the corners.
    let wide = camera_bounds(&room, Vec2 { x: 4 * ONE, y: 0 });
    assert_eq!(wide, aabb(ONE, 0, 4 * ONE, 5 * ONE));
    let actor = Actor::new(Id(0), player_box(0, 0));
    // The collider's center is (7200, 7200): held at the bounds' lower corner.
    assert_eq!(camera_target(&actor, b), Vec2 { x: ONE, y: 2 * ONE });
    let inside = Actor::new(Id(0), player_box(2 * ONE, 2 * ONE));
    assert_eq!(camera_target(&inside, b), Vec2 { x: 2 * ONE + 7200, y: 2 * ONE + 7200 });
    let high = Actor::new(Id(0), player_box(9 * ONE, 9 * ONE));
    assert_eq!(camera_target(&high, b), Vec2 { x: 4 * ONE, y: 3 * ONE });
}

#[test]
fn a_transition_moves_the_feet_by_its_offset() {
    let actor = Actor::new(Id(0), player_box(2 * ONE, ONE));
    let transition = RoomTransition {
        collider: player_box(0, 0),
        to_room: "next.json".to_string(),
        offset: IVec2 { x: -3, y: 2 },
    };
    // The feet are at the bottom middle of the box: (2 + 0.45, 1) units.
    assert_eq!(transition_entry(&actor, &transition), Vec2 { x: -ONE + 7200, y: 3 * ONE });
}
