use drill_above::collider::Collider;
use drill_above::geom::{Aabb2, Vec2};
use drill_above::id::{Id, IdGen};
use drill_above::logic::{
    drill_dash, drill_dash_cancel, jump, pause_state, remember_input, restore_drill_dash, spawn_player,
    update_drill_state, update_facing, variable_jump, DrillEvent, Dust, PauseOutcome,
};
use drill_above::movement::Actor;
use drill_above::player::{Coyote, HeldControls, Player, PlayerControl, PlayerState};
use drill_above::util::time_ms;
use drill_above::intro::IntroClock;
use drill_above::game::{GameAction, GameFlags, GameKey};
use drill_above::room::Room;
use drill_above::geom::UVec2;
use drill_above::rules::{DrillRules, JumpRules, Rules, TileRules};

const ONE: i64 = 16000;

fn rules() -> Rules {
    Rules {
        gravity: Vec2 { x: 0, y: -40 * ONE },
        move_speed: 6 * ONE,
        acceleration: 50 * ONE,
        deceleration: 30 * ONE,
        jump_buffer_time: 100_000,
        coyote_time: 100_000,
        edge_correction_max: 4000,
        free_fall_speed: 20 * ONE,
        wall_slide_speed: 4 * ONE,
        jump: JumpRules {
            normal_push: 0,
            normal_strength: 12 * ONE,
            wall_strength: 12 * ONE,
            wall_angle: 0,
            wall_timeout: 100_000,
            fall_multiplier: 2 * ONE,
            low_multiplier: 2 * ONE,
        },
        drill: DrillRules {
            can_dash: true,
            release_time: 100_000,
            speed_min: 10 * ONE,
            speed_inc: ONE,
            dash_time: 200_000,
            dash_speed_min: 12 * ONE,
            dash_speed_inc: ONE,
            jump_speed_min: 12 * ONE,
            jump_speed_inc: ONE,
        },
        tiles: vec![
            ("air".to_string(), TileRules::default()),
            ("stone".to_string(), TileRules::default()),
            ("dirt".to_string(), TileRules { drillable: true, ..TileRules::default() }),
        ],
    }
}

fn player() -> Player {
    Player::new(Id(7))
}

fn actor() -> Actor {
    Actor::new(Id(7), Collider::new(Aabb2 { min: Vec2 { x: 0, y: 0 }, max: Vec2 { x: 14400, y: 14400 } }))
}

#[test]
fn respawn_waits_then_returns_to_spawn() {
    let mut room = Room::new(UVec2 { x: 4, y: 4 });
    room.spawn_point = Vec2 { x: 2 * ONE, y: ONE };
    let mut p = player();
    p.state = PlayerState::Respawning { time: 300_000 };
    p.velocity = Vec2 { x: 5, y: -7 };
    let mut a = actor();
    let r = pause_state(&mut p, &mut a, &room, &rules(), 100_000);
    assert_eq!(r, PauseOutcome::Paused);
    assert!(matches!(p.state, PlayerState::Respawning { time: 200_000 }));
    assert_eq!(p.velocity, Vec2 { x: 5, y: -7 });
    let r = pause_state(&mut p, &mut a, &room, &rules(), 250_000);
    assert_eq!(r, PauseOutcome::Paused);
    assert!(matches!(p.state, PlayerState::Airborn));
    assert_eq!(p.velocity, Vec2 { x: 0, y: 0 });
    assert_eq!(a.collider.feet(), Vec2 { x: 2 * ONE, y: ONE });
}

#[test]
fn finish_sends_hearts_then_the_next_level() {
    let room = Room::new(UVec2 { x: 4, y: 4 });
    let mut p = player();
    p.state = PlayerState::Finished { time: 1_000_000, next_heart: 100_000 };
    let mut a = actor();
    let r = pause_state(&mut p, &mut a, &room, &rules(), 250_000);
    assert_eq!(r, PauseOutcome::Heart);
    assert!(matches!(p.state, PlayerState::Finished { time: 750_000, next_heart: 350_000 }));
    // Gravity of -40 units per second squared for a quarter second.
    assert_eq!(p.velocity, Vec2 { x: 0, y: -10 * ONE });
    let r = pause_state(&mut p, &mut a, &room, &rules(), 100_000);
    assert_eq!(r, PauseOutcome::Paused);
    let r = pause_state(&mut p, &mut a, &room, &rules(), 1_000_000);
    assert_eq!(r, PauseOutcome::NextLevel);
    let mut flying = player();
    assert_eq!(pause_state(&mut flying, &mut a, &room, &rules(), 1000), PauseOutcome::Running);
}

#[test]
fn letting_go_of_the_drill_slows_down() {
    let mut p = player();
    p.state = PlayerState::AirDrill { dash: None };
    p.velocity = Vec2 { x: 20 * ONE, y: 3 };
    assert!(!drill_dash_cancel(&mut p, true, 6 * ONE));
    assert!(matches!(p.state, PlayerState::AirDrill { dash: None }));
    assert!(drill_dash_cancel(&mut p, false, 6 * ONE));
    assert!(matches!(p.state, PlayerState::Airborn));
    assert_eq!(p.velocity, Vec2 { x: 6 * ONE, y: 3 });

    let mut q = player();
    q.state = PlayerState::AirDrill { dash: None };
    q.velocity = Vec2 { x: -20 * ONE, y: 0 };
    q.drill_release = Some(10);
    assert!(!drill_dash_cancel(&mut q, false, 6 * ONE));
    assert!(matches!(q.state, PlayerState::Airborn));
    assert_eq!(q.drill_release, None);
    assert_eq!(q.velocity.x, -20 * ONE);

    let mut dashing = player();
    dashing.state = PlayerState::AirDrill { dash: Some(5) };
    assert!(!drill_dash_cancel(&mut dashing, false, 6 * ONE));
    assert!(matches!(dashing.state, PlayerState::AirDrill { dash: Some(5) }));
}

#[test]
fn falling_and_short_jumps_pull_harder() {
    let rules = rules();
    let mut p = player();
    p.velocity = Vec2 { x: 1, y: -ONE };
    variable_jump(&mut p, false, &rules, 100_000);
    // An extra pull of -40 units per second squared for a tenth of a second.
    assert_eq!(p.velocity, Vec2 { x: 1, y: -5 * ONE });

    let mut fast = player();
    fast.velocity = Vec2 { x: 0, y: -19 * ONE };
    variable_jump(&mut fast, false, &rules, 100_000);
    assert_eq!(fast.velocity.y, -20 * ONE);

    let mut sliding = player();
    sliding.state = PlayerState::WallSliding { tile: "stone".to_string(), wall_normal: Vec2 { x: 1, y: 0 } };
    sliding.velocity = Vec2 { x: 0, y: -ONE };
    variable_jump(&mut sliding, false, &rules, 100_000);
    assert_eq!(sliding.velocity.y, -4 * ONE);

    let mut held = player();
    held.velocity = Vec2 { x: 0, y: 8 * ONE };
    held.can_hold_jump = true;
    variable_jump(&mut held, true, &rules, 100_000);
    assert_eq!(held.velocity.y, 8 * ONE);
    variable_jump(&mut held, false, &rules, 100_000);
    assert_eq!(held.velocity.y, 4 * ONE);

    let mut drill = player();
    drill.state = PlayerState::AirDrill { dash: None };
    drill.velocity = Vec2 { x: 0, y: -ONE };
    variable_jump(&mut drill, false, &rules, 100_000);
    assert_eq!(drill.velocity.y, -ONE);
}

#[test]
fn input_is_remembered() {
    let rules = rules();
    let mut p = player();
    p.can_hold_jump = true;
    remember_input(&mut p, true, true, &rules);
    assert_eq!(p.jump_buffer, Some(100_000));
    assert!(p.can_hold_jump);
    remember_input(&mut p, false, false, &rules);
    assert_eq!(p.jump_buffer, Some(100_000));
    assert!(!p.can_hold_jump);
    remember_input(&mut p, false, true, &rules);
    assert!(!p.can_hold_jump);
}

#[test]
fn player_faces_where_it_moves() {
    let mut p = player();
    p.velocity = Vec2 { x: -3, y: 0 };
    update_facing(&mut p);
    assert!(p.facing_left);
    p.velocity = Vec2 { x: 0, y: 0 };
    update_facing(&mut p);
    assert!(p.facing_left);
    p.velocity = Vec2 { x: 3, y: 0 };
    update_facing(&mut p);
    assert!(!p.facing_left);
}

#[test]
fn jumps_off_ground_wall_and_coyote() {
    let rules = rules();
    let wall_jump = Vec2 { x: 12 * ONE, y: 0 };

    let mut none = player();
    none.state = PlayerState::Grounded("stone".to_string());
    assert_eq!(jump(&mut none, &rules, wall_jump), None);

    let mut g = player();
    g.state = PlayerState::Grounded("stone".to_string());
    g.jump_buffer = Some(5);
    g.velocity = Vec2 { x: 3 * ONE, y: 0 };
    assert_eq!(jump(&mut g, &rules, wall_jump), Some(Coyote::Ground));
    assert_eq!(g.velocity, Vec2 { x: 3 * ONE, y: 12 * ONE });
    assert!(matches!(g.state, PlayerState::Airborn));
    assert_eq!(g.jump_buffer, None);
    assert!(g.can_hold_jump);

    let mut w = player();
    w.state = PlayerState::WallSliding { tile: "stone".to_string(), wall_normal: Vec2 { x: -1, y: 0 } };
    w.jump_buffer = Some(5);
    w.velocity = Vec2 { x: 0, y: -2 * ONE };
    assert_eq!(jump(&mut w, &rules, wall_jump), Some(Coyote::Wall { wall_normal: Vec2 { x: -1, y: 0 } }));
    assert_eq!(w.velocity, Vec2 { x: -12 * ONE, y: 0 });
    assert_eq!(w.control_timeout, Some(100_000));

    let mut c = player();
    c.jump_buffer = Some(5);
    c.coyote_time = Some((Coyote::DrillJump { direction: Vec2 { x: 0, y: ONE } }, 50));
    c.velocity = Vec2 { x: 0, y: 5 * ONE };
    assert_eq!(jump(&mut c, &rules, wall_jump), Some(Coyote::DrillJump { direction: Vec2 { x: 0, y: ONE } }));
    assert_eq!(c.velocity, Vec2 { x: 0, y: 12 * ONE });
    assert_eq!(c.coyote_time, None);

    let mut flying = player();
    flying.jump_buffer = Some(5);
    assert_eq!(jump(&mut flying, &rules, wall_jump), None);
    assert_eq!(flying.jump_buffer, Some(5));
}

#[test]
fn drill_enters_and_leaves_the_ground() {
    let rules = rules();
    let mut p = player();
    p.state = PlayerState::AirDrill { dash: None };
    let e = update_drill_state(&mut p, true, true, &rules, Vec2 { x: 0, y: -ONE }, 3 * ONE);
    assert_eq!(e, DrillEvent::Entered);
    assert!(matches!(p.state, PlayerState::Drilling));
    assert_eq!(p.velocity, Vec2 { x: 0, y: -10 * ONE });
    assert_eq!(p.coyote_time, Some((Coyote::DrillDirection { initial: Vec2 { x: 0, y: -ONE } }, 100_000)));

    assert_eq!(update_drill_state(&mut p, true, true, &rules, Vec2 { x: 0, y: -ONE }, 10 * ONE), DrillEvent::Digging);

    let e = update_drill_state(&mut p, false, true, &rules, Vec2 { x: 0, y: -ONE }, 10 * ONE);
    assert_eq!(e, DrillEvent::Exited);
    assert!(matches!(p.state, PlayerState::AirDrill { dash: None }));
    assert!(p.can_drill_dash);
    assert_eq!(p.drill_release, Some(100_000));
    assert_eq!(p.coyote_time, Some((Coyote::DrillJump { direction: Vec2 { x: 0, y: -ONE } }, 100_000)));

    let mut q = player();
    q.state = PlayerState::Drilling;
    assert_eq!(update_drill_state(&mut q, false, false, &rules, Vec2 { x: ONE, y: 0 }, 0), DrillEvent::Exited);
    assert!(matches!(q.state, PlayerState::Airborn));

    let mut flying = player();
    assert_eq!(update_drill_state(&mut flying, true, true, &rules, Vec2 { x: ONE, y: 0 }, 0), DrillEvent::Nothing);
}

#[test]
fn standing_restores_the_dash() {
    let mut p = player();
    p.state = PlayerState::Grounded("stone".to_string());
    p.velocity = Vec2 { x: 2000, y: 0 };
    assert_eq!(restore_drill_dash(&mut p), Dust::Walk);
    assert!(p.can_drill_dash);
    p.velocity = Vec2 { x: 1600, y: 0 };
    assert_eq!(restore_drill_dash(&mut p), Dust::Still);

    let mut s = player();
    s.state = PlayerState::WallSliding { tile: "stone".to_string(), wall_normal: Vec2 { x: 1, y: 0 } };
    s.velocity = Vec2 { x: 0, y: -2000 };
    assert_eq!(restore_drill_dash(&mut s), Dust::Slide);
    assert!(s.can_drill_dash);

    let mut f = player();
    assert_eq!(restore_drill_dash(&mut f), Dust::Still);
    assert!(!f.can_drill_dash);
}

#[test]
fn dashing_and_drilling_into_the_ground() {
    let rules = rules();
    let mut p = player();
    p.can_drill_dash = true;
    p.velocity = Vec2 { x: 20 * ONE, y: 0 };
    let dashed = drill_dash(&mut p, true, true, Vec2 { x: 1, y: 0 }, Vec2 { x: ONE, y: 0 }, &rules);
    assert!(dashed);
    // The player already moves faster than the dash: it keeps its speed.
    assert_eq!(p.velocity, Vec2 { x: 20 * ONE, y: 0 });
    assert!(!p.can_drill_dash);
    assert!(matches!(p.state, PlayerState::AirDrill { dash: Some(200_000) }));

    let mut slow = player();
    slow.can_drill_dash = true;
    slow.velocity = Vec2 { x: -ONE, y: 5 };
    assert!(drill_dash(&mut slow, true, true, Vec2 { x: 1, y: 0 }, Vec2 { x: ONE, y: 0 }, &rules));
    assert_eq!(slow.velocity, Vec2 { x: 12 * ONE, y: 0 });

    let mut g = player();
    g.state = PlayerState::Grounded("dirt".to_string());
    assert!(!drill_dash(&mut g, true, true, Vec2 { x: 0, y: -1 }, Vec2 { x: 0, y: -ONE }, &rules));
    assert_eq!(g.velocity, Vec2 { x: 0, y: -10 * ONE });
    assert!(matches!(g.state, PlayerState::AirDrill { dash: None }));

    let mut stone = player();
    stone.state = PlayerState::Grounded("stone".to_string());
    stone.velocity = Vec2 { x: 9, y: 0 };
    assert!(!drill_dash(&mut stone, true, true, Vec2 { x: 0, y: -1 }, Vec2 { x: 0, y: -ONE }, &rules));
    assert_eq!(stone.velocity, Vec2 { x: 9, y: 0 });

    let mut not_allowed = player();
    assert!(!drill_dash(&mut not_allowed, false, true, Vec2 { x: 1, y: 0 }, Vec2 { x: ONE, y: 0 }, &rules));
    assert!(matches!(not_allowed.state, PlayerState::Airborn));

    let mut digging = player();
    digging.state = PlayerState::Drilling;
    digging.can_drill_dash = true;
    assert!(!drill_dash(&mut digging, true, false, Vec2 { x: 0, y: 0 }, Vec2 { x: 0, y: 0 }, &rules));
    assert!(!digging.can_drill_dash);
}

#[test]
fn spawning_a_new_or_carried_player() {
    let mut ids = IdGen::new();
    let (p, a) = spawn_player(&mut ids, Vec2 { x: 3 * ONE, y: ONE }, None);
    assert_eq!(p.id, Id(0));
    assert_eq!(a.id, Id(0));
    assert_eq!(a.collider.raw(), Aabb2 {
        min: Vec2 { x: 3 * ONE - 7200, y: ONE },
        max: Vec2 { x: 3 * ONE + 7200, y: ONE + 14400 },
    });
    let mut q = player();
    q.velocity = Vec2 { x: 4, y: 5 };
    let (p2, a2) = spawn_player(&mut ids, Vec2 { x: 0, y: 0 }, Some((q, actor())));
    assert_eq!(p2.id, Id(1));
    assert_eq!(a2.id, Id(1));
    assert_eq!(p2.velocity, Vec2 { x: 4, y: 5 });
    assert_eq!(a2.collider.raw(), actor().collider.raw());
}

#[test]
fn held_keys_set_the_control() {
    let mut control = PlayerControl::default();
    let keys = HeldControls { left: true, right: false, down: true, up: false, jump: true, drill: false };
    control.update_control(keys);
    assert_eq!(control.move_dir, Vec2 { x: -1, y: -1 });
    assert!(control.hold_jump);
    assert!(!control.hold_drill);
    assert!(!control.jump);
    // Opposite keys cancel; a released jump keeps its hold until the input is taken.
    let keys = HeldControls { left: true, right: true, down: false, up: true, jump: false, drill: true };
    control.update_control(keys);
    assert_eq!(control.move_dir, Vec2 { x: 0, y: 1 });
    assert!(control.hold_jump);
    assert!(control.hold_drill);
    let taken = control.take();
    assert!(taken.hold_jump);
    assert_eq!(control, PlayerControl::default());
}

#[test]
fn time_splits_into_minutes_seconds_and_milliseconds() {
    // 2 min 5.25 s: 250 ms, as a `Time` of 250 units.
    assert_eq!(time_ms(125_250_000), (2, 5, 250_000_000));
    assert_eq!(time_ms(0), (0, 0, 0));
    assert_eq!(time_ms(59_999_999), (0, 59, 999_999_000));
    // Before the start the minutes stop at zero; seconds count from the minute below.
    assert_eq!(time_ms(-1_000_000), (0, 59, 0));
}

#[test]
fn the_cutscene_steps_through_its_frames() {
    let delays = vec![100, 50];
    let mut clock = IntroClock::new(&delays);
    assert_eq!(clock, IntroClock { time: 0, animation_frame: 0, next_frame: 100 });
    clock.update(&delays, 60);
    assert_eq!(clock, IntroClock { time: 0, animation_frame: 0, next_frame: 40 });
    // Running below zero shows the next frame for its own delay.
    clock.update(&delays, 60);
    assert_eq!(clock, IntroClock { time: 0, animation_frame: 1, next_frame: 50 });
    clock.update(&delays, 60);
    assert_eq!(clock, IntroClock { time: 0, animation_frame: 2, next_frame: 0 });
    // Past the last frame the time on it grows.
    clock.update(&delays, 30);
    assert_eq!(clock, IntroClock { time: 30, animation_frame: 3, next_frame: 0 });
}

#[test]
fn game_keys_while_running_and_paused() {
    let mut flags = GameFlags::new(false);
    let mut control = PlayerControl::default();
    assert_eq!(flags.key_down(&mut control, GameKey::Jump), GameAction::Nothing);
    assert!(control.jump);
    assert_eq!(flags.key_down(&mut control, GameKey::Retry), GameAction::KillPlayer);
    assert_eq!(flags.key_down(&mut control, GameKey::F2), GameAction::Nothing);
    assert!(flags.show_time);
    let before = flags;
    assert_eq!(flags.key_down(&mut control, GameKey::Escape), GameAction::OpenPauseMenu);
    assert!(flags.is_paused);
    // While paused only Escape counts.
    let mut fresh = PlayerControl::default();
    assert_eq!(flags.key_down(&mut fresh, GameKey::Drill), GameAction::Nothing);
    assert_eq!(flags.key_down(&mut fresh, GameKey::Retry), GameAction::Nothing);
    assert_eq!(fresh, PlayerControl::default());
    assert_eq!(flags.key_down(&mut fresh, GameKey::Escape), GameAction::Nothing);
    assert_eq!(flags, before);
}

#[test]
fn the_fade_runs_only_while_playing() {
    let mut flags = GameFlags::new(true);
    assert_eq!(flags.fade, 1_000_000);
    flags.update(400_000);
    assert_eq!(flags.fade, 600_000);
    flags.is_paused = true;
    flags.update(400_000);
    assert_eq!(flags.fade, 600_000);
    flags.is_paused = false;
    flags.update(700_000);
    assert_eq!(flags.fade, -100_000);
    flags.update(700_000);
    assert_eq!(flags.fade, -100_000);
}
