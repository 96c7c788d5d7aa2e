//! The player: its controls, its state machine and its timers.
use vstd::prelude::*;
use crate::collider::Collider;
use crate::geom::{fits, Aabb2, Time, Vec2};
use crate::id::Id;
use crate::rules::Tile;

verus! {

/// What the player asked for during one frame. `move_dir` has components
/// `-1`, `0` or `1`.
#[derive(Clone, Copy, Debug, PartialEq, Eq, Structural)]
pub struct PlayerControl {
    pub jump: bool,
    pub hold_jump: bool,
    pub move_dir: Vec2,
    pub drill: bool,
    pub hold_drill: bool,
}

/// What the player is doing.
#[derive(Debug)]
pub enum PlayerState {
    Grounded(Tile),
    WallSliding { tile: Tile, wall_normal: Vec2 },
    Airborn,
    Respawning { time: Time },
    AirDrill { dash: Option<Time> },
    Drilling,
    Finished { time: Time, next_heart: Time },
}

/// What a late jump (within the coyote time) does.
#[derive(Clone, Copy, Debug, PartialEq, Eq, Structural)]
pub enum Coyote {
    Ground,
    Wall { wall_normal: Vec2 },
    DrillJump { direction: Vec2 },
    DrillDirection { initial: Vec2 },
}

#[derive(Debug)]
pub struct Player {
    pub id: Id,
    pub velocity: Vec2,
    pub state: PlayerState,
    pub touching_wall: Option<(Tile, Vec2)>,
    pub control_timeout: Option<Time>,
    pub facing_left: bool,
    pub can_hold_jump: bool,
    pub can_drill_dash: bool,
    pub coyote_time: Option<(Coyote, Time)>,
    pub jump_buffer: Option<Time>,
    pub drill_release: Option<Time>,
}

impl Clone for PlayerState {
    fn clone(&self) -> (r: Self)
        ensures
            r == *self,
    {
        match self {
            PlayerState::Grounded(t) => PlayerState::Grounded(t.clone()),
            PlayerState::WallSliding { tile, wall_normal } => PlayerState::WallSliding {
                tile: tile.clone(),
                wall_normal: *wall_normal,
            },
            PlayerState::Airborn => PlayerState::Airborn,
            PlayerState::Respawning { time } => PlayerState::Respawning { time: *time },
            PlayerState::AirDrill { dash } => PlayerState::AirDrill { dash: *dash },
            PlayerState::Drilling => PlayerState::Drilling,
            PlayerState::Finished { time, next_heart } => PlayerState::Finished {
                time: *time,
                next_heart: *next_heart,
            },
        }
    }
}

/// Which of the game's controls are held down during a frame.
#[derive(Clone, Copy, Debug, PartialEq, Eq, Structural)]
pub struct HeldControls {
    pub left: bool,
    pub right: bool,
    pub down: bool,
    pub up: bool,
    pub jump: bool,
    pub drill: bool,
}

/// One for a held key, zero otherwise.
pub open spec fn held(b: bool) -> int {
    if b { 1 } else { 0 }
}

impl PlayerControl {
    /// Adds what is held down this frame: holding jump or drill sets its hold flag,
    /// which stays set until the input is taken, and the direction is right minus
    /// left and up minus down, so that opposite keys cancel out.
    pub fn update_control(&mut self, keys: HeldControls)
        ensures
            final(self).jump == old(self).jump,
            final(self).drill == old(self).drill,
            final(self).hold_jump == (old(self).hold_jump || keys.jump),
            final(self).hold_drill == (old(self).hold_drill || keys.drill),
            final(self).move_dir.x == held(keys.right) - held(keys.left),
            final(self).move_dir.y == held(keys.up) - held(keys.down),
    {
        if keys.jump {
            self.hold_jump = true;
        }
        if keys.drill {
            self.hold_drill = true;
        }
        let mut dir = Vec2 { x: 0, y: 0 };
        if keys.left {
            dir.x = dir.x - 1;
        }
        if keys.right {
            dir.x = dir.x + 1;
        }
        if keys.down {
            dir.y = dir.y - 1;
        }
        if keys.up {
            dir.y = dir.y + 1;
        }
        self.move_dir = dir;
    }

    /// No input.
    pub fn default() -> (c: PlayerControl)
        ensures
            c == (PlayerControl { jump: false, hold_jump: false, move_dir: Vec2 { x: 0, y: 0 }, drill: false, hold_drill: false }),
    {
        PlayerControl { jump: false, hold_jump: false, move_dir: Vec2 { x: 0, y: 0 }, drill: false, hold_drill: false }
    }

    /// Returns the input gathered so far and starts over with no input.
    pub fn take(&mut self) -> (c: PlayerControl)
        ensures
            c == *old(self),
            *final(self) == (PlayerControl { jump: false, hold_jump: false, move_dir: Vec2 { x: 0, y: 0 }, drill: false, hold_drill: false }),
    {
        let c = *self;
        *self = PlayerControl::default();
        c
    }
}

/// Half the width and the height of the player's hurtbox: 0.45 and 0.8 units.
pub const HURTBOX_HALF_WIDTH: i64 = 7200;

pub const HURTBOX_HEIGHT: i64 = 12800;

impl Player {
    /// A player at rest in the air, with no timers running.
    pub fn new(id: Id) -> (p: Player)
        ensures
            p.id == id,
            p.velocity == (Vec2 { x: 0, y: 0 }),
            p.state == PlayerState::Airborn,
            p.touching_wall is None,
            p.control_timeout is None,
            !p.facing_left,
            !p.can_hold_jump,
            !p.can_drill_dash,
            p.coyote_time is None,
            p.jump_buffer is None,
            p.drill_release is None,
    {
        Player {
            id,
            velocity: Vec2 { x: 0, y: 0 },
            state: PlayerState::Airborn,
            touching_wall: None,
            control_timeout: None,
            facing_left: false,
            can_hold_jump: false,
            can_drill_dash: false,
            coyote_time: None,
            jump_buffer: None,
            drill_release: None,
        }
    }

    /// The box that hazards hit: 0.9 units wide and 0.8 high, hanging from `head`.
    pub fn hurtbox(&self, head: Vec2) -> (c: Collider)
        requires
            fits(head.x - HURTBOX_HALF_WIDTH),
            fits(head.x + HURTBOX_HALF_WIDTH),
            fits(head.y - HURTBOX_HEIGHT),
        ensures
            c@ == (Aabb2 {
                min: Vec2 { x: (head.x - HURTBOX_HALF_WIDTH) as i64, y: (head.y - HURTBOX_HEIGHT) as i64 },
                max: Vec2 { x: (head.x + HURTBOX_HALF_WIDTH) as i64, y: head.y },
            }),
    {
        Collider::new(
            Aabb2::point(head).extend_symmetric(Vec2 { x: HURTBOX_HALF_WIDTH, y: 0 }).extend_down(HURTBOX_HEIGHT),
        )
    }

    /// A timer after `dt` more time: gone once it reaches zero.
    pub open spec fn tick(t: Option<Time>, dt: Time) -> Option<Time> {
        match t {
            Some(v) => if v - dt <= 0 { None } else { Some((v - dt) as i64) },
            None => None,
        }
    }

    pub open spec fn timers_fit(self, dt: Time) -> bool {
        &&& (self.coyote_time matches Some((_, t)) ==> fits(t - dt))
        &&& (self.jump_buffer matches Some(t) ==> fits(t - dt))
        &&& (self.control_timeout matches Some(t) ==> fits(t - dt))
        &&& (self.state matches PlayerState::AirDrill { dash: Some(t) } ==> fits(t - dt))
    }

    /// Runs the coyote, jump-buffer, drill-dash and control timers down by `dt`;
    /// a timer that reaches zero stops.
    pub fn update_timers(&mut self, delta_time: Time)
        requires
            old(self).timers_fit(delta_time),
        ensures
            final(self).coyote_time == match old(self).coyote_time {
                Some((c, t)) => if t - delta_time <= 0 { None } else { Some((c, (t - delta_time) as i64)) },
                None => None,
            },
            final(self).jump_buffer == Self::tick(old(self).jump_buffer, delta_time),
            final(self).control_timeout == Self::tick(old(self).control_timeout, delta_time),
            final(self).state == match old(self).state {
                PlayerState::AirDrill { dash } => PlayerState::AirDrill { dash: Self::tick(dash, delta_time) },
                s => s,
            },
            final(self).id == old(self).id,
            final(self).velocity == old(self).velocity,
            final(self).touching_wall == old(self).touching_wall,
            final(self).facing_left == old(self).facing_left,
            final(self).can_hold_jump == old(self).can_hold_jump,
            final(self).can_drill_dash == old(self).can_drill_dash,
            final(self).drill_release == old(self).drill_release,
    {
        self.coyote_time = match self.coyote_time {
            Some((c, t)) => if t - delta_time <= 0 { None } else { Some((c, t - delta_time)) },
            None => None,
        };
        self.jump_buffer = tick(self.jump_buffer, delta_time);
        let dash = match &self.state {
            PlayerState::AirDrill { dash } => Some(tick(*dash, delta_time)),
            _ => None,
        };
        match dash {
            Some(d) => {
                self.state = PlayerState::AirDrill { dash: d };
            },
            None => {},
        }
        self.control_timeout = tick(self.control_timeout, delta_time);
    }
}

fn tick(t: Option<Time>, dt: Time) -> (r: Option<Time>)
    requires
        t matches Some(v) ==> fits(v - dt),
    ensures
        r == Player::tick(t, dt),
{
    match t {
        Some(v) => if v - dt <= 0 { None } else { Some(v - dt) },
        None => None,
    }
}

impl PlayerState {
    pub fn is_airborn(&self) -> (b: bool)
        ensures
            b == (*self is Airborn),
    {
        matches!(self, PlayerState::Airborn)
    }

    pub fn is_grounded(&self) -> (b: bool)
        ensures
            b == (*self is Grounded),
    {
        matches!(self, PlayerState::Grounded(..))
    }

    pub fn is_wall_sliding(&self) -> (b: bool)
        ensures
            b == (*self is WallSliding),
    {
        matches!(self, PlayerState::WallSliding { .. })
    }

    pub fn is_drilling(&self) -> (b: bool)
        ensures
            b == (*self is Drilling),
    {
        matches!(self, PlayerState::Drilling)
    }

    pub fn is_air_drilling(&self) -> (b: bool)
        ensures
            b == (*self is AirDrill),
    {
        matches!(self, PlayerState::AirDrill { .. })
    }

    /// Whether the player is a drill, in the ground or in the air.
    pub fn using_drill(&self) -> (b: bool)
        ensures
            b == (*self is Drilling || *self is AirDrill),
    {
        self.is_drilling() || self.is_air_drilling()
    }

    /// The state itself, if the player has finished the level.
    pub fn finished_state(&self) -> (r: Option<PlayerState>)
        ensures
            r == (if *self is Finished { Some(*self) } else { None }),
    {
        if self.has_finished() {
            Some(self.clone())
        } else {
            None
        }
    }

    pub fn has_finished(&self) -> (b: bool)
        ensures
            b == (*self is Finished),
    {
        matches!(self, PlayerState::Finished { .. })
    }
}

} // verus!
