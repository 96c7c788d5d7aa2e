//! What the running game does with its keys and its fade-in, apart from drawing.
use vstd::prelude::*;
use crate::geom::Time;
use crate::player::PlayerControl;

verus! {

/// A key pressed during the game, by what it is bound to.
#[derive(Clone, Copy, Debug, PartialEq, Eq, Structural)]
pub enum GameKey {
    Jump,
    Drill,
    Retry,
    /// Opens or closes the pause menu.
    Escape,
    /// Shows or hides the hitboxes.
    F1,
    /// Shows or hides the timer.
    F2,
    /// Shows or hides the speed readout.
    F4,
    Other,
}

/// What the caller does after a key.
#[derive(Clone, Copy, Debug, PartialEq, Eq, Structural)]
pub enum GameAction {
    Nothing,
    /// The player asked to start the room over: kill it.
    KillPlayer,
    /// The game was just paused: open the pause menu at its first page.
    OpenPauseMenu,
}

/// The switches of a running game.
#[derive(Clone, Copy, Debug, PartialEq, Eq, Structural)]
pub struct GameFlags {
    pub is_paused: bool,
    pub draw_hitboxes: bool,
    pub show_time: bool,
    pub show_debug: bool,
    /// Time left of the fade-in.
    pub fade: Time,
}

impl GameFlags {
    /// A game that starts running, fading in for `TIME_ONE`.
    pub fn new(show_time: bool) -> (g: GameFlags)
        ensures
            g == (GameFlags { is_paused: false, draw_hitboxes: false, show_time, show_debug: false, fade: crate::geom::TIME_ONE }),
    {
        GameFlags { is_paused: false, draw_hitboxes: false, show_time, show_debug: false, fade: crate::geom::TIME_ONE }
    }

    /// The switches after `key`: while paused only Escape counts, and it resumes;
    /// otherwise Escape pauses and F1, F2 and F4 flip their switches.
    pub open spec fn after_key(self, key: GameKey) -> GameFlags {
        if self.is_paused {
            if key == GameKey::Escape { GameFlags { is_paused: false, ..self } } else { self }
        } else {
            match key {
                GameKey::Escape => GameFlags { is_paused: true, ..self },
                GameKey::F1 => GameFlags { draw_hitboxes: !self.draw_hitboxes, ..self },
                GameKey::F2 => GameFlags { show_time: !self.show_time, ..self },
                GameKey::F4 => GameFlags { show_debug: !self.show_debug, ..self },
                _ => self,
            }
        }
    }

    /// The input after `key`: jump and drill are recorded while the game runs.
    pub open spec fn control_after_key(self, control: PlayerControl, key: GameKey) -> PlayerControl {
        if self.is_paused {
            control
        } else {
            match key {
                GameKey::Jump => PlayerControl { jump: true, ..control },
                GameKey::Drill => PlayerControl { drill: true, ..control },
                _ => control,
            }
        }
    }

    /// What the caller does after `key`: while the game runs, retry kills the
    /// player and Escape opens the pause menu.
    pub open spec fn action_of_key(self, key: GameKey) -> GameAction {
        if self.is_paused {
            GameAction::Nothing
        } else {
            match key {
                GameKey::Retry => GameAction::KillPlayer,
                GameKey::Escape => GameAction::OpenPauseMenu,
                _ => GameAction::Nothing,
            }
        }
    }

    /// Handles a key pressed down; see `after_key`, `control_after_key` and
    /// `action_of_key`.
    pub fn key_down(&mut self, control: &mut PlayerControl, key: GameKey) -> (a: GameAction)
        ensures
            *final(self) == old(self).after_key(key),
            *final(control) == old(self).control_after_key(*old(control), key),
            a == old(self).action_of_key(key),
    {
        if self.is_paused {
            if key == GameKey::Escape {
                self.is_paused = false;
            }
            return GameAction::Nothing;
        }
        match key {
            GameKey::Jump => {
                control.jump = true;
                GameAction::Nothing
            },
            GameKey::Drill => {
                control.drill = true;
                GameAction::Nothing
            },
            GameKey::Retry => GameAction::KillPlayer,
            GameKey::Escape => {
                self.is_paused = true;
                GameAction::OpenPauseMenu
            },
            GameKey::F1 => {
                self.draw_hitboxes = !self.draw_hitboxes;
                GameAction::Nothing
            },
            GameKey::F2 => {
                self.show_time = !self.show_time;
                GameAction::Nothing
            },
            GameKey::F4 => {
                self.show_debug = !self.show_debug;
                GameAction::Nothing
            },
            GameKey::Other => GameAction::Nothing,
        }
    }

    /// Runs the fade-in down by `delta_time` while the game is not paused.
    pub fn update(&mut self, delta_time: Time)
        requires
            i64::MIN <= old(self).fade - delta_time <= i64::MAX,
        ensures
            *final(self) == if !old(self).is_paused && old(self).fade > 0 {
                GameFlags { fade: (old(self).fade - delta_time) as i64, ..*old(self) }
            } else {
                *old(self)
            },
    {
        if !self.is_paused && self.fade > 0 {
            self.fade = self.fade - delta_time;
        }
    }
}

} // verus!
