//! The clock of the opening cutscene: which frame of the animation is shown, and
//! how long the last frame has stood.
use vstd::prelude::*;
use crate::geom::{fits, Time};

verus! {

/// Progress through the cutscene, whose frames stand for the given delays.
#[derive(Clone, Copy, Debug, PartialEq, Eq, Structural)]
pub struct IntroClock {
    /// Time spent on the last frame, once every frame has been shown.
    pub time: Time,
    pub animation_frame: usize,
    /// Time left before the next frame.
    pub next_frame: Time,
}

/// The delay after frame `i`, zero past the end.
pub open spec fn delay_of(delays: Seq<Time>, i: int) -> Time {
    if 0 <= i < delays.len() { delays[i] } else { 0 }
}

impl IntroClock {
    /// The clock at the start: the first frame, standing for its delay.
    pub fn new(delays: &Vec<Time>) -> (c: IntroClock)
        requires
            delays@.len() > 0,
        ensures
            c == (IntroClock { time: 0, animation_frame: 0, next_frame: delays@[0] }),
    {
        IntroClock { time: 0, animation_frame: 0, next_frame: delays[0] }
    }

    /// Advances the clock by `delta_time`. Once past the last frame the time on it
    /// grows. When the time left runs below zero, the next frame comes, standing
    /// for its own delay (zero past the end).
    pub fn update(&mut self, delays: &Vec<Time>, delta_time: Time)
        requires
            fits(old(self).time + delta_time),
            fits(old(self).next_frame - delta_time),
            old(self).animation_frame < usize::MAX,
        ensures
            final(self).time == if old(self).animation_frame >= delays@.len() {
                old(self).time + delta_time
            } else {
                old(self).time as int
            },
            old(self).next_frame - delta_time < 0 ==> {
                &&& final(self).animation_frame == old(self).animation_frame + 1
                &&& final(self).next_frame == delay_of(delays@, old(self).animation_frame + 1)
            },
            old(self).next_frame - delta_time >= 0 ==> {
                &&& final(self).animation_frame == old(self).animation_frame
                &&& final(self).next_frame == old(self).next_frame - delta_time
            },
    {
        if self.animation_frame >= delays.len() {
            self.time = self.time + delta_time;
        }
        self.next_frame = self.next_frame - delta_time;
        if self.next_frame < 0 {
            self.animation_frame = self.animation_frame + 1;
            self.next_frame = if self.animation_frame < delays.len() {
                delays[self.animation_frame]
            } else {
                0
            };
        }
    }
}

} // verus!
