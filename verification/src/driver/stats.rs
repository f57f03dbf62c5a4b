//! Frame statistics of the render loop.
use vstd::prelude::*;
use std::time::{Duration, Instant};
use crate::simulation::time::{fps_counter_new, fps_counter_tick};

verus! {

/// The standard library's `Instant`.
#[verifier::external_type_specification]
#[verifier::external_body]
pub struct ExStdInstant(std::time::Instant);

/// `std::time::Instant::now`: the current time. Nothing is stated of it.
#[verifier::external_body]
fn std_now() -> Instant {
    Instant::now()
}

/// `std::time::Instant::elapsed`: the time since `t`. Nothing is stated of
/// it: it depends on the clock.
#[verifier::external_body]
fn std_elapsed(t: &Instant) -> Duration {
    t.elapsed()
}

/// Frames counted, and the frame rate over the last second.
pub struct Stats {
    pub fps: usize,
    pub tick: usize,
    fps_counter: fps_counter::FPSCounter,
    start_time: Instant,
}

impl Stats {
    /// The frame rate over the last second, as of the last frame.
    pub closed spec fn frame_rate(&self) -> usize {
        self.fps
    }

    /// Frames counted.
    pub closed spec fn frames(&self) -> usize {
        self.tick
    }
}

impl Default for Stats {
    fn default() -> (s: Self)
        ensures
            s.frame_rate() == 0,
            s.frames() == 0,
    {
        Self { fps: 0, tick: 0, fps_counter: fps_counter_new(), start_time: std_now() }
    }
}

impl Stats {
    /// Counts one frame and updates the frame rate over the last second.
    pub fn tick(&mut self)
        requires
            old(self).frames() < usize::MAX,
        ensures
            final(self).frames() == old(self).frames() + 1,
            final(self).frame_rate() >= 1,
    {
        self.tick = self.tick + 1;
        self.fps = fps_counter_tick(&mut self.fps_counter);
    }

    /// Time since the statistics were started.
    pub fn since_start(&self) -> Duration {
        std_elapsed(&self.start_time)
    }
}

} // verus!
