//! The simulation's tick counter and clock.
use vstd::prelude::*;
use std::time::Duration;

verus! {

/// The instant type of the `quanta` crate.
#[verifier::external_type_specification]
#[verifier::external_body]
pub struct ExQuantaInstant(quanta::Instant);

/// The frame counter of the `fps_counter` crate.
#[verifier::external_type_specification]
#[verifier::external_body]
pub struct ExFPSCounter(fps_counter::FPSCounter);

/// `quanta::Instant::now`: the current time. Nothing is stated of it.
#[verifier::external_body]
pub(crate) fn quanta_now() -> quanta::Instant {
    quanta::Instant::now()
}

/// `quanta::Instant - quanta::Instant`: the time from `earlier` to `later`,
/// zero when `earlier` is the later one. Nothing is stated of it: it depends
/// on the clock.
#[verifier::external_body]
fn quanta_elapsed(later: quanta::Instant, earlier: quanta::Instant) -> Duration {
    later - earlier
}

/// `FPSCounter::default`: a counter that has seen no tick.
#[verifier::external_body]
pub(crate) fn fps_counter_new() -> fps_counter::FPSCounter {
    fps_counter::FPSCounter::default()
}

/// `FPSCounter::tick`: records a tick at the current time and returns how
/// many ticks were recorded in the last second, this one included, so at
/// least 1. The count itself depends on the clock.
#[verifier::external_body]
pub(crate) fn fps_counter_tick(c: &mut fps_counter::FPSCounter) -> (r: usize)
    ensures
        r >= 1,
{
    c.tick()
}

/// Counts simulation ticks and the rate at which they come.
pub struct Ticker {
    pub tick: u128,
    pub start_time: quanta::Instant,
    pub last_tick_time: quanta::Instant,
    pub tick_rate: usize,
    tick_counter: fps_counter::FPSCounter,
}

impl Ticker {
    /// Ticks counted.
    pub closed spec fn ticks(&self) -> u128 {
        self.tick
    }

    /// Ticks in the last second, as of the last tick.
    pub closed spec fn rate(&self) -> usize {
        self.tick_rate
    }

    /// When the ticker was made.
    pub closed spec fn started(&self) -> quanta::Instant {
        self.start_time
    }

    /// When the last tick came.
    pub closed spec fn last_tick(&self) -> quanta::Instant {
        self.last_tick_time
    }
}

impl Default for Ticker {
    fn default() -> (t: Self)
        ensures
            t.ticks() == 0,
            t.rate() == 0,
            t.started() == t.last_tick(),
    {
        let now = quanta_now();
        Self { tick: 0, start_time: now, last_tick_time: now, tick_rate: 0, tick_counter: fps_counter_new() }
    }
}

impl Ticker {
    /// Counts one tick, updates the rate of ticks over the last second and
    /// notes the time of this tick.
    pub fn tick(&mut self)
        requires
            old(self).ticks() < u128::MAX,
        ensures
            final(self).ticks() == old(self).ticks() + 1,
            final(self).rate() >= 1,
            final(self).started() == old(self).started(),
    {
        let ticks = self.tick + 1;
        let rate = fps_counter_tick(&mut self.tick_counter);
        let now = quanta_now();
        self.record_tick(ticks, now, rate);
    }

    /// Notes a tick: the new tick count, the clock reading at the tick and the
    /// rate of ticks over the last second.
    pub fn record_tick(&mut self, ticks: u128, now: quanta::Instant, rate: usize)
        ensures
            final(self).ticks() == ticks,
            final(self).last_tick() == now,
            final(self).rate() == rate,
            final(self).started() == old(self).started(),
    {
        self.tick = ticks;
        self.tick_rate = rate;
        self.last_tick_time = now;
    }

    /// Time since the ticker was made.
    pub fn time_since_start(&self) -> Duration {
        quanta_elapsed(quanta_now(), self.start_time)
    }

    /// Time since the last tick.
    pub fn delta_time(&self) -> Duration {
        quanta_elapsed(quanta_now(), self.last_tick_time)
    }

    /// The current time.
    pub fn now() -> quanta::Instant {
        quanta_now()
    }
}

} // verus!
