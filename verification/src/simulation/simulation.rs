//! When the simulation stops: after `max_ticks` ticks, or never when
//! `max_ticks` is 0.
use vstd::prelude::*;

verus! {

/// Whether the simulation goes on after `tick` ticks, given the configured
/// limit `max_ticks`, where 0 means no limit.
pub fn should_continue(tick: u128, max_ticks: u128) -> (r: bool)
    ensures
        r == (max_ticks == 0 || tick < max_ticks),
{
    max_ticks == 0 || tick < max_ticks
}

} // verus!
