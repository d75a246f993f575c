//! The generic timer: a virtual timer in each CPU drives its tick, and the
//! virtual counter gives delays.

use vstd::prelude::*;

verus! {

/// Counts from one tick to the next, for a counter of `frequency` that is to
/// give `hz` ticks a second; the timer is armed with this for each tick.
pub fn start(frequency: u64, hz: u32) -> (r: u64)
    requires
        hz > 0,
    ensures
        r == frequency as int / hz as int,
{
    frequency / hz as u64
}

/// The count at which a delay of `ms` milliseconds that begins at `now` is
/// over.
pub fn delay_ms(now: u64, frequency: u64, ms: u32) -> (r: u64)
    requires
        frequency * ms <= u64::MAX,
        now + frequency * ms / 1000 <= u64::MAX,
    ensures
        r == now + frequency * ms / 1000,
{
    now + frequency * ms as u64 / 1000
}

/// Whether a delay until `end` still goes on.
pub fn delaying(now: u64, end: u64) -> (r: bool)
    ensures
        r == (now < end),
{
    now < end
}

/// The counter's frequency in megahertz.
pub fn megahertz(frequency: u64) -> (r: u64)
    ensures
        r == frequency / 1_000_000,
{
    frequency / 1_000_000
}

} // verus!
