//! The beat of the worker that waits for keys: how long it may wait, and when
//! it is to tell that time went by.

use vstd::prelude::*;

verus! {

/// The time between two ticks, in milliseconds.
pub const TICK_RATE: u64 = 200;

/// How long the worker may wait for a key when `elapsed` milliseconds have
/// gone by since the last tick: what is left of the time between two ticks.
pub open spec fn time_left(elapsed: u64) -> u64 {
    if elapsed >= TICK_RATE {
        0
    } else {
        (TICK_RATE - elapsed) as u64
    }
}

/// How long the worker may wait for a key, in milliseconds, when `elapsed`
/// milliseconds have gone by since the last tick.
pub fn poll_timeout(elapsed: u64) -> (timeout: u64)
    ensures
        timeout == time_left(elapsed),
{
    TICK_RATE.saturating_sub(elapsed)
}

/// Whether a tick is due when `elapsed` milliseconds have gone by since the
/// last one.
pub fn tick_due(elapsed: u64) -> (due: bool)
    ensures
        due == (elapsed >= TICK_RATE),
{
    elapsed >= TICK_RATE
}

/// A tick is due exactly when the worker may wait no longer.
pub proof fn lemma_tick_due_when_no_time_left(elapsed: u64)
    ensures
        (elapsed >= TICK_RATE) <==> time_left(elapsed) == 0,
        time_left(elapsed) <= TICK_RATE,
{
}

} // verus!
