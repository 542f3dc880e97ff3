//! Decisions of the refresh loop: how long to wait between two refreshes,
//! in ticks, and whether to keep waiting.

use vstd::prelude::*;

verus! {

/// The length of one tick of waiting, in milliseconds.
pub const TICK_MS: u64 = 50;

/// The wait between two refreshes where none is configured, in milliseconds.
pub const DEFAULT_COOLDOWN_MS: u64 = 5000;

/// The number of whole ticks in the configured wait (or the default one).
pub open spec fn ticks_for(cooldown_ms: Option<u64>) -> nat {
    match cooldown_ms {
        Some(c) => (c / TICK_MS) as nat,
        None => (DEFAULT_COOLDOWN_MS / TICK_MS) as nat,
    }
}

/// The number of whole ticks in the configured wait (or the default one).
pub fn cooldown_ticks(cooldown_ms: Option<u64>) -> (r: u64)
    ensures
        r == ticks_for(cooldown_ms),
{
    match cooldown_ms {
        Some(c) => c / TICK_MS,
        None => DEFAULT_COOLDOWN_MS / TICK_MS,
    }
}

/// Whether to wait one more tick: only while the program runs and the
/// ticks are not used up.
pub fn keep_waiting(running: bool, ticks_done: u64, ticks: u64) -> (r: bool)
    ensures
        r == (running && ticks_done < ticks),
{
    running && ticks_done < ticks
}

} // verus!
