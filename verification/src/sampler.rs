//! Cadence of the macOS IOReport / SMC sampler worker.
//!
//! The worker samples at the UI tick, but never faster than every 250 ms:
//! IOReport walks every subscribed channel and SMC reads hit the
//! controller. After a worker failure it waits, doubling the wait on each
//! further failure up to 30 s, and starts over at 1 s after a good tick.

use vstd::prelude::*;

verus! {

/// Floor on the sampler cadence, in milliseconds.
pub const MACOS_SAMPLE_FLOOR_MS: u64 = 250;

/// First wait after a failure, in milliseconds.
pub const BACKOFF_INITIAL_MS: u64 = 1000;

/// Longest wait after repeated failures, in milliseconds.
pub const BACKOFF_MAX_MS: u64 = 30_000;

/// The worker's sampling interval for a UI tick of `tick_ms`.
pub fn sample_interval_ms(tick_ms: u64) -> (r: u64)
    ensures
        r == if tick_ms < MACOS_SAMPLE_FLOOR_MS {
            MACOS_SAMPLE_FLOOR_MS
        } else {
            tick_ms
        },
{
    if tick_ms < MACOS_SAMPLE_FLOOR_MS {
        MACOS_SAMPLE_FLOOR_MS
    } else {
        tick_ms
    }
}

/// The wait after the next failure: double, but at most 30 s.
pub open spec fn next_backoff_spec(b: u64) -> u64 {
    if 2 * b > BACKOFF_MAX_MS {
        BACKOFF_MAX_MS
    } else {
        (2 * b) as u64
    }
}

pub fn next_backoff_ms(backoff_ms: u64) -> (r: u64)
    requires
        backoff_ms <= BACKOFF_MAX_MS,
    ensures
        r == next_backoff_spec(backoff_ms),
{
    let doubled = backoff_ms * 2;
    if doubled > BACKOFF_MAX_MS {
        BACKOFF_MAX_MS
    } else {
        doubled
    }
}

/// What a worker failure leads to, given the current wait and whether the
/// worker delivered a good tick since the last failure: the wait before
/// restarting (back at 1 s after a good tick, else the current one) and
/// the wait for the failure after that (double, at most 30 s).
pub fn failure_waits(backoff_ms: u64, ticked: bool) -> (r: (u64, u64))
    requires
        backoff_ms <= BACKOFF_MAX_MS,
    ensures
        r.0 == if ticked {
            BACKOFF_INITIAL_MS
        } else {
            backoff_ms
        },
        r.1 == next_backoff_spec(r.0),
{
    let wait = if ticked {
        BACKOFF_INITIAL_MS
    } else {
        backoff_ms
    };
    (wait, next_backoff_ms(wait))
}

/// `k` failures in a row, starting from the initial wait.
pub open spec fn backoff_after(k: nat) -> u64
    decreases k,
{
    if k == 0 {
        BACKOFF_INITIAL_MS
    } else {
        next_backoff_spec(backoff_after((k - 1) as nat))
    }
}

/// The wait never drops below 1 s nor exceeds 30 s, never shrinks while
/// failures go on, and reaches 30 s after five failures in a row.
pub proof fn lemma_backoff_bounds(k: nat)
    ensures
        BACKOFF_INITIAL_MS <= backoff_after(k) <= BACKOFF_MAX_MS,
        backoff_after(k) <= backoff_after(k + 1),
        k >= 5 ==> backoff_after(k) == BACKOFF_MAX_MS,
    decreases k,
{
    if k > 0 {
        lemma_backoff_bounds((k - 1) as nat);
    }
    if k == 5 {
        assert(backoff_after(0) == 1000);
        assert(backoff_after(1) == 2000);
        assert(backoff_after(2) == 4000);
        assert(backoff_after(3) == 8000);
        assert(backoff_after(4) == 16000);
    }
}

} // verus!
