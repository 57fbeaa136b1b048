//! Rate derivation: turning a tick's cumulative byte counters into an
//! instantaneous throughput in bytes per second.

use vstd::prelude::*;

verus! {

/// The exact rate a tick yields: combined transmitted and received bytes,
/// scaled from the sampling interval to one second, rounded toward zero.
pub open spec fn spec_rate(transmitted: u64, received: u64, interval_ms: u64) -> int
    recommends
        interval_ms > 0,
{
    ((transmitted + received) * 1000) / (interval_ms as int)
}

/// Which counters a display mode charts: both directions combined, or
/// transmitted bytes alone. Both are valid modes; the choice is configuration,
/// not derivation.
#[derive(Clone, Copy, PartialEq, Eq, Structural, Debug)]
pub enum RateMode {
    Combined,
    TransmittedOnly,
}

/// The throughput a display mode derives from one tick's counters.
pub fn rate_for_mode(mode: RateMode, transmitted: u64, received: u64, interval_ms: u64) -> (r: u64)
    requires
        interval_ms > 0,
    ensures
        ({
            let counted = if mode == RateMode::Combined {
                spec_rate(transmitted, received, interval_ms)
            } else {
                spec_rate(transmitted, 0, interval_ms)
            };
            r == if counted <= u64::MAX {
                counted
            } else {
                u64::MAX as int
            }
        }),
{
    match mode {
        RateMode::Combined => rate_bytes_per_sec(transmitted, received, interval_ms),
        RateMode::TransmittedOnly => rate_bytes_per_sec(transmitted, 0, interval_ms),
    }
}

/// Combined throughput in bytes per second for one sampling interval,
/// saturating at `u64::MAX` where the exact rate does not fit.
pub fn rate_bytes_per_sec(transmitted: u64, received: u64, interval_ms: u64) -> (r: u64)
    requires
        interval_ms > 0,
    ensures
        r == if spec_rate(transmitted, received, interval_ms) <= u64::MAX {
            spec_rate(transmitted, received, interval_ms)
        } else {
            u64::MAX as int
        },
{
    let total: u128 = transmitted as u128 + received as u128;
    let scaled: u128 = total * 1000;
    let q: u128 = scaled / (interval_ms as u128);
    if q > u64::MAX as u128 {
        u64::MAX
    } else {
        q as u64
    }
}

} // verus!
