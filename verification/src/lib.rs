//! Deterministic, replayable trial engines for two reaction-time
//! psychometric instruments - a psychomotor vigilance task and a 2-back
//! working-memory task - together with the statistical scoring applied to
//! completed runs.
//!
//! Time enters the library only as integer milliseconds supplied by the
//! caller's monotonic clock; every derived statistic is exact fixed-point
//! integer arithmetic (milli-units for reaction-time statistics,
//! micro-units for rates, nano-units for z-scores), so each value is
//! pinned by its contract.

pub mod codec;
pub mod lang;
pub mod nback_engine;
pub mod nback_metrics;
pub mod normal;
pub mod num;
pub mod platform;
pub mod pvt_engine;
pub mod pvt_metrics;
pub mod qc;
mod rng;
pub mod stats;
pub mod theme;

use vstd::prelude::*;

verus! {

/// Milliseconds cap applied to stored reaction times and onset offsets,
/// so that aggregate statistics cannot overflow.
pub const MS_CAP: u64 = 0xFFFF_FFFF;

/// Saturating difference of two timestamps in milliseconds, capped at `MS_CAP`.
pub fn elapsed_capped_ms(start: u64, end: u64) -> (r: u64)
    ensures
        r == spec_elapsed_capped_ms(start, end),
{
    if end <= start {
        0
    } else if end - start >= MS_CAP {
        MS_CAP
    } else {
        end - start
    }
}

/// Difference of two timestamps, clamped below at zero and above at `MS_CAP`.
pub open spec fn spec_elapsed_capped_ms(start: u64, end: u64) -> u64 {
    if end <= start {
        0u64
    } else if end - start >= MS_CAP {
        MS_CAP
    } else {
        (end - start) as u64
    }
}

} // verus!
