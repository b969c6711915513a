//! Progress accounting for a long render: an exponentially weighted moving
//! average of per-row times, and the remaining-time estimate built on it.
//! The clock readings come from the caller; only the arithmetic lives here.

use vstd::prelude::*;

verus! {

/// The moving average after one sample, with weight one tenth on the new
/// sample; the first sample stands alone.  Saturates at the top of the
/// range.
pub open spec fn spec_ema_update(prev: Option<u64>, sample_ms: u64) -> int {
    match prev {
        None => sample_ms as int,
        Some(p) => {
            let raw = (9 * p + sample_ms) / 10;
            if raw > u64::MAX {
                u64::MAX as int
            } else {
                raw
            }
        },
    }
}

/// Folds one row time into the moving average.
pub fn ema_update(prev: Option<u64>, sample_ms: u64) -> (r: u64)
    ensures
        r as int == spec_ema_update(prev, sample_ms),
{
    match prev {
        None => sample_ms,
        Some(p) => {
            let raw: u128 = (9u128 * (p as u128) + (sample_ms as u128)) / 10;
            if raw > u64::MAX as u128 {
                u64::MAX
            } else {
                raw as u64
            }
        },
    }
}

/// The estimated total time: the average row time times the row count,
/// shared across the workers.  Saturates at the top of the range.
pub open spec fn spec_total_estimate(ema_ms: u64, total_rows: u64, threads: u64) -> int {
    let raw = (ema_ms * total_rows) / (threads as int);
    if raw > u64::MAX {
        u64::MAX as int
    } else {
        raw
    }
}

/// The advisory remaining time: the estimated total minus the elapsed time,
/// never below zero.
pub fn eta_remaining_ms(ema_ms: u64, total_rows: u64, threads: u64, elapsed_ms: u64) -> (r: u64)
    requires
        threads > 0,
    ensures
        r as int == if spec_total_estimate(ema_ms, total_rows, threads) >= elapsed_ms as int {
            spec_total_estimate(ema_ms, total_rows, threads) - elapsed_ms as int
        } else {
            0
        },
{
    proof {
        assert((ema_ms as int) * (total_rows as int) >= 0) by (nonlinear_arith);
        assert((ema_ms as int) * (total_rows as int) <= 0xFFFF_FFFF_FFFF_FFFFint
            * 0xFFFF_FFFF_FFFF_FFFFint) by (nonlinear_arith)
            requires
                0 <= ema_ms as int <= 0xFFFF_FFFF_FFFF_FFFFint,
                0 <= total_rows as int <= 0xFFFF_FFFF_FFFF_FFFFint,
        ;
    }
    let raw: u128 = ((ema_ms as u128) * (total_rows as u128)) / (threads as u128);
    let total: u64 = if raw > u64::MAX as u128 {
        u64::MAX
    } else {
        raw as u64
    };
    if total >= elapsed_ms {
        total - elapsed_ms
    } else {
        0
    }
}

} // verus!
