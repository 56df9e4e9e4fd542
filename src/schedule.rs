//! Timing of poll cycles: ticks on boundaries measured from the scheduler's start.

use vstd::prelude::*;

verus! {

/// When the next cycle starts: at its boundary `due`, or at once (`now`) when the
/// previous cycle finished after that boundary.
pub fn next_cycle_start(due: u64, now: u64) -> (r: u64)
    ensures
        r == if now > due { now } else { due },
{
    if now > due {
        now
    } else {
        due
    }
}

/// The first boundary `start + k * interval` strictly after `t`: missed boundaries are
/// skipped rather than queued.
pub fn boundary_after(start: u64, interval: u64, t: u64) -> (r: Option<u64>)
    requires
        interval > 0,
        start <= t,
    ensures
        match r {
            Some(b) => {
                &&& b > t
                &&& b - interval <= t
                &&& (b - start) % (interval as int) == 0
            },
            None => (t - start) / (interval as int) * interval + interval + start > u64::MAX,
        },
{
    let k = (t - start) / interval;
    assert(k * interval <= t - start) by (nonlinear_arith)
        requires
            k == (t - start) / (interval as int),
            interval > 0,
            t >= start,
    ;
    assert((k + 1) * interval > t - start) by (nonlinear_arith)
        requires
            k == (t - start) / (interval as int),
            interval > 0,
            t >= start,
    ;
    let base = k * interval;
    match base.checked_add(interval) {
        None => None,
        Some(next) => match next.checked_add(start) {
            None => None,
            Some(b) => {
                assert(b - start == (k + 1) * interval) by (nonlinear_arith)
                    requires
                        b == k * interval + interval + start,
                ;
                assert(((k + 1) * interval) % (interval as int) == 0) by (nonlinear_arith)
                    requires
                        interval > 0,
                        k >= 0,
                ;
                Some(b)
            },
        },
    }
}

} // verus!
