//! Catching up a recurring schedule: when a keeper executes a due schedule,
//! its next due date moves past the current time by whole intervals, and the
//! intervals skipped on the way count as missed.
use vstd::prelude::*;

verus! {

/// Whole intervals that passed after `next_due` up to `now`, the execution
/// itself excluded.
pub open spec fn missed_periods(next_due: u64, interval: u64, now: u64) -> int
    recommends
        next_due <= now,
        interval > 0,
{
    (now - next_due) / (interval as int)
}

/// The due date after catching up: the first one strictly after `now`.
pub open spec fn caught_up_due(next_due: u64, interval: u64, now: u64) -> int
    recommends
        next_due <= now,
        interval > 0,
{
    next_due + (missed_periods(next_due, interval, now) + 1) * interval
}

/// The caught-up due date is the first date of the schedule after `now`:
/// it lies after `now`, and one interval earlier does not.
pub proof fn lemma_caught_up_is_first_after(next_due: u64, interval: u64, now: u64)
    requires
        next_due <= now,
        interval > 0,
    ensures
        0 <= missed_periods(next_due, interval, now),
        caught_up_due(next_due, interval, now) > now,
        caught_up_due(next_due, interval, now) - interval <= now,
{
    let d = (now - next_due) as int;
    let i = interval as int;
    let q = d / i;
    assert(0 <= q) by (nonlinear_arith)
        requires
            d >= 0,
            i > 0,
            q == d / i,
    ;
    assert(q * i <= d < (q + 1) * i) by (nonlinear_arith)
        requires
            d >= 0,
            i > 0,
            q == d / i,
    ;
    assert((q + 1) * i == q * i + i) by (nonlinear_arith);
}

/// Catches a due schedule up: returns the new due date and the number of
/// missed intervals.
pub fn catch_up(next_due: u64, interval: u64, now: u64) -> (r: (u64, u64))
    requires
        next_due <= now,
        interval > 0,
        caught_up_due(next_due, interval, now) <= u64::MAX,
    ensures
        r.0 == caught_up_due(next_due, interval, now),
        r.1 == missed_periods(next_due, interval, now),
        r.0 > now,
        r.0 - interval <= now,
{
    proof {
        lemma_caught_up_is_first_after(next_due, interval, now);
    }
    let missed = (now - next_due) / interval;
    let steps = missed + 1;
    let ghost d = (now - next_due) as int;
    assert(steps * interval <= d + interval) by (nonlinear_arith)
        requires
            steps == d / (interval as int) + 1,
            d >= 0,
            interval > 0,
    ;
    let next = next_due + steps * interval;
    (next, missed)
}


/// Catches a due schedule up when the new due date fits in a `u64`, and
/// reports `None` exactly when it does not.
pub fn try_catch_up(next_due: u64, interval: u64, now: u64) -> (r: Option<(u64, u64)>)
    requires
        next_due <= now,
        interval > 0,
    ensures
        match r {
            Some(p) => caught_up_due(next_due, interval, now) <= u64::MAX && p.0 == caught_up_due(
                next_due,
                interval,
                now,
            ) && p.1 == missed_periods(next_due, interval, now),
            None => caught_up_due(next_due, interval, now) > u64::MAX,
        },
{
    proof {
        lemma_caught_up_is_first_after(next_due, interval, now);
    }
    let missed = (now - next_due) / interval;
    let steps = match missed.checked_add(1) {
        Some(s) => s,
        None => {
            assert(caught_up_due(next_due, interval, now) > u64::MAX) by (nonlinear_arith)
                requires
                    missed == u64::MAX,
                    missed == missed_periods(next_due, interval, now),
                    interval >= 1,
                    caught_up_due(next_due, interval, now) == next_due + (missed_periods(next_due, interval, now) + 1) * interval,
            ;
            return None;
        },
    };
    let span = match steps.checked_mul(interval) {
        Some(s) => s,
        None => {
            return None;
        },
    };
    match next_due.checked_add(span) {
        Some(next) => Some((next, missed)),
        None => None,
    }
}

} // verus!
