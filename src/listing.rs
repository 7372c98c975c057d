//! What a listing of the agenda shows.
use vstd::prelude::*;

verus! {

/// How many upcoming routines a short listing shows.
pub const UPCOMING_N: usize = 10;

/// Length of a calendar day on the wall clock.
pub const SECONDS_PER_DAY: i64 = 86400;

/// The calendar day of an instant, counted from 1970-01-01.
pub open spec fn day_number(t: i64) -> int {
    t as int / SECONDS_PER_DAY as int
}

/// The calendar day of `t`, counted from 1970-01-01.
pub fn day_of(t: i64) -> (r: i64)
    ensures
        r == day_number(t),
{
    if t >= 0 {
        assert(t / SECONDS_PER_DAY == t as int / SECONDS_PER_DAY as int);
        t / SECONDS_PER_DAY
    } else {
        let back = -(t + 1);
        let q = back / SECONDS_PER_DAY;
        assert(q == back as int / 86400);
        assert(t as int == -(back as int) - 1);
        assert((-(back as int) - 1) / 86400 == -(back as int / 86400) - 1) by (nonlinear_arith)
            requires
                back >= 0,
        ;
        -q - 1
    }
}

/// Whether `a` and `b` fall on the same calendar day; a listing then shows
/// times of day, not only dates.
pub fn same_day(a: i64, b: i64) -> (r: bool)
    ensures
        r == (day_number(a) == day_number(b)),
{
    day_of(a) == day_of(b)
}

/// How many of `total` upcoming routines a listing shows.
pub fn shown_upcoming(total: usize, verbose: bool) -> (r: usize)
    ensures
        r == (if verbose || total < UPCOMING_N {
            total
        } else {
            UPCOMING_N
        }),
{
    if verbose || total < UPCOMING_N {
        total
    } else {
        UPCOMING_N
    }
}

/// How many upcoming routines a short listing leaves out, when it is short.
pub fn left_out(total: usize, verbose: bool) -> (r: Option<usize>)
    ensures
        r == (if !verbose && total >= UPCOMING_N {
            Some((total - UPCOMING_N) as usize)
        } else {
            None
        }),
{
    if !verbose && total >= UPCOMING_N {
        Some(total - UPCOMING_N)
    } else {
        None
    }
}

} // verus!
