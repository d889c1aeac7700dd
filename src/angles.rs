//! Angles and periodic coordinates in fixed point: an angle is a whole
//! number of microradians, and a full turn is `TAU` of them.
use vstd::prelude::*;

verus! {

/// Microradians in one radian.
pub const MICRO: i64 = 1_000_000;

/// A full turn, in microradians.
pub const TAU: i64 = 6_283_185;

/// Bound on the magnitude of the values these functions take.
pub const ANGLE_BOUND: i64 = 0x1000_0000_0000_0000;

/// `x` brought into `[0, period)` by whole periods.
pub open spec fn coterminal_spec(x: int, period: int) -> int {
    x % period
}

/// The difference `a - b` brought into `(-period / 2, period / 2]` by whole
/// periods: the signed shortest way from `b` to `a` on a circle of
/// circumference `period`.
pub open spec fn loopize_about_spec(a: int, b: int, period: int) -> int {
    let r = (a - b) % period;
    if 2 * r > period {
        r - period
    } else {
        r
    }
}

/// `x` brought into `[0, period)` by whole periods.
pub fn coterminal(x: i64, period: i64) -> (r: i64)
    requires
        period > 0,
    ensures
        r == coterminal_spec(x as int, period as int),
        0 <= r < period,
{
    match x.checked_rem_euclid(period) {
        Some(r) => r,
        None => 0,
    }
}

/// The signed difference `a - b` brought into `(-period / 2, period / 2]`.
pub fn loopize_about(a: i64, b: i64, period: i64) -> (r: i64)
    requires
        -ANGLE_BOUND <= a <= ANGLE_BOUND,
        -ANGLE_BOUND <= b <= ANGLE_BOUND,
        0 < period <= ANGLE_BOUND,
    ensures
        r == loopize_about_spec(a as int, b as int, period as int),
        -period < 2 * r <= period,
{
    let m = coterminal(a - b, period);
    if m > period - m {
        m - period
    } else {
        m
    }
}

/// The signed turn from angle `b` to angle `a`, the short way round.
pub fn loopize(a: i64, b: i64) -> (r: i64)
    requires
        -ANGLE_BOUND <= a <= ANGLE_BOUND,
        -ANGLE_BOUND <= b <= ANGLE_BOUND,
    ensures
        r == loopize_about_spec(a as int, b as int, TAU as int),
        -TAU < 2 * r <= TAU,
{
    loopize_about(a, b, TAU)
}

} // verus!
