//! Small arithmetic helpers shared by the statistic components.
//!
//! Counters saturate at the top of their carrier type instead of wrapping
//! or panicking, and time differences are clamped at zero where a
//! non-negative duration is recorded from a stream that may deliver
//! packets out of timestamp order.

use vstd::prelude::*;

use crate::running_stat::capped;

verus! {

/// `x`, or zero when `x` is negative.
pub open spec fn clamp0(x: int) -> int {
    if x < 0 {
        0
    } else {
        x
    }
}

/// Saturating addition on `u32`.
pub fn sat_add_u32(a: u32, b: u32) -> (r: u32)
    ensures
        r == capped(a + b, u32::MAX as int),
{
    if b <= u32::MAX - a {
        a + b
    } else {
        u32::MAX
    }
}

/// Saturating addition on `u64`.
pub fn sat_add_u64(a: u64, b: u64) -> (r: u64)
    ensures
        r == capped(a + b, u64::MAX as int),
{
    if b <= u64::MAX - a {
        a + b
    } else {
        u64::MAX
    }
}

/// The time elapsed from `before` to `now` in microseconds, clamped at
/// zero when `now` precedes `before`.
pub fn elapsed_clamped(now: i64, before: i64) -> (r: u64)
    ensures
        r == clamp0(now - before),
{
    if now >= before {
        let wide: i128 = (now as i128) - (before as i128);
        wide as u64
    } else {
        0
    }
}

/// The smaller of two timestamps.
pub fn min_i64(a: i64, b: i64) -> (r: i64)
    ensures
        r == if a <= b { a } else { b },
{
    if a <= b {
        a
    } else {
        b
    }
}

/// The larger of two timestamps.
pub fn max_i64(a: i64, b: i64) -> (r: i64)
    ensures
        r == if a >= b { a } else { b },
{
    if a >= b {
        a
    } else {
        b
    }
}

} // verus!
