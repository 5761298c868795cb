//! Online accumulator of count, sum, minimum, maximum and sum of squares
//! over a stream of unsigned integers.
//!
//! The accumulator is single-pass and constant-memory. All aggregates are
//! kept in exact integer arithmetic (saturating at the top of their types),
//! so the mean `sum / count` and the sample variance
//! `(count * sum_squares - sum * sum) / (count * (count - 1))` are the exact
//! rationals that Welford's recurrence computes when run without rounding;
//! no precision is lost over long streams. Consumers that want them as
//! floating-point numbers divide at the end.

use vstd::prelude::*;

verus! {

/// The sum of a sequence of values, as an unbounded integer.
pub open spec fn seq_sum(s: Seq<u64>) -> int
    decreases s.len(),
{
    if s.len() == 0 {
        0
    } else {
        seq_sum(s.drop_last()) + s.last()
    }
}

/// The sum of the squares of a sequence of values, as an unbounded integer.
pub open spec fn seq_sum_squares(s: Seq<u64>) -> int
    decreases s.len(),
{
    if s.len() == 0 {
        0
    } else {
        seq_sum_squares(s.drop_last()) + s.last() * s.last()
    }
}

/// The least value of a sequence, `u64::MAX` when it is empty.
pub open spec fn seq_min(s: Seq<u64>) -> u64
    decreases s.len(),
{
    if s.len() == 0 {
        u64::MAX
    } else if s.last() < seq_min(s.drop_last()) {
        s.last()
    } else {
        seq_min(s.drop_last())
    }
}

/// The greatest value of a sequence, `0` when it is empty.
pub open spec fn seq_max(s: Seq<u64>) -> u64
    decreases s.len(),
{
    if s.len() == 0 {
        0
    } else if s.last() > seq_max(s.drop_last()) {
        s.last()
    } else {
        seq_max(s.drop_last())
    }
}

/// `x` capped at `cap`.
pub open spec fn capped(x: int, cap: int) -> int {
    if x <= cap {
        x
    } else {
        cap
    }
}

/// An online statistic over the stream of values included so far.
pub struct RunningStat {
    count: u64,
    sum: u64,
    min: u64,
    max: u64,
    sum_squares: u128,
    values: Ghost<Seq<u64>>,
}

impl RunningStat {
    /// The stream of values included so far, most recent last.
    pub closed spec fn values(self) -> Seq<u64> {
        self.values@
    }

    /// The aggregates exactly reflect the included stream: the count, sum
    /// and sum of squares are the true ones, each saturating at the top of
    /// its carrier type, and min and max are the true extrema.
    pub closed spec fn wf(self) -> bool {
        &&& self.count == capped(self.values@.len() as int, u64::MAX as int)
        &&& self.sum == capped(seq_sum(self.values@), u64::MAX as int)
        &&& self.sum_squares == capped(seq_sum_squares(self.values@), u128::MAX as int)
        &&& self.min == seq_min(self.values@)
        &&& self.max == seq_max(self.values@)
    }

    /// A fresh accumulator over the empty stream.
    pub fn new() -> (r: RunningStat)
        ensures
            r.wf(),
            r.values() == Seq::<u64>::empty(),
    {
        RunningStat {
            count: 0,
            sum: 0,
            min: u64::MAX,
            max: 0,
            sum_squares: 0,
            values: Ghost(Seq::empty()),
        }
    }

    /// Accumulate one more value into the stream.
    pub fn accumulate(&mut self, value: u64)
        requires
            old(self).wf(),
        ensures
            final(self).wf(),
            final(self).values() == old(self).values().push(value),
    {
        proof {
            let s = self.values@;
            assert(s.push(value).drop_last() =~= s);
            assert(s.push(value).last() == value);
        }
        self.count = if self.count < u64::MAX {
            self.count + 1
        } else {
            u64::MAX
        };
        self.sum = if value <= u64::MAX - self.sum {
            self.sum + value
        } else {
            u64::MAX
        };
        if value < self.min {
            self.min = value;
        }
        if value > self.max {
            self.max = value;
        }
        proof {
            assert(0 <= (value as int) * (value as int) < u128::MAX) by (nonlinear_arith)
                requires value <= u64::MAX;
        }
        let sq: u128 = (value as u128) * (value as u128);
        self.sum_squares = if sq <= u128::MAX - self.sum_squares {
            self.sum_squares + sq
        } else {
            u128::MAX
        };
        proof {
            self.values@ = self.values@.push(value);
        }
    }

    /// The number of values included, saturating at `u64::MAX`.
    pub fn current_count(&self) -> (r: u64)
        requires
            self.wf(),
        ensures
            r == capped(self.values().len() as int, u64::MAX as int),
    {
        self.count
    }

    /// The sum of the values included, saturating at `u64::MAX`.
    pub fn current_sum(&self) -> (r: u64)
        requires
            self.wf(),
        ensures
            r == capped(seq_sum(self.values()), u64::MAX as int),
    {
        self.sum
    }

    /// The sum of the squares of the values included, saturating at
    /// `u128::MAX`.
    pub fn current_sum_squares(&self) -> (r: u128)
        requires
            self.wf(),
        ensures
            r == capped(seq_sum_squares(self.values()), u128::MAX as int),
    {
        self.sum_squares
    }

    /// The least value included, absent while the stream is empty.
    pub fn current_min(&self) -> (r: Option<u64>)
        requires
            self.wf(),
        ensures
            match r {
                Some(v) => self.values().len() > 0 && v == seq_min(self.values()),
                None => self.values().len() == 0,
            },
    {
        if self.count == 0 {
            None
        } else {
            Some(self.min)
        }
    }

    /// The greatest value included, absent while the stream is empty.
    pub fn current_max(&self) -> (r: Option<u64>)
        requires
            self.wf(),
        ensures
            match r {
                Some(v) => self.values().len() > 0 && v == seq_max(self.values()),
                None => self.values().len() == 0,
            },
    {
        if self.count == 0 {
            None
        } else {
            Some(self.max)
        }
    }
}

} // verus!
