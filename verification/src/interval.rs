//! Closed ranges of distance keys.

use vstd::prelude::*;

verus! {

/// A closed range `[low, high]` of distance keys.
///
/// Nothing forces `low <= high`: a range with `low > high` holds no key.
#[derive(Clone, Copy, Debug, PartialEq, Eq, Structural)]
pub struct Interval {
    pub low: i64,
    pub high: i64,
}

impl Interval {
    /// Whether `num` lies in the range, both ends included.
    pub open spec fn holds(self, num: i64) -> bool {
        self.low <= num && num <= self.high
    }

    /// The range from `low` to `high`, both ends included.
    pub fn new(low: i64, high: i64) -> (made: Interval)
        ensures
            made.low == low,
            made.high == high,
    {
        Interval { low, high }
    }

    /// Whether `num` lies in the range, both ends included.
    pub fn contains(&self, num: i64) -> (inside: bool)
        ensures
            inside == self.holds(num),
    {
        self.low <= num && num <= self.high
    }

    /// Moves the upper end to `h` and leaves the lower end alone.
    pub fn shrink_right(&mut self, h: i64)
        ensures
            final(self).low == old(self).low,
            final(self).high == h,
    {
        self.high = h;
    }
}

/// Moving the upper end down to a key of the range only narrows the range:
/// whatever the narrowed range holds, the range held before, and it is no
/// farther than the new end.
pub proof fn lemma_shrink_right_narrows(before: Interval, h: i64, num: i64)
    requires
        before.holds(h),
    ensures
        (Interval { low: before.low, high: h }).holds(num) <==> before.holds(num) && num <= h,
{
}

} // verus!
