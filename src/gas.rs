use vstd::prelude::*;

verus! {

/// The gas meter of one call frame: a limit, what is left of it, and a
/// refund counter.
#[derive(Clone, Copy, Debug, PartialEq, Eq, Structural)]
pub struct Gas {
    pub limit: u64,
    pub remaining: u64,
    pub refunded: i64,
}

impl Gas {
    pub open spec fn wf(self) -> bool {
        self.remaining <= self.limit
    }

    /// A meter with the whole limit left and nothing refunded.
    pub fn new(limit: u64) -> (r: Gas)
        ensures
            r.limit == limit,
            r.remaining == limit,
            r.refunded == 0,
            r.wf(),
    {
        Gas { limit, remaining: limit, refunded: 0 }
    }

    pub fn limit(&self) -> (r: u64)
        ensures
            r == self.limit,
    {
        self.limit
    }

    pub fn remaining(&self) -> (r: u64)
        ensures
            r == self.remaining,
    {
        self.remaining
    }

    pub fn refunded(&self) -> (r: i64)
        ensures
            r == self.refunded,
    {
        self.refunded
    }

    /// Gas used so far.
    pub fn spent(&self) -> (r: u64)
        requires
            self.wf(),
        ensures
            r == self.limit - self.remaining,
    {
        self.limit - self.remaining
    }

    /// Charges `cost`. Succeeds and takes it off the remaining gas exactly when
    /// that much is left; otherwise fails and leaves the meter as it was.
    pub fn record_cost(&mut self, cost: u64) -> (r: bool)
        ensures
            r == (cost <= old(self).remaining),
            r ==> *final(self) == (Gas { remaining: (old(self).remaining - cost) as u64, ..*old(self) }),
            !r ==> *final(self) == *old(self),
    {
        if cost <= self.remaining {
            self.remaining = self.remaining - cost;
            true
        } else {
            false
        }
    }

    /// Adds `refund` (which may be negative) to the refund counter, saturating
    /// at the bounds of `i64`.
    pub fn record_refund(&mut self, refund: i64)
        ensures
            final(self).limit == old(self).limit,
            final(self).remaining == old(self).remaining,
            final(self).refunded == (if old(self).refunded + refund > i64::MAX {
                i64::MAX as int
            } else if old(self).refunded + refund < i64::MIN {
                i64::MIN as int
            } else {
                old(self).refunded + refund
            }),
    {
        let sum: i128 = self.refunded as i128 + refund as i128;
        self.refunded = if sum > i64::MAX as i128 {
            i64::MAX
        } else if sum < i64::MIN as i128 {
            i64::MIN
        } else {
            sum as i64
        };
    }
}

} // verus!
