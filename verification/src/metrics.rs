//! Counters of queued work and gauges of the segment scan.
use vstd::prelude::*;

verus! {

/// `count` raised by `by`, held at the largest value a counter can show.
pub open spec fn raised(count: u64, by: nat) -> u64 {
    if count + by <= u64::MAX {
        (count + by) as u64
    } else {
        u64::MAX
    }
}

/// How many items of one class entered a queue and how many left it.
#[derive(Clone, Copy, PartialEq, Eq, Structural, Debug)]
pub struct ItemCounter {
    /// Items that entered.
    pub enqueued: u64,
    /// Items that left.
    pub dequeued: u64,
}

impl ItemCounter {
    /// A counter that has seen nothing.
    pub fn new() -> (counter: Self)
        ensures
            counter == (ItemCounter { enqueued: 0, dequeued: 0 }),
    {
        ItemCounter { enqueued: 0, dequeued: 0 }
    }

    /// Neither number of `self` is below that of `earlier`.
    pub open spec fn at_least(self, earlier: ItemCounter) -> bool {
        self.enqueued >= earlier.enqueued && self.dequeued >= earlier.dequeued
    }

    /// Records one more item that entered.
    pub fn record_enqueued(&mut self)
        ensures
            final(self).enqueued == raised(old(self).enqueued, 1),
            final(self).dequeued == old(self).dequeued,
    {
        if self.enqueued < u64::MAX {
            self.enqueued = self.enqueued + 1;
        }
    }

    /// Records one more item that left.
    pub fn record_dequeued(&mut self)
        ensures
            final(self).dequeued == raised(old(self).dequeued, 1),
            final(self).enqueued == old(self).enqueued,
    {
        if self.dequeued < u64::MAX {
            self.dequeued = self.dequeued + 1;
        }
    }
}

/// Progress of a segment scan.
#[derive(Clone, Copy, PartialEq, Eq, Structural, Debug)]
pub struct SegmentGcMetrics {
    /// Stored versions examined so far.
    pub scanned: u64,
    /// Stored versions scheduled for deletion so far.
    pub deleted: u64,
    /// Stored versions still to examine.
    pub remaining: u64,
}

impl SegmentGcMetrics {
    /// Gauges that show no scan.
    pub fn new() -> (metrics: Self)
        ensures
            metrics == (SegmentGcMetrics { scanned: 0, deleted: 0, remaining: 0 }),
    {
        SegmentGcMetrics { scanned: 0, deleted: 0, remaining: 0 }
    }

    /// Puts every gauge back to zero.
    pub fn reset(&mut self)
        ensures
            *final(self) == (SegmentGcMetrics { scanned: 0, deleted: 0, remaining: 0 }),
    {
        self.scanned = 0;
        self.deleted = 0;
        self.remaining = 0;
    }
}

} // verus!
