//! Runtime knobs of the repair machinery.
use vstd::prelude::*;

verus! {

/// When the repair queue may start new jobs.
#[derive(Clone, Copy, PartialEq, Eq, Structural, Debug)]
pub enum RepairIdleness {
    /// Start a job only after the segment has seen no client operation for
    /// this many milliseconds.
    Threshold(u64),
    /// The idleness gate is off: a job starts whatever the client traffic is.
    Disabled,
}

impl RepairIdleness {
    /// Whether a segment that has been quiet for `idle_for_millis` may start
    /// a repair. `None` stands for a missing idleness signal, which counts as
    /// "not idle".
    pub open spec fn admits(self, idle_for_millis: Option<u64>) -> bool {
        match self {
            RepairIdleness::Disabled => true,
            RepairIdleness::Threshold(d) => match idle_for_millis {
                Some(quiet) => quiet >= d,
                None => false,
            },
        }
    }

    /// Executable form of [`RepairIdleness::admits`].
    pub fn is_admitting(&self, idle_for_millis: Option<u64>) -> (open: bool)
        ensures
            open == self.admits(idle_for_millis),
    {
        match *self {
            RepairIdleness::Disabled => true,
            RepairIdleness::Threshold(d) => match idle_for_millis {
                Some(quiet) => quiet >= d,
                None => false,
            },
        }
    }
}

/// A control message: each field that is `Some` replaces the matching knob,
/// each field that is `None` leaves it as it is.
#[derive(Clone, Copy, PartialEq, Eq, Structural, Debug)]
pub struct RepairConfig {
    /// Largest number of repair jobs in flight.
    pub repair_concurrency_limit: Option<u64>,
    /// Idleness gate of the repair queue.
    pub repair_idleness_threshold: Option<RepairIdleness>,
    /// Number of stored versions that a segment scan examines per step.
    pub segment_gc_concurrency_limit: Option<u64>,
}

impl Default for RepairConfig {
    fn default() -> (config: Self)
        ensures
            config == (RepairConfig {
                repair_concurrency_limit: None,
                repair_idleness_threshold: None,
                segment_gc_concurrency_limit: None,
            }),
    {
        RepairConfig {
            repair_concurrency_limit: None,
            repair_idleness_threshold: None,
            segment_gc_concurrency_limit: None,
        }
    }
}

} // verus!
