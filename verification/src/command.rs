//! The `set-repair-config` command: from what was given on the command line
//! to the control message for the node.
use vstd::prelude::*;
use crate::repair::{RepairConfig, RepairIdleness};

verus! {

/// The command `set-repair-config`.
#[derive(Clone, Copy, Debug)]
pub struct SetRepairConfigCommand;

/// What the command line of `set-repair-config` gave, as plain values.
#[derive(Clone, Copy, PartialEq, Eq, Structural, Debug)]
pub struct RepairConfigMatches {
    /// Whether `--disable-repair-idleness` was given.
    pub disable_repair_idleness: bool,
    /// The value of `--repair-idleness-threshold`, in milliseconds, if the
    /// flag was given.
    pub repair_idleness_threshold_millis: Option<u64>,
}

impl SetRepairConfigCommand {
    /// The idleness gate that `matches` asks for. Where the idleness gate is
    /// disabled, a threshold given beside it is ignored.
    pub open spec fn idleness_of(matches: RepairConfigMatches) -> Option<RepairIdleness> {
        if matches.disable_repair_idleness {
            Some(RepairIdleness::Disabled)
        } else {
            match matches.repair_idleness_threshold_millis {
                Some(millis) => Some(RepairIdleness::Threshold(millis)),
                None => None,
            }
        }
    }

    /// The control message for `matches`: it sets the idleness gate that the
    /// command line asks for and leaves the two limits as they are.
    pub fn get_repair_config_from_matches(matches: &RepairConfigMatches) -> (config: RepairConfig)
        ensures
            config == (RepairConfig {
                repair_concurrency_limit: None,
                repair_idleness_threshold: Self::idleness_of(*matches),
                segment_gc_concurrency_limit: None,
            }),
    {
        let repair_idleness_threshold = if matches.disable_repair_idleness {
            Some(RepairIdleness::Disabled)
        } else {
            match matches.repair_idleness_threshold_millis {
                Some(millis) => Some(RepairIdleness::Threshold(millis)),
                None => None,
            }
        };
        RepairConfig {
            repair_concurrency_limit: None,
            repair_idleness_threshold,
            segment_gc_concurrency_limit: None,
        }
    }

    /// Whenever `--disable-repair-idleness` is given, the idleness gate is disabled,
    /// whatever threshold is given beside it.
    pub proof fn lemma_disable_wins(threshold_millis: Option<u64>)
        ensures
            Self::idleness_of(
                RepairConfigMatches {
                    disable_repair_idleness: true,
                    repair_idleness_threshold_millis: threshold_millis,
                },
            ) == Some(RepairIdleness::Disabled),
    {
    }
}

} // verus!
