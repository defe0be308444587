//! Segment synchronizer of a storage node: the decisions that keep a segment's
//! local content in line with the metadata store, written as verified state
//! machines. The embedding program performs the device and network operations
//! that the machines ask for and hands their outcomes back.
use vstd::prelude::*;

pub mod bucket;
pub mod command;
pub mod event;
pub mod general_queue;
pub mod metrics;
pub mod repair;
pub mod repair_queue;
pub mod segment_gc;
pub mod synchronizer;

verus! {

/// Time, in milliseconds, that the daemon waits for its services when it stops.
pub fn default_stop_waiting_time() -> (millis: u64)
    ensures
        millis == 10,
{
    10
}

/// Time, in milliseconds, after which an RPC connection attempt is given up.
pub fn default_tcp_connect_timeout() -> (millis: u64)
    ensures
        millis == 5000,
{
    5000
}

/// Time, in milliseconds, after which an RPC write is given up.
pub fn default_tcp_write_timeout() -> (millis: u64)
    ensures
        millis == 5000,
{
    5000
}

/// Number of log records that may be in processing at once.
pub fn default_max_concurrent_logs() -> (n: usize)
    ensures
        n == 4096,
{
    4096
}

} // verus!
