//! Events of the metadata store that the synchronizer reacts to.
use vstd::prelude::*;

verus! {

/// Identity of an object's bytes at one commit of the metadata store.
pub type ObjectVersion = u64;

/// One message of the metadata store's event stream.
#[derive(Clone, Debug)]
pub enum Event {
    /// An object was committed.
    Putted { version: ObjectVersion },
    /// An object was removed.
    Deleted { version: ObjectVersion },
    /// The authoritative object set: `machine` lists the live versions up to
    /// the commit `next_commit`.
    FullSync { machine: Vec<ObjectVersion>, next_commit: u64 },
}

/// Where `version` first stands in `versions`, if it does.
pub fn position(versions: &Vec<ObjectVersion>, version: ObjectVersion) -> (at: Option<usize>)
    ensures
        at is None <==> !versions@.contains(version),
        at is Some ==> at->0 < versions.len() && versions[at->0 as int] == version
            && !versions@.take(at->0 as int).contains(version),
{
    let mut i: usize = 0;
    while i < versions.len()
        invariant
            i <= versions.len(),
            !versions@.take(i as int).contains(version),
        decreases versions.len() - i,
    {
        if versions[i] == version {
            return Some(i);
        }
        proof {
            let next = versions@.take(i as int + 1);
            assert forall|k: int| 0 <= k < next.len() implies next[k] != version by {
                if k < i {
                    assert(versions@.take(i as int)[k] == next[k]);
                    assert(versions@.take(i as int).contains(next[k]));
                }
            }
        }
        i += 1;
    }
    proof {
        assert(versions@.take(i as int) == versions@);
    }
    None
}

} // verus!
