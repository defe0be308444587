//! Segment scan: after a full sync, the stored versions that the metadata
//! store no longer knows are found in bounded steps and handed out for
//! deletion.
use vstd::prelude::*;
use crate::event::{position, ObjectVersion};
use crate::metrics::{raised, SegmentGcMetrics};

verus! {

/// What one step of the scan found.
#[derive(Debug)]
pub struct ScanStep {
    /// The versions to delete from the device, in the order of its listing.
    pub deletes: Vec<ObjectVersion>,
    /// Whether the listing is exhausted.
    pub finished: bool,
}

/// Whether a scan with the live versions `live` and the watermark
/// `watermark` deletes `version`: it is within the watermark and not alive.
pub open spec fn is_orphan(live: Seq<ObjectVersion>, watermark: u64, version: ObjectVersion) -> bool {
    version <= watermark && !live.contains(version)
}

/// [`is_orphan`] as a predicate on versions.
pub open spec fn orphans(live: Seq<ObjectVersion>, watermark: u64) -> spec_fn(ObjectVersion) -> bool {
    |version: ObjectVersion| is_orphan(live, watermark, version)
}

/// One scan of the device against a snapshot of the metadata store.
#[derive(Debug)]
pub struct SegmentGc {
    machine: Vec<ObjectVersion>,
    next_commit: u64,
    step: u64,
    listed: bool,
    stored: Vec<ObjectVersion>,
    cursor: usize,
    metrics: SegmentGcMetrics,
}

impl SegmentGc {
    /// The live versions of the snapshot.
    pub closed spec fn live(&self) -> Seq<ObjectVersion> {
        self.machine@
    }

    /// The commit up to which the snapshot speaks; newer versions are out of
    /// the scan's scope.
    pub closed spec fn watermark(&self) -> u64 {
        self.next_commit
    }

    /// Number of stored versions examined per step.
    pub closed spec fn step(&self) -> u64 {
        self.step
    }

    /// The device's listing, once it has arrived.
    pub closed spec fn stored(&self) -> Option<Seq<ObjectVersion>> {
        if self.listed {
            Some(self.stored@)
        } else {
            None
        }
    }

    /// Number of listed versions examined so far.
    pub closed spec fn cursor(&self) -> nat {
        self.cursor as nat
    }

    /// The progress gauges.
    pub closed spec fn metrics(&self) -> SegmentGcMetrics {
        self.metrics
    }

    /// The scan has not run past the listing.
    pub closed spec fn wf(&self) -> bool {
        &&& self.cursor <= self.stored@.len()
        &&& !self.listed ==> self.stored@.len() == 0
    }

    /// Number of versions that the next step examines.
    pub open spec fn stride(&self) -> nat {
        match self.stored() {
            Some(stored) => if self.step() <= stored.len() - self.cursor() {
                self.step() as nat
            } else {
                (stored.len() - self.cursor()) as nat
            },
            None => 0,
        }
    }

    /// The part of the listing that the next step examines.
    pub open spec fn window(&self) -> Seq<ObjectVersion> {
        match self.stored() {
            Some(stored) => stored.subrange(
                self.cursor() as int,
                (self.cursor() + self.stride()) as int,
            ),
            None => Seq::empty(),
        }
    }

    /// The versions that the next step hands out for deletion.
    pub open spec fn found(&self) -> Seq<ObjectVersion> {
        self.window().filter(orphans(self.live(), self.watermark()))
    }

    /// Whether the next step reaches the end of the listing.
    pub open spec fn exhausts(&self) -> bool {
        self.stored() is Some && self.cursor() + self.stride() == self.stored()->0.len()
    }

    /// `self` has the snapshot, the step and the listing of `before`.
    pub open spec fn same_scan(&self, before: &Self) -> bool {
        &&& self.live() == before.live()
        &&& self.watermark() == before.watermark()
        &&& self.step() == before.step()
        &&& self.stored() == before.stored()
    }

    /// `self` is `before` after the listing `stored` arrived: a scan that
    /// waited for it takes it, another keeps what it has.
    pub open spec fn listed_from(&self, before: &Self, stored: Seq<ObjectVersion>) -> bool {
        &&& self.live() == before.live()
        &&& self.watermark() == before.watermark()
        &&& self.step() == before.step()
        &&& self.cursor() == before.cursor()
        &&& if before.stored() is Some {
            self.stored() == before.stored() && self.metrics() == before.metrics()
        } else {
            self.stored() == Some(stored) && self.metrics() == (SegmentGcMetrics {
                scanned: 0,
                deleted: 0,
                remaining: stored.len() as u64,
            })
        }
    }

    /// `self` is `before` after one step.
    pub open spec fn polled_from(&self, before: &Self) -> bool {
        &&& self.same_scan(before)
        &&& self.cursor() == before.cursor() + before.stride()
        &&& match before.stored() {
            Some(stored) => self.metrics() == (SegmentGcMetrics {
                scanned: self.cursor() as u64,
                deleted: raised(before.metrics().deleted, before.found().len()),
                remaining: (stored.len() - self.cursor()) as u64,
            }),
            None => self.metrics() == before.metrics(),
        }
    }

    /// A scan against the live versions `machine` up to the commit
    /// `next_commit`, which examines `step` stored versions at a time and
    /// still waits for the device's listing.
    pub fn new(machine: Vec<ObjectVersion>, next_commit: u64, step: u64) -> (gc: Self)
        ensures
            gc.wf(),
            gc.live() == machine@,
            gc.watermark() == next_commit,
            gc.step() == step,
            gc.stored() is None,
            gc.cursor() == 0,
            gc.metrics() == (SegmentGcMetrics { scanned: 0, deleted: 0, remaining: 0 }),
    {
        SegmentGc {
            machine,
            next_commit,
            step,
            listed: false,
            stored: Vec::new(),
            cursor: 0,
            metrics: SegmentGcMetrics::new(),
        }
    }

    /// Whether the scan still waits for the device's listing.
    pub fn awaits_listing(&self) -> (waiting: bool)
        ensures
            waiting == (self.stored() is None),
    {
        !self.listed
    }

    /// Replaces the number of stored versions examined per step.
    pub fn set_step(&mut self, step: u64)
        requires
            old(self).wf(),
        ensures
            final(self).wf(),
            final(self).step() == step,
            final(self).live() == old(self).live(),
            final(self).watermark() == old(self).watermark(),
            final(self).stored() == old(self).stored(),
            final(self).cursor() == old(self).cursor(),
            final(self).metrics() == old(self).metrics(),
    {
        self.step = step;
    }

    /// Takes the device's listing of its stored versions. A scan that has
    /// its listing keeps it and ignores another.
    pub fn start(&mut self, stored: Vec<ObjectVersion>)
        requires
            old(self).wf(),
        ensures
            final(self).wf(),
            final(self).listed_from(old(self), stored@),
    {
        if !self.listed {
            self.metrics = SegmentGcMetrics { scanned: 0, deleted: 0, remaining: stored.len() as u64 };
            self.stored = stored;
            self.listed = true;
        }
    }

    /// Examines the next `step` versions of the listing, or what is left of
    /// it, and returns those to delete: the versions within the watermark
    /// that the snapshot does not hold. Before the listing has arrived
    /// nothing is examined.
    pub fn poll(&mut self) -> (found: ScanStep)
        requires
            old(self).wf(),
        ensures
            final(self).wf(),
            final(self).polled_from(old(self)),
            found.deletes@ == old(self).found(),
            found.finished == old(self).exhausts(),
            forall|i: int|
                0 <= i < found.deletes@.len() ==> is_orphan(
                    old(self).live(),
                    old(self).watermark(),
                    #[trigger] found.deletes@[i],
                ),
    {
        let mut deletes: Vec<ObjectVersion> = Vec::new();
        let ghost doomed = orphans(self.machine@, self.next_commit);
        proof {
            reveal(Seq::filter);
            assert(Seq::<ObjectVersion>::empty().filter(doomed).len() == 0);
        }
        if !self.listed {
            assert(self.window() == Seq::<ObjectVersion>::empty());
            return ScanStep { deletes, finished: false };
        }
        let left = self.stored.len() - self.cursor;
        let stride: usize = if self.step <= left as u64 {
            self.step as usize
        } else {
            left
        };
        let start = self.cursor;
        let ghost stored = self.stored@;
        let mut deleted = self.metrics.deleted;
        let mut i: usize = 0;
        proof {
            assert(stored.subrange(start as int, start as int) == Seq::<ObjectVersion>::empty());
        }
        while i < stride
            invariant
                i <= stride,
                start + stride <= self.stored.len(),
                stored == self.stored@,
                doomed == orphans(self.machine@, self.next_commit),
                deletes@ == stored.subrange(start as int, start + i).filter(doomed),
                deleted == raised(old(self).metrics.deleted, deletes@.len()),
                forall|k: int|
                    0 <= k < deletes@.len() ==> is_orphan(
                        self.machine@,
                        self.next_commit,
                        #[trigger] deletes@[k],
                    ),
            decreases stride - i,
        {
            let version = self.stored[start + i];
            proof {
                let seen = stored.subrange(start as int, start + i);
                assert(stored.subrange(start as int, start + i + 1) == seen.push(version));
                seen.lemma_filter_push(version, doomed);
                assert(doomed(version) == is_orphan(self.machine@, self.next_commit, version));
            }
            if version <= self.next_commit && position(&self.machine, version).is_none() {
                deletes.push(version);
                if deleted < u64::MAX {
                    deleted = deleted + 1;
                }
            }
            i += 1;
        }
        self.cursor = start + stride;
        self.metrics = SegmentGcMetrics {
            scanned: self.cursor as u64,
            deleted,
            remaining: (self.stored.len() - self.cursor) as u64,
        };
        let finished = self.cursor == self.stored.len();
        ScanStep { deletes, finished }
    }

    /// The steps of a scan take the listing piece by piece, in order, with
    /// no version skipped and none taken twice: what was handed out before
    /// a step, followed by what the step hands out, is what a single pass
    /// over the listing up to the step's end hands out.
    pub proof fn lemma_step_extends_scan(&self)
        requires
            self.wf(),
            self.stored() is Some,
        ensures
            self.cursor() + self.stride() <= self.stored()->0.len(),
            self.stored()->0.take((self.cursor() + self.stride()) as int).filter(
                orphans(self.live(), self.watermark()),
            ) == self.stored()->0.take(self.cursor() as int).filter(
                orphans(self.live(), self.watermark()),
            ) + self.found(),
    {
        let stored = self.stored()->0;
        let doomed = orphans(self.live(), self.watermark());
        let end = (self.cursor() + self.stride()) as int;
        assert(stored.take(end) == stored.take(self.cursor() as int) + self.window());
        Seq::filter_distributes_over_add(stored.take(self.cursor() as int), self.window(), doomed);
    }

    /// The progress gauges.
    pub fn progress(&self) -> (metrics: SegmentGcMetrics)
        ensures
            metrics == self.metrics(),
    {
        self.metrics
    }
}

} // verus!
