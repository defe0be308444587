//! The repair queue: versions whose content must be rebuilt from the peers,
//! started in arrival order under a concurrency limit and an idleness gate.
use vstd::prelude::*;
use crate::event::{position, ObjectVersion};
use crate::metrics::{ItemCounter, raised};
use crate::repair::RepairIdleness;

verus! {

/// Number of repair jobs that may be in flight when nothing else was asked for.
pub const DEFAULT_REPAIR_CONCURRENCY_LIMIT: u64 = 1;

/// Taking the first of `waiting` into `started` keeps both free of repeats
/// and apart from each other.
proof fn lemma_start_keeps_apart(waiting: Seq<ObjectVersion>, started: Seq<ObjectVersion>)
    requires
        waiting.len() > 0,
        waiting.no_duplicates(),
        started.no_duplicates(),
        forall|v: ObjectVersion| !(waiting.contains(v) && started.contains(v)),
    ensures
        waiting.skip(1).no_duplicates(),
        started.push(waiting[0]).no_duplicates(),
        forall|v: ObjectVersion|
            !(waiting.skip(1).contains(v) && started.push(waiting[0]).contains(v)),
        forall|v: ObjectVersion|
            (waiting.skip(1).contains(v) || started.push(waiting[0]).contains(v)) <==> (
            waiting.contains(v) || started.contains(v)),
{
    let rest = waiting.skip(1);
    let more = started.push(waiting[0]);
    assert(waiting.contains(waiting[0]));
    assert forall|i: int, j: int| 0 <= i < rest.len() && 0 <= j < rest.len() && i != j implies rest[i]
        != rest[j] by {
        assert(rest[i] == waiting[i + 1] && rest[j] == waiting[j + 1]);
    }
    assert forall|i: int, j: int| 0 <= i < more.len() && 0 <= j < more.len() && i != j implies more[i]
        != more[j] by {
        if i < started.len() {
            assert(started.contains(more[i]));
        }
        if j < started.len() {
            assert(started.contains(more[j]));
        }
    }
    assert forall|v: ObjectVersion| rest.contains(v) implies waiting.contains(v) && v != waiting[0] by {
        let i = choose|i: int| 0 <= i < rest.len() && rest[i] == v;
        assert(waiting[i + 1] == v);
    }
    assert forall|v: ObjectVersion| more.contains(v) implies started.contains(v) || v == waiting[0] by {
        let i = choose|i: int| 0 <= i < more.len() && more[i] == v;
        if i < started.len() {
            assert(started[i] == v);
        }
    }
    assert forall|v: ObjectVersion| waiting.contains(v) || started.contains(v) implies rest.contains(v)
        || more.contains(v) by {
        if started.contains(v) {
            let i = choose|i: int| 0 <= i < started.len() && started[i] == v;
            assert(more[i] == v);
        } else {
            let i = choose|i: int| 0 <= i < waiting.len() && waiting[i] == v;
            if i == 0 {
                assert(more[started.len() as int] == v);
            } else {
                assert(rest[i - 1] == v);
            }
        }
    }
}

/// Taking the first `count` of `waiting` into `started`, one after the
/// other, keeps both free of repeats and apart from each other, and the
/// versions held are the same.
proof fn lemma_start_many_keeps_apart(
    waiting: Seq<ObjectVersion>,
    started: Seq<ObjectVersion>,
    count: int,
)
    requires
        0 <= count <= waiting.len(),
        waiting.no_duplicates(),
        started.no_duplicates(),
        forall|v: ObjectVersion| !(waiting.contains(v) && started.contains(v)),
    ensures
        waiting.skip(count).no_duplicates(),
        (started + waiting.take(count)).no_duplicates(),
        forall|v: ObjectVersion|
            !(waiting.skip(count).contains(v) && (started + waiting.take(count)).contains(v)),
        forall|v: ObjectVersion|
            (waiting.skip(count).contains(v) || (started + waiting.take(count)).contains(v)) <==> (
            waiting.contains(v) || started.contains(v)),
    decreases count,
{
    if count == 0 {
        assert(waiting.skip(0) == waiting);
        assert(started + waiting.take(0) == started);
    } else {
        lemma_start_many_keeps_apart(waiting, started, count - 1);
        let rest = waiting.skip(count - 1);
        let under_way = started + waiting.take(count - 1);
        lemma_start_keeps_apart(rest, under_way);
        assert(rest.skip(1) == waiting.skip(count));
        assert(under_way.push(rest[0]) == started + waiting.take(count));
    }
}

/// Removing the entry at `at` from a sequence without repeats removes its
/// value and nothing else.
proof fn lemma_remove_from_distinct(versions: Seq<ObjectVersion>, at: int)
    requires
        versions.no_duplicates(),
        0 <= at < versions.len(),
    ensures
        versions.remove(at).no_duplicates(),
        versions.index_of(versions[at]) == at,
        forall|v: ObjectVersion|
            versions.remove(at).contains(v) <==> (versions.contains(v) && v != versions[at]),
{
    let left = versions.remove(at);
    assert(versions.contains(versions[at]));
    assert forall|i: int, j: int| 0 <= i < left.len() && 0 <= j < left.len() && i != j implies left[i]
        != left[j] by {
        let a = if i < at { i } else { i + 1 };
        let b = if j < at { j } else { j + 1 };
        assert(left[i] == versions[a] && left[j] == versions[b]);
    }
    assert forall|v: ObjectVersion| left.contains(v) implies versions.contains(v) && v != versions[at] by {
        let i = choose|i: int| 0 <= i < left.len() && left[i] == v;
        let a = if i < at { i } else { i + 1 };
        assert(versions[a] == v);
    }
    assert forall|v: ObjectVersion| versions.contains(v) && v != versions[at] implies left.contains(v) by {
        let a = choose|a: int| 0 <= a < versions.len() && versions[a] == v;
        let i = if a < at { a } else { a - 1 };
        assert(left[i] == v);
    }
}

/// The queue of repairs with its knobs and its counter.
#[derive(Debug)]
pub struct RepairQueueExecutor {
    pending: Vec<ObjectVersion>,
    in_flight: Vec<ObjectVersion>,
    concurrency_limit: u64,
    idleness_threshold: RepairIdleness,
    repair: ItemCounter,
}

impl RepairQueueExecutor {
    /// The versions that wait, oldest first.
    pub closed spec fn pending(&self) -> Seq<ObjectVersion> {
        self.pending@
    }

    /// The versions whose repair is under way, in the order they started.
    pub closed spec fn in_flight(&self) -> Seq<ObjectVersion> {
        self.in_flight@
    }

    /// Largest number of repairs under way at once.
    pub closed spec fn concurrency_limit(&self) -> u64 {
        self.concurrency_limit
    }

    /// The idleness gate.
    pub closed spec fn idleness_threshold(&self) -> RepairIdleness {
        self.idleness_threshold
    }

    /// Counter of the repairs.
    pub closed spec fn repair_counter(&self) -> ItemCounter {
        self.repair
    }

    /// A version waits at most once, is under way at most once, and never
    /// both.
    pub open spec fn wf(&self) -> bool {
        &&& self.pending().no_duplicates()
        &&& self.in_flight().no_duplicates()
        &&& forall|v: ObjectVersion| !(self.pending().contains(v) && self.in_flight().contains(v))
    }

    /// Whether `version` waits or is under way.
    pub open spec fn holds(&self, version: ObjectVersion) -> bool {
        self.pending().contains(version) || self.in_flight().contains(version)
    }

    /// Number of repairs that a poll starts when the segment has been quiet
    /// for `idle_for_millis`: none while the idleness gate is shut, else as many as
    /// wait and as the limit leaves room for.
    pub open spec fn admitted(&self, idle_for_millis: Option<u64>) -> nat {
        if self.idleness_threshold().admits(idle_for_millis) && self.in_flight().len()
            < self.concurrency_limit() {
            let room = self.concurrency_limit() - self.in_flight().len();
            if self.pending().len() <= room {
                self.pending().len()
            } else {
                room as nat
            }
        } else {
            0
        }
    }

    /// The versions that a poll starts, oldest first.
    pub open spec fn starts(&self, idle_for_millis: Option<u64>) -> Seq<ObjectVersion> {
        self.pending().take(self.admitted(idle_for_millis) as int)
    }

    /// The counter of `self` is not below its value in `before`.
    pub open spec fn counters_at_least(&self, before: &Self) -> bool {
        self.repair_counter().at_least(before.repair_counter())
    }

    /// `self` has the knobs of `before`.
    pub open spec fn same_knobs(&self, before: &Self) -> bool {
        self.concurrency_limit() == before.concurrency_limit() && self.idleness_threshold()
            == before.idleness_threshold()
    }

    /// `self` is `before` after `version` was pushed.
    pub open spec fn pushed_from(&self, before: &Self, version: ObjectVersion) -> bool {
        &&& self.in_flight() == before.in_flight()
        &&& self.same_knobs(before)
        &&& self.repair_counter().dequeued == before.repair_counter().dequeued
        &&& if before.holds(version) {
            self.pending() == before.pending() && self.repair_counter() == before.repair_counter()
        } else {
            self.pending() == before.pending().push(version) && self.repair_counter().enqueued
                == raised(before.repair_counter().enqueued, 1)
        }
    }

    /// `self` is `before` after a poll on a segment that has been quiet for
    /// `idle_for_millis`.
    pub open spec fn polled_from(&self, before: &Self, idle_for_millis: Option<u64>) -> bool {
        &&& self.pending() == before.pending().skip(before.admitted(idle_for_millis) as int)
        &&& self.in_flight() == before.in_flight() + before.starts(idle_for_millis)
        &&& self.same_knobs(before)
        &&& self.repair_counter() == before.repair_counter()
    }

    /// `self` is `before` after the repair of `version` ended.
    pub open spec fn completed_from(&self, before: &Self, version: ObjectVersion, success: bool) -> bool {
        let successes: nat = if success { 1 } else { 0 };
        &&& self.pending() == before.pending()
        &&& self.same_knobs(before)
        &&& self.repair_counter().enqueued == before.repair_counter().enqueued
        &&& if before.in_flight().contains(version) {
            self.in_flight() == before.in_flight().remove(before.in_flight().index_of(version))
                && self.repair_counter().dequeued == raised(
                before.repair_counter().dequeued,
                successes,
            )
        } else {
            self.in_flight() == before.in_flight() && self.repair_counter() == before.repair_counter()
        }
    }

    /// Pushing keeps the queue well formed, and adds the pushed version to
    /// the versions held.
    pub proof fn lemma_pushed_keeps_apart(&self, before: &Self, version: ObjectVersion)
        requires
            before.wf(),
            self.pushed_from(before, version),
        ensures
            self.wf(),
            forall|v: ObjectVersion| self.holds(v) <==> (before.holds(v) || v == version),
            !before.holds(version) ==> self.pending().contains(version),
    {
        if !before.holds(version) {
            let waiting = before.pending();
            let after = self.pending();
            assert(after[waiting.len() as int] == version);
            assert forall|i: int, j: int|
                0 <= i < after.len() && 0 <= j < after.len() && i != j implies after[i] != after[j] by {
                if i < waiting.len() {
                    assert(waiting.contains(after[i]));
                }
                if j < waiting.len() {
                    assert(waiting.contains(after[j]));
                }
            }
            assert forall|v: ObjectVersion| after.contains(v) implies waiting.contains(v) || v
                == version by {
                let i = choose|i: int| 0 <= i < after.len() && after[i] == v;
                if i < waiting.len() {
                    assert(waiting[i] == v);
                }
            }
            assert forall|v: ObjectVersion| waiting.contains(v) implies after.contains(v) by {
                let i = choose|i: int| 0 <= i < waiting.len() && waiting[i] == v;
                assert(after[i] == v);
            }
        }
    }

    /// A poll keeps the queue well formed and holds the same versions:
    /// those that it starts move from waiting to under way.
    pub proof fn lemma_polled_keeps_apart(&self, before: &Self, idle_for_millis: Option<u64>)
        requires
            before.wf(),
            self.polled_from(before, idle_for_millis),
        ensures
            self.wf(),
            forall|v: ObjectVersion| self.holds(v) <==> before.holds(v),
    {
        lemma_start_many_keeps_apart(
            before.pending(),
            before.in_flight(),
            before.admitted(idle_for_millis) as int,
        );
    }

    /// The end of a repair keeps the queue well formed and takes the
    /// version, and no other, from those under way.
    pub proof fn lemma_completed_keeps_apart(&self, before: &Self, version: ObjectVersion, success: bool)
        requires
            before.wf(),
            self.completed_from(before, version, success),
        ensures
            self.wf(),
            forall|v: ObjectVersion|
                self.in_flight().contains(v) <==> (before.in_flight().contains(v) && v != version),
    {
        if before.in_flight().contains(version) {
            let at = before.in_flight().index_of(version);
            lemma_remove_from_distinct(before.in_flight(), at);
        }
    }

    /// An empty queue with the given knobs.
    pub fn new(concurrency_limit: u64, idleness_threshold: RepairIdleness) -> (queue: Self)
        ensures
            queue.wf(),
            queue.pending() == Seq::<ObjectVersion>::empty(),
            queue.in_flight() == Seq::<ObjectVersion>::empty(),
            queue.concurrency_limit() == concurrency_limit,
            queue.idleness_threshold() == idleness_threshold,
            queue.repair_counter() == (ItemCounter { enqueued: 0, dequeued: 0 }),
    {
        RepairQueueExecutor {
            pending: Vec::new(),
            in_flight: Vec::new(),
            concurrency_limit,
            idleness_threshold,
            repair: ItemCounter::new(),
        }
    }

    /// Enqueues `version` behind the versions that wait. A version that
    /// waits or is under way already is not taken a second time.
    pub fn push(&mut self, version: ObjectVersion)
        requires
            old(self).wf(),
        ensures
            final(self).wf(),
            final(self).pushed_from(old(self), version),
            final(self).counters_at_least(old(self)),
            forall|v: ObjectVersion| final(self).holds(v) <==> (old(self).holds(v) || v == version),
    {
        if position(&self.pending, version).is_some() || position(&self.in_flight, version).is_some() {
            return ;
        }
        self.pending.push(version);
        self.repair.record_enqueued();
        proof {
            self.lemma_pushed_keeps_apart(old(self), version);
        }
    }

    /// Replaces the idleness gate.
    pub fn set_repair_idleness_threshold(&mut self, threshold: RepairIdleness)
        ensures
            final(self).idleness_threshold() == threshold,
            final(self).pending() == old(self).pending(),
            final(self).in_flight() == old(self).in_flight(),
            final(self).concurrency_limit() == old(self).concurrency_limit(),
            final(self).repair_counter() == old(self).repair_counter(),
    {
        self.idleness_threshold = threshold;
    }

    /// Replaces the concurrency limit. Repairs under way are not stopped.
    pub fn set_repair_concurrency_limit(&mut self, limit: u64)
        ensures
            final(self).concurrency_limit() == limit,
            final(self).pending() == old(self).pending(),
            final(self).in_flight() == old(self).in_flight(),
            final(self).idleness_threshold() == old(self).idleness_threshold(),
            final(self).repair_counter() == old(self).repair_counter(),
    {
        self.concurrency_limit = limit;
    }

    /// Starts repairs: while the idleness gate admits a segment that has been quiet
    /// for `idle_for_millis` (`None`: no idleness signal), the oldest waiting
    /// versions go under way until the limit is reached. Returns the versions
    /// started, oldest first; the caller rebuilds each and reports the
    /// outcome with [`RepairQueueExecutor::complete`].
    pub fn poll(&mut self, idle_for_millis: Option<u64>) -> (started: Vec<ObjectVersion>)
        requires
            old(self).wf(),
        ensures
            final(self).wf(),
            started@ == old(self).starts(idle_for_millis),
            final(self).polled_from(old(self), idle_for_millis),
            final(self).counters_at_least(old(self)),
            forall|v: ObjectVersion| final(self).holds(v) <==> old(self).holds(v),
    {
        let mut started: Vec<ObjectVersion> = Vec::new();
        if !self.idleness_threshold.is_admitting(idle_for_millis) {
            assert(old(self).pending@.take(0) == started@);
            assert(old(self).pending@.skip(0) == self.pending@);
            assert(old(self).in_flight@ + started@ == self.in_flight@);
            return started;
        }
        let ghost waiting = self.pending@;
        let ghost under_way = self.in_flight@;
        proof {
            assert(waiting.take(0) == started@);
            assert(waiting.skip(0) == self.pending@);
            assert(under_way + started@ == self.in_flight@);
        }
        while self.pending.len() > 0 && (self.in_flight.len() as u64) < self.concurrency_limit
            invariant
                self.wf(),
                waiting == old(self).pending@,
                under_way == old(self).in_flight@,
                started.len() <= waiting.len(),
                started@ == waiting.take(started.len() as int),
                self.pending@ == waiting.skip(started.len() as int),
                self.in_flight@ == under_way + started@,
                started.len() == 0 || under_way.len() + started.len() <= self.concurrency_limit,
                self.concurrency_limit == old(self).concurrency_limit,
                self.idleness_threshold == old(self).idleness_threshold,
                self.repair == old(self).repair,
                forall|v: ObjectVersion| self.holds(v) <==> old(self).holds(v),
            decreases self.pending.len(),
        {
            proof {
                lemma_start_keeps_apart(self.pending@, self.in_flight@);
            }
            let ghost n = started.len() as int;
            let version = self.pending.remove(0);
            self.in_flight.push(version);
            started.push(version);
            proof {
                assert(version == waiting[n]);
                assert(self.pending@ == waiting.skip(n).skip(1));
                assert(waiting.skip(n).skip(1) == waiting.skip(n + 1));
                assert(started@ == waiting.take(n + 1));
                assert(self.in_flight@ == under_way + started@);
            }
        }
        started
    }

    /// Ends the repair of `version`. The version leaves the queue whether the
    /// repair succeeded or not; only a success counts as dequeued, and a
    /// failed repair is not taken up again. A version that is not under way
    /// changes nothing.
    pub fn complete(&mut self, version: ObjectVersion, success: bool)
        requires
            old(self).wf(),
        ensures
            final(self).wf(),
            final(self).completed_from(old(self), version, success),
            final(self).counters_at_least(old(self)),
            forall|v: ObjectVersion|
                final(self).in_flight().contains(v) <==> (old(self).in_flight().contains(v) && v
                    != version),
    {
        match position(&self.in_flight, version) {
            Some(at) => {
                proof {
                    lemma_remove_from_distinct(self.in_flight@, at as int);
                }
                self.in_flight.remove(at);
                if success {
                    self.repair.record_dequeued();
                }
            },
            None => {},
        }
    }

    /// The idleness gate at work: under a threshold, a segment that has not been
    /// quiet for that long, or that gives no idleness signal, starts no
    /// repair.
    pub proof fn lemma_gate_shut(&self, threshold_millis: u64, idle_for_millis: Option<u64>)
        requires
            self.idleness_threshold() == RepairIdleness::Threshold(threshold_millis),
            idle_for_millis is None || idle_for_millis->0 < threshold_millis,
        ensures
            self.admitted(idle_for_millis) == 0,
            self.starts(idle_for_millis) == Seq::<ObjectVersion>::empty(),
    {
        assert(self.pending().take(0) == Seq::<ObjectVersion>::empty());
    }

    /// The idleness gate open: once the segment has been quiet for the threshold, or
    /// with the idleness gate disabled, a poll starts the oldest waiting versions, as
    /// many as wait and as the limit leaves room for, so that the repairs
    /// under way never come to exceed a limit that they did not exceed.
    pub proof fn lemma_gate_open(&self, idle_for_millis: Option<u64>)
        requires
            self.idleness_threshold().admits(idle_for_millis),
        ensures
            self.admitted(idle_for_millis) <= self.pending().len(),
            self.in_flight().len() <= self.concurrency_limit() ==> self.in_flight().len()
                + self.admitted(idle_for_millis) <= self.concurrency_limit(),
            self.in_flight().len() + self.pending().len() <= self.concurrency_limit()
                ==> self.admitted(idle_for_millis) == self.pending().len(),
            self.in_flight().len() + self.pending().len() > self.concurrency_limit()
                && self.in_flight().len() <= self.concurrency_limit() ==> self.in_flight().len()
                + self.admitted(idle_for_millis) == self.concurrency_limit(),
    {
    }

    /// With the idleness gate disabled, what a poll starts does not depend on the
    /// client traffic.
    pub proof fn lemma_gate_disabled(&self, idle_for_millis: Option<u64>, other: Option<u64>)
        requires
            self.idleness_threshold() == RepairIdleness::Disabled,
        ensures
            self.idleness_threshold().admits(idle_for_millis),
            self.admitted(idle_for_millis) == self.admitted(other),
            self.starts(idle_for_millis) == self.starts(other),
    {
    }

    /// Number of versions that wait.
    pub fn len(&self) -> (n: usize)
        ensures
            n == self.pending().len(),
    {
        self.pending.len()
    }

    /// Number of repairs under way.
    pub fn in_flight_len(&self) -> (n: usize)
        ensures
            n == self.in_flight().len(),
    {
        self.in_flight.len()
    }

    /// The idleness gate.
    pub fn repair_idleness_threshold(&self) -> (threshold: RepairIdleness)
        ensures
            threshold == self.idleness_threshold(),
    {
        self.idleness_threshold
    }

    /// The concurrency limit.
    pub fn repair_concurrency_limit(&self) -> (limit: u64)
        ensures
            limit == self.concurrency_limit(),
    {
        self.concurrency_limit
    }

    /// The counter of the repairs.
    pub fn repair_items(&self) -> (counter: ItemCounter)
        ensures
            counter == self.repair_counter(),
    {
        self.repair
    }
}

} // verus!
