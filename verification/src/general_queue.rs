//! The general queue: cheap local work that follows the metadata store's
//! `Putted` and `Deleted` events, executed one task at a time in arrival order.
use vstd::prelude::*;
use crate::event::{Event, ObjectVersion};
use crate::metrics::{ItemCounter, raised};

verus! {

/// One unit of work of the general queue.
#[derive(Clone, Copy, PartialEq, Eq, Structural, Debug)]
pub enum Task {
    /// Ask the device whether it already holds the version's content.
    RepairPrep { version: ObjectVersion },
    /// Remove the version's content from the device.
    Delete { version: ObjectVersion },
}

impl Task {
    /// The version that the task is about.
    pub open spec fn spec_version(&self) -> ObjectVersion {
        match *self {
            Task::RepairPrep { version } => version,
            Task::Delete { version } => version,
        }
    }

    /// The version that the task is about.
    #[verifier::when_used_as_spec(spec_version)]
    pub fn version(&self) -> (v: ObjectVersion)
        ensures
            v == self.spec_version(),
    {
        match *self {
            Task::RepairPrep { version } => version,
            Task::Delete { version } => version,
        }
    }
}

/// What the device answered to the task in execution.
#[derive(Clone, Copy, PartialEq, Eq, Structural, Debug)]
pub enum Completion {
    /// The probe found the version's content on the device.
    Present,
    /// The probe found no content for the version.
    Absent,
    /// The content was removed.
    Deleted,
    /// The device reported an error.
    Failed,
}

/// Tasks about another version than `version`.
pub open spec fn spares(version: ObjectVersion) -> spec_fn(Task) -> bool {
    |t: Task| t.spec_version() != version
}

/// Tasks equal to `task`.
pub open spec fn same_as(task: Task) -> spec_fn(Task) -> bool {
    |t: Task| t == task
}

/// No two tasks of `tasks` are about the same version.
pub open spec fn distinct_versions(tasks: Seq<Task>) -> bool {
    forall|i: int, j: int|
        0 <= i < j < tasks.len() ==> (#[trigger] tasks[i]).spec_version() != (
        #[trigger] tasks[j]).spec_version()
}

/// Whether a task of `tasks` is about `version`.
pub open spec fn awaited(tasks: Seq<Task>, version: ObjectVersion) -> bool {
    exists|i: int| 0 <= i < tasks.len() && (#[trigger] tasks[i]).spec_version() == version
}

/// After a task replaced those about its version, the versions awaited are
/// those awaited before and the task's own.
proof fn lemma_replace_awaits(tasks: Seq<Task>, task: Task)
    requires
        distinct_versions(tasks),
    ensures
        forall|v: ObjectVersion|
            awaited(tasks.filter(spares(task.spec_version())).push(task), v) <==> (v
                == task.spec_version() || awaited(tasks, v)),
{
    lemma_replace_keeps_distinct(tasks, task);
    let kept = tasks.filter(spares(task.spec_version()));
    let after = kept.push(task);
    assert forall|v: ObjectVersion| awaited(after, v) implies v == task.spec_version() || awaited(
        tasks,
        v,
    ) by {
        let i = choose|i: int| 0 <= i < after.len() && (#[trigger] after[i]).spec_version() == v;
        if i < kept.len() {
            assert(kept[i] == after[i]);
            assert(kept.contains(after[i]));
            assert(tasks.contains(after[i]));
            let k = choose|k: int| 0 <= k < tasks.len() && tasks[k] == after[i];
            assert(tasks[k].spec_version() == v);
        }
    }
    assert forall|v: ObjectVersion| v == task.spec_version() || awaited(tasks, v) implies awaited(
        after,
        v,
    ) by {
        if v == task.spec_version() {
            assert(after[kept.len() as int].spec_version() == v);
        } else {
            let k = choose|k: int| 0 <= k < tasks.len() && (#[trigger] tasks[k]).spec_version() == v;
            assert(tasks.contains(tasks[k]));
            assert(kept.contains(tasks[k]));
            let i = choose|i: int| 0 <= i < kept.len() && kept[i] == tasks[k];
            assert(after[i].spec_version() == v);
        }
    }
}

/// Taking the first task away leaves the versions distinct, and the first
/// task's version awaited no more.
proof fn lemma_skip_awaits(tasks: Seq<Task>)
    requires
        distinct_versions(tasks),
        tasks.len() > 0,
    ensures
        distinct_versions(tasks.skip(1)),
        forall|v: ObjectVersion|
            awaited(tasks.skip(1), v) <==> (awaited(tasks, v) && v != tasks[0].spec_version()),
{
    let rest = tasks.skip(1);
    assert forall|i: int, j: int| 0 <= i < j < rest.len() implies (#[trigger] rest[i]).spec_version() != (
    #[trigger] rest[j]).spec_version() by {
        assert(rest[i] == tasks[i + 1]);
        assert(rest[j] == tasks[j + 1]);
    }
    assert forall|v: ObjectVersion| awaited(rest, v) implies awaited(tasks, v) && v
        != tasks[0].spec_version() by {
        let i = choose|i: int| 0 <= i < rest.len() && (#[trigger] rest[i]).spec_version() == v;
        assert(tasks[i + 1].spec_version() == v);
    }
    assert forall|v: ObjectVersion| awaited(tasks, v) && v != tasks[0].spec_version() implies awaited(
        rest,
        v,
    ) by {
        let k = choose|k: int| 0 <= k < tasks.len() && (#[trigger] tasks[k]).spec_version() == v;
        assert(rest[k - 1].spec_version() == v);
    }
}

/// Dropping the tasks about one version and appending one task about it
/// leaves the versions distinct.
proof fn lemma_replace_keeps_distinct(tasks: Seq<Task>, task: Task)
    requires
        distinct_versions(tasks),
    ensures
        distinct_versions(tasks.filter(spares(task.spec_version())).push(task)),
        forall|t: Task|
            tasks.filter(spares(task.spec_version())).contains(t) <==> (tasks.contains(t)
                && t.spec_version() != task.spec_version()),
    decreases tasks.len(),
{
    let keep = spares(task.spec_version());
    reveal(Seq::filter);
    if tasks.len() > 0 {
        let front = tasks.drop_last();
        let last = tasks.last();
        lemma_replace_keeps_distinct(front, task);
        let kept = front.filter(keep);
        assert forall|t: Task| tasks.filter(keep).contains(t) <==> (tasks.contains(t) && keep(t)) by {
            if tasks.filter(keep).contains(t) {
                let i = choose|i: int| 0 <= i < tasks.filter(keep).len() && tasks.filter(keep)[i] == t;
                if keep(last) && i == kept.len() {
                    assert(tasks[tasks.len() - 1] == t);
                } else {
                    assert(kept[i] == t);
                    assert(kept.contains(t));
                    let k = choose|k: int| 0 <= k < front.len() && front[k] == t;
                    assert(tasks[k] == t);
                }
            }
            if tasks.contains(t) && keep(t) {
                let k = choose|k: int| 0 <= k < tasks.len() && tasks[k] == t;
                if k == tasks.len() - 1 {
                    assert(tasks.filter(keep)[kept.len() as int] == t);
                } else {
                    assert(front[k] == t);
                    assert(front.contains(t));
                    let i = choose|i: int| 0 <= i < kept.len() && kept[i] == t;
                    assert(tasks.filter(keep)[i] == t);
                }
            }
        }
        let out = tasks.filter(keep);
        assert forall|i: int, j: int| 0 <= i < j < out.len() implies (#[trigger] out[i]).spec_version()
            != (#[trigger] out[j]).spec_version() by {
            if j < kept.len() {
                assert(kept.push(task)[i] == out[i]);
                assert(kept.push(task)[j] == out[j]);
            } else {
                assert(out[j] == last);
                assert(kept[i] == out[i]);
                assert(kept.contains(out[i]));
                let k = choose|k: int| 0 <= k < front.len() && front[k] == out[i];
                assert(tasks[k] == out[i]);
                assert(tasks[tasks.len() - 1] == last);
            }
        }
        let replaced = out.push(task);
        assert forall|i: int, j: int| 0 <= i < j < replaced.len() implies (
        #[trigger] replaced[i]).spec_version() != (#[trigger] replaced[j]).spec_version() by {
            if j < out.len() {
                assert(out[i] == replaced[i] && out[j] == replaced[j]);
            } else {
                assert(out.contains(out[i]));
            }
        }
    } else {
        assert(tasks.filter(keep).len() == 0);
    }
}

/// Filtering by a predicate that every entry meets changes nothing.
proof fn lemma_filter_keeps_all(tasks: Seq<Task>, keep: spec_fn(Task) -> bool)
    requires
        forall|i: int| 0 <= i < tasks.len() ==> keep(#[trigger] tasks[i]),
    ensures
        tasks.filter(keep) == tasks,
    decreases tasks.len(),
{
    reveal(Seq::filter);
    if tasks.len() > 0 {
        let front = tasks.drop_last();
        assert forall|i: int| 0 <= i < front.len() implies keep(#[trigger] front[i]) by {
            assert(front[i] == tasks[i]);
        }
        lemma_filter_keeps_all(front, keep);
        assert(keep(tasks[tasks.len() - 1]));
        assert(front.push(tasks.last()) == tasks);
    }
}

/// The queue of local work with its counters.
#[derive(Debug)]
pub struct GeneralQueueExecutor {
    pending: Vec<Task>,
    running: Option<Task>,
    repair_prep: ItemCounter,
    delete: ItemCounter,
}

impl GeneralQueueExecutor {
    /// The tasks that wait, oldest first.
    pub closed spec fn pending(&self) -> Seq<Task> {
        self.pending@
    }

    /// The task whose device operation is under way, if any.
    pub closed spec fn running(&self) -> Option<Task> {
        self.running
    }

    /// Counter of the probes.
    pub closed spec fn repair_prep_counter(&self) -> ItemCounter {
        self.repair_prep
    }

    /// Counter of the local deletions.
    pub closed spec fn delete_counter(&self) -> ItemCounter {
        self.delete
    }

    /// At most one task per version waits.
    pub open spec fn wf(&self) -> bool {
        distinct_versions(self.pending())
    }

    /// Whether a task about `version` waits.
    pub open spec fn waits_for(&self, version: ObjectVersion) -> bool {
        awaited(self.pending(), version)
    }

    /// Whether the task in execution is about `version`.
    pub open spec fn executes(&self, version: ObjectVersion) -> bool {
        self.running() is Some && self.running()->0.spec_version() == version
    }

    /// No counter of `self` is below its value in `before`.
    pub open spec fn counters_at_least(&self, before: &Self) -> bool {
        self.repair_prep_counter().at_least(before.repair_prep_counter())
            && self.delete_counter().at_least(before.delete_counter())
    }

    /// The task that [`GeneralQueueExecutor::next_action`] starts: the
    /// oldest that waits, unless one is in execution.
    pub open spec fn next_task(&self) -> Option<Task> {
        if self.running() is None && self.pending().len() > 0 {
            Some(self.pending()[0])
        } else {
            None
        }
    }

    /// `self` is `before` after its next task, if it had one, was started.
    pub open spec fn started_from(&self, before: &Self) -> bool {
        &&& self.repair_prep_counter() == before.repair_prep_counter()
        &&& self.delete_counter() == before.delete_counter()
        &&& match before.next_task() {
            Some(task) => self.running() == Some(task) && self.pending() == before.pending().skip(1),
            None => self.running() == before.running() && self.pending() == before.pending(),
        }
    }

    /// `self` is `before` after the task in execution, if there was one,
    /// ended: it counts as dequeued, whatever the outcome.
    pub open spec fn completed_from(&self, before: &Self) -> bool {
        let probes: nat = if before.running() is Some && before.running()->0 is RepairPrep {
            1
        } else {
            0
        };
        let deletes: nat = if before.running() is Some && before.running()->0 is Delete {
            1
        } else {
            0
        };
        &&& self.pending() == before.pending()
        &&& self.running() is None
        &&& self.repair_prep_counter().enqueued == before.repair_prep_counter().enqueued
        &&& self.delete_counter().enqueued == before.delete_counter().enqueued
        &&& self.repair_prep_counter().dequeued == raised(before.repair_prep_counter().dequeued, probes)
        &&& self.delete_counter().dequeued == raised(before.delete_counter().dequeued, deletes)
    }

    /// `self` is `before` after `task` was enqueued: the tasks that waited for
    /// the same version are cancelled and count as dequeued, and `task` comes
    /// last.
    pub open spec fn enqueued_from(&self, before: &Self, task: Task) -> bool {
        let version = task.spec_version();
        let cancelled_probes = before.pending().filter(same_as(Task::RepairPrep { version })).len();
        let cancelled_deletes = before.pending().filter(same_as(Task::Delete { version })).len();
        let probes: nat = if task is RepairPrep { 1 } else { 0 };
        let deletes: nat = if task is Delete { 1 } else { 0 };
        &&& self.pending() == before.pending().filter(spares(version)).push(task)
        &&& self.running() == before.running()
        &&& self.repair_prep_counter().enqueued == raised(before.repair_prep_counter().enqueued, probes)
        &&& self.repair_prep_counter().dequeued == raised(
            before.repair_prep_counter().dequeued,
            cancelled_probes,
        )
        &&& self.delete_counter().enqueued == raised(before.delete_counter().enqueued, deletes)
        &&& self.delete_counter().dequeued == raised(before.delete_counter().dequeued, cancelled_deletes)
    }

    /// Enqueueing keeps the queue well formed, and adds the task's version
    /// to the versions that wait.
    pub proof fn lemma_enqueued_keeps_distinct(&self, before: &Self, task: Task)
        requires
            before.wf(),
            self.enqueued_from(before, task),
        ensures
            self.wf(),
            forall|v: ObjectVersion|
                self.waits_for(v) <==> (v == task.spec_version() || before.waits_for(v)),
    {
        lemma_replace_keeps_distinct(before.pending(), task);
        lemma_replace_awaits(before.pending(), task);
        let after = before.pending().filter(spares(task.spec_version())).push(task);
        assert forall|v: ObjectVersion|
            self.waits_for(v) <==> (v == task.spec_version() || before.waits_for(v)) by {
            assert(self.waits_for(v) == awaited(after, v));
            assert(before.waits_for(v) == awaited(before.pending(), v));
        }
    }

    /// Starting a task keeps the queue well formed, and takes the task's
    /// version, and no other, from the versions that wait.
    pub proof fn lemma_started_keeps_distinct(&self, before: &Self)
        requires
            before.wf(),
            self.started_from(before),
        ensures
            self.wf(),
            before.next_task() is None ==> forall|v: ObjectVersion|
                self.waits_for(v) <==> before.waits_for(v),
            before.next_task() is Some ==> before.waits_for(before.next_task()->0.spec_version())
                && forall|v: ObjectVersion|
                self.waits_for(v) <==> (before.waits_for(v) && v
                    != before.next_task()->0.spec_version()),
    {
        if before.next_task() is Some {
            lemma_skip_awaits(before.pending());
            assert(before.pending()[0] == before.next_task()->0);
        }
    }

    /// An empty queue with counters at zero.
    pub fn new() -> (queue: Self)
        ensures
            queue.wf(),
            queue.pending() == Seq::<Task>::empty(),
            queue.running() is None,
            queue.repair_prep_counter() == (ItemCounter { enqueued: 0, dequeued: 0 }),
            queue.delete_counter() == (ItemCounter { enqueued: 0, dequeued: 0 }),
    {
        GeneralQueueExecutor {
            pending: Vec::new(),
            running: None,
            repair_prep: ItemCounter::new(),
            delete: ItemCounter::new(),
        }
    }

    /// Enqueues the work that `event` asks for: a probe for `Putted`, a local
    /// deletion for `Deleted`, nothing for `FullSync`. Only the most recent
    /// event about a version matters, so a task that still waits for the same
    /// version is cancelled.
    pub fn push(&mut self, event: &Event)
        requires
            old(self).wf(),
        ensures
            final(self).wf(),
            match *event {
                Event::Putted { version } => final(self).enqueued_from(
                    old(self),
                    Task::RepairPrep { version },
                ),
                Event::Deleted { version } => final(self).enqueued_from(
                    old(self),
                    Task::Delete { version },
                ),
                Event::FullSync { .. } => *final(self) == *old(self),
            },
            final(self).counters_at_least(old(self)),
            forall|v: ObjectVersion|
                final(self).waits_for(v) <==> (old(self).waits_for(v) || match *event {
                    Event::Putted { version } => v == version,
                    Event::Deleted { version } => v == version,
                    Event::FullSync { .. } => false,
                }),
    {
        match event {
            Event::Putted { version } => self.enqueue(Task::RepairPrep { version: *version }),
            Event::Deleted { version } => self.enqueue(Task::Delete { version: *version }),
            Event::FullSync { .. } => {},
        }
    }

    /// Enqueues `task` in place of whatever waits for its version.
    pub fn enqueue(&mut self, task: Task)
        requires
            old(self).wf(),
        ensures
            final(self).wf(),
            final(self).enqueued_from(old(self), task),
            final(self).counters_at_least(old(self)),
            forall|v: ObjectVersion|
                final(self).waits_for(v) <==> (v == task.spec_version() || old(self).waits_for(v)),
    {
        let version = task.version();
        let ghost before = self.pending@;
        let ghost probe = Task::RepairPrep { version };
        let ghost removal = Task::Delete { version };
        let ghost probes_before = self.repair_prep.dequeued;
        let ghost deletes_before = self.delete.dequeued;
        let mut kept: Vec<Task> = Vec::new();
        let mut i: usize = 0;
        proof {
            reveal(Seq::filter);
            assert(before.take(0).len() == 0);
        }
        while i < self.pending.len()
            invariant
                i <= self.pending.len(),
                self.pending@ == before,
                probe == (Task::RepairPrep { version }),
                removal == (Task::Delete { version }),
                self.running == old(self).running,
                self.repair_prep.enqueued == old(self).repair_prep.enqueued,
                self.delete.enqueued == old(self).delete.enqueued,
                kept@ == before.take(i as int).filter(spares(version)),
                self.repair_prep.dequeued == raised(
                    probes_before,
                    before.take(i as int).filter(same_as(probe)).len(),
                ),
                self.delete.dequeued == raised(
                    deletes_before,
                    before.take(i as int).filter(same_as(removal)).len(),
                ),
            decreases self.pending.len() - i,
        {
            let t = self.pending[i];
            proof {
                let head = before.take(i as int);
                assert(before.take(i as int + 1) == head.push(before[i as int]));
                head.lemma_filter_push(t, spares(version));
                head.lemma_filter_push(t, same_as(probe));
                head.lemma_filter_push(t, same_as(removal));
                assert(same_as(probe)(t) == (t == probe));
                assert(same_as(removal)(t) == (t == removal));
                assert(spares(version)(t) == (t.spec_version() != version));
            }
            if t.version() != version {
                kept.push(t);
            } else {
                match t {
                    Task::RepairPrep { .. } => {
                        self.repair_prep.record_dequeued();
                    },
                    Task::Delete { .. } => {
                        self.delete.record_dequeued();
                    },
                }
            }
            i += 1;
        }
        assert(before.take(i as int) == before);
        kept.push(task);
        self.pending = kept;
        match task {
            Task::RepairPrep { .. } => self.repair_prep.record_enqueued(),
            Task::Delete { .. } => self.delete.record_enqueued(),
        }
        proof {
            self.lemma_enqueued_keeps_distinct(old(self), task);
        }
    }

    /// Starts the oldest waiting task, unless one is in execution already or
    /// nothing waits. The caller performs the task's device operation and
    /// reports its outcome with [`GeneralQueueExecutor::complete`].
    pub fn next_action(&mut self) -> (started: Option<Task>)
        requires
            old(self).wf(),
        ensures
            final(self).wf(),
            started == old(self).next_task(),
            final(self).started_from(old(self)),
            started is Some ==> forall|v: ObjectVersion|
                final(self).waits_for(v) <==> (old(self).waits_for(v) && v != started->0.spec_version()),
    {
        if self.running.is_some() || self.pending.len() == 0 {
            return None;
        }
        proof {
            lemma_skip_awaits(self.pending@);
        }
        let task = self.pending.remove(0);
        assert(self.pending@ == old(self).pending@.skip(1));
        self.running = Some(task);
        Some(task)
    }

    /// Takes the device's answer to the task in execution and says which
    /// version, if any, must be rebuilt from the peers: the probed version
    /// when the device holds no content for it. A failed operation is dropped
    /// like a finished one. Without a task in execution nothing changes.
    pub fn complete(&mut self, outcome: Completion) -> (needs_repair: Option<ObjectVersion>)
        requires
            old(self).wf(),
        ensures
            final(self).wf(),
            final(self).completed_from(old(self)),
            final(self).counters_at_least(old(self)),
            needs_repair == Self::repair_needed(old(self).running(), outcome),
    {
        let finished = self.running;
        self.running = None;
        match finished {
            Some(Task::RepairPrep { version }) => {
                self.repair_prep.record_dequeued();
                match outcome {
                    Completion::Absent => Some(version),
                    _ => None,
                }
            },
            Some(Task::Delete { .. }) => {
                self.delete.record_dequeued();
                None
            },
            None => None,
        }
    }

    /// The version to rebuild after `running` ended with `outcome`.
    pub open spec fn repair_needed(running: Option<Task>, outcome: Completion) -> Option<
        ObjectVersion,
    > {
        match running {
            Some(Task::RepairPrep { version }) => if outcome == Completion::Absent {
                Some(version)
            } else {
                None
            },
            _ => None,
        }
    }

    /// Delete subsumes put: when a `Deleted` of a version is enqueued right
    /// after a `Putted` of it, the probe is cancelled before it runs. No
    /// probe of the version waits, so none can ask for its repair, and the
    /// deletion waits as the youngest task. `start` is the queue before the
    /// two events, `put` after the first, `end` after the second.
    pub proof fn lemma_delete_subsumes_put(start: &Self, put: &Self, end: &Self, version: ObjectVersion)
        requires
            start.wf(),
            put.enqueued_from(start, Task::RepairPrep { version }),
            end.enqueued_from(put, Task::Delete { version }),
        ensures
            end.pending() == start.pending().filter(spares(version)).push(Task::Delete { version }),
            !end.pending().contains(Task::RepairPrep { version }),
            end.pending().last() == (Task::Delete { version }),
            end.running() == start.running(),
            end.repair_prep_counter().enqueued == raised(start.repair_prep_counter().enqueued, 1),
            end.delete_counter().enqueued == raised(start.delete_counter().enqueued, 1),
    {
        let keep = spares(version);
        let probe = Task::RepairPrep { version };
        let removal = Task::Delete { version };
        let kept = start.pending().filter(keep);
        assert forall|i: int| 0 <= i < kept.len() implies keep(#[trigger] kept[i]) by {
            start.pending().lemma_filter_pred(keep, i);
        }
        lemma_filter_keeps_all(kept, keep);
        kept.lemma_filter_push(probe, keep);
        assert(!keep(probe));
        assert(put.pending().filter(keep) == kept);
        let after = kept.push(removal);
        assert(end.pending() == after);
        assert forall|i: int| 0 <= i < after.len() implies after[i] != probe by {
            if i < kept.len() {
                assert(keep(kept[i]));
            }
        }
    }

    /// Number of tasks that wait.
    pub fn len(&self) -> (n: usize)
        ensures
            n == self.pending().len(),
    {
        self.pending.len()
    }

    /// The task in execution, if any.
    pub fn running_task(&self) -> (task: Option<Task>)
        ensures
            task == self.running(),
    {
        self.running
    }

    /// The counter of the probes.
    pub fn repair_prep_items(&self) -> (counter: ItemCounter)
        ensures
            counter == self.repair_prep_counter(),
    {
        self.repair_prep
    }

    /// The counter of the local deletions.
    pub fn delete_items(&self) -> (counter: ItemCounter)
        ensures
            counter == self.delete_counter(),
    {
        self.delete
    }
}

} // verus!
