//! The synchronizer: it hands the metadata store's events to the general
//! queue or to a segment scan, moves the versions that need a repair from the
//! general queue to the repair queue, and says which device and network
//! operations are due. It performs none of them: the embedding program runs
//! each [`Action`] and reports the outcome.
use vstd::prelude::*;
use crate::event::{Event, ObjectVersion};
use crate::general_queue::{Completion, GeneralQueueExecutor, Task};
use crate::metrics::{raised, SegmentGcMetrics};
use crate::repair::{RepairConfig, RepairIdleness};
use crate::repair_queue::{RepairQueueExecutor, DEFAULT_REPAIR_CONCURRENCY_LIMIT};
use crate::segment_gc::{is_orphan, SegmentGc};

verus! {

/// An operation that the embedding program performs for the synchronizer.
#[derive(Clone, Copy, PartialEq, Eq, Structural, Debug)]
pub enum Action {
    /// Ask the device whether it holds content for the version; report with
    /// [`Synchronizer::task_completed`].
    Probe { version: ObjectVersion },
    /// Remove the version's content from the device; report with
    /// [`Synchronizer::task_completed`].
    Delete { version: ObjectVersion },
    /// Rebuild the version's content from the peers and store it; report
    /// with [`Synchronizer::repair_completed`].
    Repair { version: ObjectVersion },
    /// List the versions that the device stores; report with
    /// [`Synchronizer::stored_versions_listed`].
    ListStored,
    /// Remove the content of a version that the segment scan found
    /// orphaned. No report is expected.
    Collect { version: ObjectVersion },
}

/// The operation that carries out `task`.
pub open spec fn action_of(task: Task) -> Action {
    match task {
        Task::RepairPrep { version } => Action::Probe { version },
        Task::Delete { version } => Action::Delete { version },
    }
}

/// Turns a version into the request to repair it.
pub open spec fn repairs() -> spec_fn(ObjectVersion) -> Action {
    |version: ObjectVersion| Action::Repair { version }
}

/// Turns a version into the request to collect it.
pub open spec fn collects() -> spec_fn(ObjectVersion) -> Action {
    |version: ObjectVersion| Action::Collect { version }
}

/// A copy of `versions`.
fn copy_versions(versions: &Vec<ObjectVersion>) -> (copy: Vec<ObjectVersion>)
    ensures
        copy@ == versions@,
{
    let mut copy: Vec<ObjectVersion> = Vec::new();
    let mut i: usize = 0;
    while i < versions.len()
        invariant
            i <= versions.len(),
            copy@ == versions@.take(i as int),
        decreases versions.len() - i,
    {
        copy.push(versions[i]);
        assert(versions@.take(i as int + 1) == versions@.take(i as int).push(versions@[i as int]));
        i += 1;
    }
    assert(versions@.take(i as int) == versions@);
    copy
}

/// Appends to `actions` the request to repair each of `versions`.
fn request_repairs(actions: &mut Vec<Action>, versions: &Vec<ObjectVersion>)
    ensures
        final(actions)@ == old(actions)@ + versions@.map_values(repairs()),
{
    let mut i: usize = 0;
    assert(old(actions)@ + versions@.take(0).map_values(repairs()) == old(actions)@);
    while i < versions.len()
        invariant
            i <= versions.len(),
            actions@ == old(actions)@ + versions@.take(i as int).map_values(repairs()),
        decreases versions.len() - i,
    {
        actions.push(Action::Repair { version: versions[i] });
        assert(versions@.take(i as int + 1).map_values(repairs()) == versions@.take(
            i as int,
        ).map_values(repairs()).push(repairs()(versions@[i as int])));
        i += 1;
    }
    assert(versions@.take(i as int) == versions@);
}

/// Appends to `actions` the request to collect each of `versions`.
fn request_collections(actions: &mut Vec<Action>, versions: &Vec<ObjectVersion>)
    ensures
        final(actions)@ == old(actions)@ + versions@.map_values(collects()),
{
    let mut i: usize = 0;
    assert(old(actions)@ + versions@.take(0).map_values(collects()) == old(actions)@);
    while i < versions.len()
        invariant
            i <= versions.len(),
            actions@ == old(actions)@ + versions@.take(i as int).map_values(collects()),
        decreases versions.len() - i,
    {
        actions.push(Action::Collect { version: versions[i] });
        assert(versions@.take(i as int + 1).map_values(collects()) == versions@.take(
            i as int,
        ).map_values(collects()).push(collects()(versions@[i as int])));
        i += 1;
    }
    assert(versions@.take(i as int) == versions@);
}

/// One step of a run of the synchronizer.
pub enum Step {
    /// An event of the metadata store was handled.
    Handled(Event),
    /// A drive step was made on a segment quiet for so many milliseconds.
    Polled(Option<u64>),
    /// The task in execution ended with this outcome.
    TaskCompleted(Completion),
    /// The repair of the version ended, with success or without.
    RepairCompleted(ObjectVersion, bool),
    /// A knob was set or a listing arrived: what the queues hold is unchanged.
    Controlled,
}

/// The synchronizer of one segment.
#[derive(Debug)]
pub struct Synchronizer {
    metadata: bool,
    segment_gc_metrics: SegmentGcMetrics,
    segment_gc: Option<SegmentGc>,
    segment_gc_step: u64,
    listing_requested: bool,
    general_queue: GeneralQueueExecutor,
    repair_queue: RepairQueueExecutor,
}

impl Synchronizer {
    /// Whether the segment stores metadata only, so that nothing is synchronized.
    pub closed spec fn is_metadata(&self) -> bool {
        self.metadata
    }

    /// The gauges of the segment scan.
    pub closed spec fn segment_gc_metrics(&self) -> SegmentGcMetrics {
        self.segment_gc_metrics
    }

    /// The segment scan in progress, if any.
    pub closed spec fn segment_gc(&self) -> Option<SegmentGc> {
        self.segment_gc
    }

    /// Number of stored versions that a new scan examines per step.
    pub closed spec fn segment_gc_step(&self) -> u64 {
        self.segment_gc_step
    }

    /// Whether the scan in progress has asked for the device's listing.
    pub closed spec fn listing_requested(&self) -> bool {
        self.listing_requested
    }

    /// The general queue.
    pub closed spec fn general_queue(&self) -> GeneralQueueExecutor {
        self.general_queue
    }

    /// The repair queue.
    pub closed spec fn repair_queue(&self) -> RepairQueueExecutor {
        self.repair_queue
    }

    /// The parts are well formed, and a listing is asked for only by a scan.
    pub open spec fn wf(&self) -> bool {
        &&& self.general_queue().wf()
        &&& self.repair_queue().wf()
        &&& self.segment_gc() is Some ==> self.segment_gc()->0.wf()
        &&& self.segment_gc() is None ==> !self.listing_requested()
    }

    /// Number of places that hold `version`: waiting in the general queue,
    /// in execution there, waiting in the repair queue, under repair.
    pub open spec fn stages(&self, version: ObjectVersion) -> nat {
        let waiting: nat = if self.general_queue().waits_for(version) { 1 } else { 0 };
        let executing: nat = if self.general_queue().executes(version) { 1 } else { 0 };
        let queued: nat = if self.repair_queue().pending().contains(version) { 1 } else { 0 };
        let repairing: nat = if self.repair_queue().in_flight().contains(version) { 1 } else { 0 };
        waiting + executing + queued + repairing
    }

    /// Every version is in at most one place: it waits in the general
    /// queue, or is in execution there, or waits in the repair queue, or is
    /// under repair, or is in none of them. Each operation of the
    /// synchronizer says in its contract that it keeps this.
    pub open spec fn exclusive(&self) -> bool {
        forall|version: ObjectVersion| #[trigger] self.stages(version) <= 1
    }

    /// Whether `version` is past the general queue's waiting line: in
    /// execution there, or in the repair queue.
    pub open spec fn busy_with(&self, version: ObjectVersion) -> bool {
        self.general_queue().executes(version) || self.repair_queue().holds(version)
    }

    /// No counter of `self` is below its value in `before`.
    pub open spec fn counters_at_least(&self, before: &Self) -> bool {
        self.general_queue().counters_at_least(&before.general_queue())
            && self.repair_queue().counters_at_least(&before.repair_queue())
    }

    /// `self` has the segment scan, its gauges and its settings as `before` has.
    pub open spec fn same_scan(&self, before: &Self) -> bool {
        &&& self.is_metadata() == before.is_metadata()
        &&& self.segment_gc() == before.segment_gc()
        &&& self.segment_gc_metrics() == before.segment_gc_metrics()
        &&& self.segment_gc_step() == before.segment_gc_step()
        &&& self.listing_requested() == before.listing_requested()
    }

    /// A synchronizer with empty queues and no scan. `metadata` says that
    /// the segment stores no bytes; `segment_gc_step` is the number of stored
    /// versions that a scan examines per step. The repair queue starts with
    /// its gate off and the default concurrency limit.
    pub fn new(metadata: bool, segment_gc_step: u64) -> (synchronizer: Self)
        ensures
            synchronizer.wf(),
            synchronizer.exclusive(),
            synchronizer.is_metadata() == metadata,
            synchronizer.segment_gc_step() == segment_gc_step,
            synchronizer.segment_gc() is None,
            !synchronizer.listing_requested(),
            synchronizer.segment_gc_metrics() == (SegmentGcMetrics { scanned: 0, deleted: 0, remaining: 0 }),
            synchronizer.general_queue().pending().len() == 0,
            synchronizer.general_queue().running() is None,
            synchronizer.repair_queue().pending().len() == 0,
            synchronizer.repair_queue().in_flight().len() == 0,
            synchronizer.repair_queue().concurrency_limit() == DEFAULT_REPAIR_CONCURRENCY_LIMIT,
            synchronizer.repair_queue().idleness_threshold() == RepairIdleness::Disabled,
    {
        let synchronizer = Synchronizer {
            metadata,
            segment_gc_metrics: SegmentGcMetrics::new(),
            segment_gc: None,
            segment_gc_step,
            listing_requested: false,
            general_queue: GeneralQueueExecutor::new(),
            repair_queue: RepairQueueExecutor::new(
                DEFAULT_REPAIR_CONCURRENCY_LIMIT,
                RepairIdleness::Disabled,
            ),
        };
        assert forall|version: ObjectVersion| #[trigger] synchronizer.stages(version) <= 1 by {}
        synchronizer
    }

    /// `self` is `before` after `event` was handled: a segment that stores
    /// metadata only is unchanged; otherwise `Putted` and `Deleted` are
    /// enqueued in the general queue, and `FullSync` starts a scan against
    /// its snapshot unless a scan is in progress, which then goes on
    /// undisturbed.
    pub open spec fn event_handled_from(&self, before: &Self, event: Event) -> bool {
        &&& self.repair_queue() == before.repair_queue()
        &&& self.is_metadata() == before.is_metadata()
        &&& self.segment_gc_step() == before.segment_gc_step()
        &&& self.segment_gc_metrics() == before.segment_gc_metrics()
        &&& self.listing_requested() == before.listing_requested()
        &&& if before.is_metadata() {
            self.general_queue() == before.general_queue() && self.segment_gc() == before.segment_gc()
        } else {
            match event {
                Event::Putted { version } => {
                    &&& self.segment_gc() == before.segment_gc()
                    &&& self.general_queue().enqueued_from(
                        &before.general_queue(),
                        Task::RepairPrep { version },
                    )
                },
                Event::Deleted { version } => {
                    &&& self.segment_gc() == before.segment_gc()
                    &&& self.general_queue().enqueued_from(
                        &before.general_queue(),
                        Task::Delete { version },
                    )
                },
                Event::FullSync { machine, next_commit } => {
                    &&& self.general_queue() == before.general_queue()
                    &&& if before.segment_gc() is Some {
                        self.segment_gc() == before.segment_gc()
                    } else {
                        let gc = self.segment_gc();
                        &&& gc is Some
                        &&& gc->0.live() == machine@
                        &&& gc->0.watermark() == next_commit
                        &&& gc->0.step() == before.segment_gc_step()
                        &&& gc->0.stored() is None
                        &&& gc->0.cursor() == 0
                    }
                },
            }
        }
    }

    /// Whether `event` brings into the general queue a version that is
    /// already in execution there or in the repair queue.
    pub open spec fn collides_with(&self, event: Event) -> bool {
        !self.is_metadata() && match event {
            Event::Putted { version } => self.busy_with(version),
            Event::Deleted { version } => self.busy_with(version),
            Event::FullSync { .. } => false,
        }
    }

    /// Takes one event of the metadata store. A segment that stores
    /// metadata only ignores every event. Otherwise `Putted` and `Deleted`
    /// go to the general queue, and `FullSync` starts a segment scan unless
    /// one is in progress, in which case the event is dropped.
    ///
    /// Every version stays in at most one place, unless the event is about
    /// a version that is in execution or in the repair queue at that moment:
    /// such an event is enqueued all the same, and its version is then in
    /// two places until one of the two is done.
    pub fn handle_event(&mut self, event: &Event)
        requires
            old(self).wf(),
        ensures
            final(self).wf(),
            final(self).event_handled_from(old(self), *event),
            final(self).counters_at_least(old(self)),
            old(self).exclusive() && !old(self).collides_with(*event) ==> final(self).exclusive(),
    {
        if !self.metadata {
            match event {
                Event::Putted { .. } => {
                    self.general_queue.push(event);
                },
                Event::Deleted { .. } => {
                    self.general_queue.push(event);
                },
                Event::FullSync { machine, next_commit } => {
                    if self.segment_gc.is_none() {
                        self.segment_gc = Some(
                            SegmentGc::new(copy_versions(machine), *next_commit, self.segment_gc_step),
                        );
                    }
                },
            }
        }
        proof {
            if old(self).exclusive() && !old(self).collides_with(*event) {
                self.lemma_step_keeps_exclusive(old(self), Step::Handled(*event));
            }
        }
    }

    /// Replaces the idleness gate of the repair queue.
    pub fn set_repair_idleness_threshold(&mut self, repair_idleness_threshold: RepairIdleness)
        requires
            old(self).wf(),
        ensures
            final(self).wf(),
            final(self).counters_at_least(old(self)),
            final(self).same_scan(old(self)),
            final(self).general_queue() == old(self).general_queue(),
            final(self).repair_queue().idleness_threshold() == repair_idleness_threshold,
            final(self).repair_queue().concurrency_limit() == old(self).repair_queue().concurrency_limit(),
            final(self).repair_queue().pending() == old(self).repair_queue().pending(),
            final(self).repair_queue().in_flight() == old(self).repair_queue().in_flight(),
            final(self).repair_queue().repair_counter() == old(self).repair_queue().repair_counter(),
            old(self).exclusive() ==> final(self).exclusive(),
    {
        self.repair_queue.set_repair_idleness_threshold(repair_idleness_threshold);
        proof {
            assert forall|v: ObjectVersion| self.stages(v) == old(self).stages(v) by {}
        }
    }

    /// Applies a control message: each knob that the message names is
    /// replaced, the others stay. The step of the segment scan applies to
    /// the scan in progress and to later ones.
    pub fn set_repair_config(&mut self, config: RepairConfig)
        requires
            old(self).wf(),
        ensures
            final(self).wf(),
            final(self).counters_at_least(old(self)),
            final(self).is_metadata() == old(self).is_metadata(),
            final(self).segment_gc_metrics() == old(self).segment_gc_metrics(),
            final(self).listing_requested() == old(self).listing_requested(),
            final(self).general_queue() == old(self).general_queue(),
            final(self).repair_queue().pending() == old(self).repair_queue().pending(),
            final(self).repair_queue().in_flight() == old(self).repair_queue().in_flight(),
            final(self).repair_queue().repair_counter() == old(self).repair_queue().repair_counter(),
            final(self).repair_queue().concurrency_limit() == match config.repair_concurrency_limit {
                Some(limit) => limit,
                None => old(self).repair_queue().concurrency_limit(),
            },
            final(self).repair_queue().idleness_threshold() == match config.repair_idleness_threshold {
                Some(threshold) => threshold,
                None => old(self).repair_queue().idleness_threshold(),
            },
            final(self).segment_gc_step() == match config.segment_gc_concurrency_limit {
                Some(step) => step,
                None => old(self).segment_gc_step(),
            },
            match old(self).segment_gc() {
                Some(gc) => {
                    let after = final(self).segment_gc();
                    &&& after is Some
                    &&& after->0.live() == gc.live()
                    &&& after->0.watermark() == gc.watermark()
                    &&& after->0.stored() == gc.stored()
                    &&& after->0.cursor() == gc.cursor()
                    &&& after->0.metrics() == gc.metrics()
                    &&& after->0.step() == match config.segment_gc_concurrency_limit {
                        Some(step) => step,
                        None => gc.step(),
                    }
                },
                None => final(self).segment_gc() is None,
            },
            old(self).exclusive() ==> final(self).exclusive(),
    {
        match config.repair_concurrency_limit {
            Some(limit) => self.repair_queue.set_repair_concurrency_limit(limit),
            None => {},
        }
        match config.repair_idleness_threshold {
            Some(threshold) => self.repair_queue.set_repair_idleness_threshold(threshold),
            None => {},
        }
        match config.segment_gc_concurrency_limit {
            Some(step) => {
                self.segment_gc_step = step;
                match self.segment_gc.take() {
                    Some(gc) => {
                        let mut gc = gc;
                        gc.set_step(step);
                        self.segment_gc = Some(gc);
                    },
                    None => {},
                }
            },
            None => {},
        }
        proof {
            assert forall|v: ObjectVersion| self.stages(v) == old(self).stages(v) by {}
        }
    }

    /// What [`Synchronizer::advance_segment_gc`] asks for: the device's
    /// listing when a scan waits for it and has not asked yet, else the
    /// collection of the orphans that the scan's next step finds.
    pub open spec fn gc_actions(&self) -> Seq<Action> {
        match self.segment_gc() {
            Some(gc) => if gc.stored() is None {
                if self.listing_requested() {
                    Seq::empty()
                } else {
                    seq![Action::ListStored]
                }
            } else {
                gc.found().map_values(collects())
            },
            None => Seq::empty(),
        }
    }

    /// `self` has the scan of `before` advanced by one step; a scan that
    /// reached the end of its listing is gone and its gauges are at zero.
    pub open spec fn gc_advanced_from(&self, before: &Self) -> bool {
        &&& self.is_metadata() == before.is_metadata()
        &&& self.segment_gc_step() == before.segment_gc_step()
        &&& match before.segment_gc() {
            None => self.segment_gc() is None && self.segment_gc_metrics()
                == before.segment_gc_metrics() && self.listing_requested()
                == before.listing_requested(),
            Some(gc) => if gc.stored() is None {
                self.segment_gc() == before.segment_gc() && self.segment_gc_metrics()
                    == before.segment_gc_metrics() && self.listing_requested()
            } else if gc.exhausts() {
                self.segment_gc() is None && self.segment_gc_metrics() == (SegmentGcMetrics {
                    scanned: 0,
                    deleted: 0,
                    remaining: 0,
                }) && !self.listing_requested()
            } else {
                self.segment_gc() is Some && self.segment_gc()->0.polled_from(&gc)
                    && self.segment_gc_metrics() == self.segment_gc()->0.metrics()
                    && self.listing_requested() == before.listing_requested()
            },
        }
    }

    /// What [`Synchronizer::advance_general_queue`] asks for.
    pub open spec fn gq_actions(&self) -> Seq<Action> {
        match self.general_queue().next_task() {
            Some(task) => seq![action_of(task)],
            None => Seq::empty(),
        }
    }

    /// What [`Synchronizer::advance_repair_queue`] asks for on a segment
    /// that has been quiet for `idle_for_millis`.
    pub open spec fn rq_actions(&self, idle_for_millis: Option<u64>) -> Seq<Action> {
        self.repair_queue().starts(idle_for_millis).map_values(repairs())
    }

    /// Advances the segment scan by one step. Every version handed out for
    /// collection is within the scan's watermark and not alive in its
    /// snapshot.
    pub fn advance_segment_gc(&mut self) -> (actions: Vec<Action>)
        requires
            old(self).wf(),
        ensures
            final(self).wf(),
            final(self).counters_at_least(old(self)),
            actions@ == old(self).gc_actions(),
            final(self).gc_advanced_from(old(self)),
            final(self).general_queue() == old(self).general_queue(),
            final(self).repair_queue() == old(self).repair_queue(),
            forall|i: int|
                0 <= i < actions@.len() ==> match #[trigger] actions@[i] {
                    Action::Collect { version } => old(self).segment_gc() is Some && is_orphan(
                        old(self).segment_gc()->0.live(),
                        old(self).segment_gc()->0.watermark(),
                        version,
                    ),
                    Action::ListStored => true,
                    _ => false,
                },
            old(self).exclusive() ==> final(self).exclusive(),
    {
        let mut actions: Vec<Action> = Vec::new();
        match self.segment_gc.take() {
            None => {},
            Some(gc) => {
                let mut gc = gc;
                if gc.awaits_listing() {
                    if !self.listing_requested {
                        actions.push(Action::ListStored);
                        self.listing_requested = true;
                    }
                    self.segment_gc = Some(gc);
                    assert(actions@ == old(self).gc_actions());
                } else {
                    let found = gc.poll();
                    request_collections(&mut actions, &found.deletes);
                    assert(actions@ == found.deletes@.map_values(collects()));
                    if found.finished {
                        self.segment_gc_metrics.reset();
                        self.listing_requested = false;
                    } else {
                        self.segment_gc_metrics = gc.progress();
                        self.segment_gc = Some(gc);
                    }
                }
            },
        }
        proof {
            assert forall|v: ObjectVersion| self.stages(v) == old(self).stages(v) by {}
        }
        actions
    }

    /// Starts the next task of the general queue, if it is free to start one.
    pub fn advance_general_queue(&mut self) -> (action: Option<Action>)
        requires
            old(self).wf(),
        ensures
            final(self).wf(),
            action == match old(self).general_queue().next_task() {
                Some(task) => Some(action_of(task)),
                None => None,
            },
            final(self).general_queue().started_from(&old(self).general_queue()),
            final(self).repair_queue() == old(self).repair_queue(),
            final(self).same_scan(old(self)),
            final(self).counters_at_least(old(self)),
            old(self).exclusive() ==> final(self).exclusive(),
    {
        let started = self.general_queue.next_action();
        proof {
            if old(self).exclusive() {
                assert forall|v: ObjectVersion| #[trigger] self.stages(v) <= 1 by {
                    assert(old(self).stages(v) <= 1);
                    if started is Some {
                        assert(old(self).general_queue().pending()[0] == started->0);
                        assert(old(self).general_queue().waits_for(started->0.spec_version()));
                    }
                }
            }
        }
        match started {
            Some(Task::RepairPrep { version }) => Some(Action::Probe { version }),
            Some(Task::Delete { version }) => Some(Action::Delete { version }),
            None => None,
        }
    }

    /// Starts the repairs that the idleness gate and the limit admit on a segment
    /// that has been quiet for `idle_for_millis` (`None`: no idleness signal).
    pub fn advance_repair_queue(&mut self, idle_for_millis: Option<u64>) -> (actions: Vec<Action>)
        requires
            old(self).wf(),
        ensures
            final(self).wf(),
            actions@ == old(self).rq_actions(idle_for_millis),
            final(self).repair_queue().polled_from(&old(self).repair_queue(), idle_for_millis),
            final(self).general_queue() == old(self).general_queue(),
            final(self).same_scan(old(self)),
            final(self).counters_at_least(old(self)),
            old(self).exclusive() ==> final(self).exclusive(),
    {
        let started = self.repair_queue.poll(idle_for_millis);
        let mut actions: Vec<Action> = Vec::new();
        request_repairs(&mut actions, &started);
        proof {
            assert(actions@ == started@.map_values(repairs()));
            if old(self).exclusive() {
                assert forall|v: ObjectVersion| #[trigger] self.stages(v) <= 1 by {
                    assert(old(self).stages(v) <= 1);
                    assert(self.repair_queue().holds(v) == old(self).repair_queue().holds(v));
                }
            }
        }
        actions
    }

    /// One drive step: the segment scan advances, the general queue starts
    /// its next task, and the repair queue starts what its gate and limit
    /// admit. The result lists the operations to perform, in that order.
    pub fn poll(&mut self, idle_for_millis: Option<u64>) -> (actions: Vec<Action>)
        requires
            old(self).wf(),
        ensures
            final(self).wf(),
            actions@ == old(self).gc_actions() + old(self).gq_actions() + old(self).rq_actions(
                idle_for_millis,
            ),
            final(self).gc_advanced_from(old(self)),
            final(self).general_queue().started_from(&old(self).general_queue()),
            final(self).repair_queue().polled_from(&old(self).repair_queue(), idle_for_millis),
            final(self).counters_at_least(old(self)),
            old(self).exclusive() ==> final(self).exclusive(),
    {
        let mut actions = self.advance_segment_gc();
        match self.advance_general_queue() {
            Some(action) => {
                actions.push(action);
            },
            None => {},
        }
        assert(actions@ == old(self).gc_actions() + old(self).gq_actions());
        let mut repairs = self.advance_repair_queue(idle_for_millis);
        actions.append(&mut repairs);
        actions
    }

    /// Takes the device's answer to the task that the general queue has in
    /// execution. A probed version that the device does not hold moves on to
    /// the repair queue; every other outcome ends the task without a repair.
    pub fn task_completed(&mut self, outcome: Completion)
        requires
            old(self).wf(),
        ensures
            final(self).wf(),
            final(self).same_scan(old(self)),
            final(self).general_queue().completed_from(&old(self).general_queue()),
            match GeneralQueueExecutor::repair_needed(old(self).general_queue().running(), outcome) {
                Some(version) => final(self).repair_queue().pushed_from(
                    &old(self).repair_queue(),
                    version,
                ),
                None => final(self).repair_queue() == old(self).repair_queue(),
            },
            final(self).counters_at_least(old(self)),
            old(self).exclusive() ==> final(self).exclusive(),
    {
        match self.general_queue.complete(outcome) {
            Some(version) => {
                self.repair_queue.push(version);
            },
            None => {},
        }
        proof {
            if old(self).exclusive() {
                self.lemma_step_keeps_exclusive(old(self), Step::TaskCompleted(outcome));
            }
        }
    }

    /// Takes the outcome of the repair of `version`. The version leaves the
    /// repair queue either way; a failed repair is not taken up again.
    pub fn repair_completed(&mut self, version: ObjectVersion, success: bool)
        requires
            old(self).wf(),
        ensures
            final(self).wf(),
            final(self).same_scan(old(self)),
            final(self).general_queue() == old(self).general_queue(),
            final(self).repair_queue().completed_from(&old(self).repair_queue(), version, success),
            final(self).counters_at_least(old(self)),
            old(self).exclusive() ==> final(self).exclusive(),
    {
        self.repair_queue.complete(version, success);
        proof {
            if old(self).exclusive() {
                self.lemma_step_keeps_exclusive(old(self), Step::RepairCompleted(version, success));
            }
        }
    }

    /// Takes the device's listing of its stored versions, or `None` when
    /// the device could not list them. A scan that waits for the listing
    /// takes it; without a listing that scan is given up and its gauges go
    /// back to zero. Without such a scan nothing changes.
    pub fn stored_versions_listed(&mut self, listing: Option<Vec<ObjectVersion>>)
        requires
            old(self).wf(),
        ensures
            final(self).wf(),
            final(self).counters_at_least(old(self)),
            final(self).is_metadata() == old(self).is_metadata(),
            final(self).segment_gc_step() == old(self).segment_gc_step(),
            final(self).general_queue() == old(self).general_queue(),
            final(self).repair_queue() == old(self).repair_queue(),
            old(self).segment_gc() is Some && old(self).segment_gc()->0.stored() is None ==> match listing {
                Some(stored) => final(self).segment_gc() is Some && final(self).segment_gc()->0.listed_from(
                    &old(self).segment_gc()->0,
                    stored@,
                ) && final(self).segment_gc_metrics() == final(self).segment_gc()->0.metrics()
                    && final(self).listing_requested() == old(self).listing_requested(),
                None => final(self).segment_gc() is None && !final(self).listing_requested()
                    && final(self).segment_gc_metrics() == (SegmentGcMetrics {
                    scanned: 0,
                    deleted: 0,
                    remaining: 0,
                }),
            },
            !(old(self).segment_gc() is Some && old(self).segment_gc()->0.stored() is None)
                ==> final(self).same_scan(old(self)),
            old(self).exclusive() ==> final(self).exclusive(),
    {
        match self.segment_gc.take() {
            None => {},
            Some(gc) => {
                let mut gc = gc;
                if gc.awaits_listing() {
                    match listing {
                        Some(stored) => {
                            gc.start(stored);
                            self.segment_gc_metrics = gc.progress();
                            self.segment_gc = Some(gc);
                        },
                        None => {
                            self.segment_gc_metrics.reset();
                            self.listing_requested = false;
                        },
                    }
                } else {
                    self.segment_gc = Some(gc);
                }
            },
        }
        proof {
            assert forall|v: ObjectVersion| self.stages(v) == old(self).stages(v) by {}
        }
    }

    /// `self` is `before` after `step`.
    pub open spec fn stepped_from(&self, before: &Self, step: Step) -> bool {
        match step {
            Step::Handled(event) => self.event_handled_from(before, event),
            Step::Polled(idle_for_millis) => {
                &&& self.gc_advanced_from(before)
                &&& self.general_queue().started_from(&before.general_queue())
                &&& self.repair_queue().polled_from(&before.repair_queue(), idle_for_millis)
            },
            Step::TaskCompleted(outcome) => {
                &&& self.general_queue().completed_from(&before.general_queue())
                &&& match GeneralQueueExecutor::repair_needed(before.general_queue().running(), outcome) {
                    Some(version) => self.repair_queue().pushed_from(&before.repair_queue(), version),
                    None => self.repair_queue() == before.repair_queue(),
                }
            },
            Step::RepairCompleted(version, success) => {
                &&& self.general_queue() == before.general_queue()
                &&& self.repair_queue().completed_from(&before.repair_queue(), version, success)
            },
            Step::Controlled => {
                &&& self.general_queue() == before.general_queue()
                &&& self.repair_queue().pending() == before.repair_queue().pending()
                &&& self.repair_queue().in_flight() == before.repair_queue().in_flight()
                &&& self.repair_queue().repair_counter() == before.repair_queue().repair_counter()
            },
        }
    }

    /// Whether `step` handles an event about a version that is in execution
    /// or in the repair queue.
    pub open spec fn collides_at(&self, step: Step) -> bool {
        match step {
            Step::Handled(event) => self.collides_with(event),
            _ => false,
        }
    }

    /// The queues are well formed.
    pub open spec fn queues_wf(&self) -> bool {
        self.general_queue().wf() && self.repair_queue().wf()
    }

    /// Queue exclusivity, one step: a step that handles no colliding event
    /// leaves the queues well formed and every version in at most one
    /// place.
    pub proof fn lemma_step_keeps_exclusive(&self, before: &Self, step: Step)
        requires
            before.queues_wf(),
            before.exclusive(),
            self.stepped_from(before, step),
            !before.collides_at(step),
        ensures
            self.queues_wf(),
            self.exclusive(),
    {
        let gq = self.general_queue();
        let rq = self.repair_queue();
        let gq0 = before.general_queue();
        let rq0 = before.repair_queue();
        match step {
            Step::Handled(event) => {
                if !before.is_metadata() {
                    match event {
                        Event::Putted { version } => {
                            gq.lemma_enqueued_keeps_distinct(&gq0, Task::RepairPrep { version });
                        },
                        Event::Deleted { version } => {
                            gq.lemma_enqueued_keeps_distinct(&gq0, Task::Delete { version });
                        },
                        Event::FullSync { .. } => {},
                    }
                }
            },
            Step::Polled(idle_for_millis) => {
                gq.lemma_started_keeps_distinct(&gq0);
                rq.lemma_polled_keeps_apart(&rq0, idle_for_millis);
            },
            Step::TaskCompleted(outcome) => {
                match GeneralQueueExecutor::repair_needed(gq0.running(), outcome) {
                    Some(version) => {
                        rq.lemma_pushed_keeps_apart(&rq0, version);
                        assert(gq0.executes(version));
                    },
                    None => {},
                }
            },
            Step::RepairCompleted(version, success) => {
                rq.lemma_completed_keeps_apart(&rq0, version, success);
            },
            Step::Controlled => {},
        }
        assert forall|v: ObjectVersion| #[trigger] self.stages(v) <= 1 by {
            assert(before.stages(v) <= 1);
            assert(rq.holds(v) == (rq.pending().contains(v) || rq.in_flight().contains(v)));
            assert(rq0.holds(v) == (rq0.pending().contains(v) || rq0.in_flight().contains(v)));
        }
    }

    /// Queue exclusivity, over a run: from a state in which every version
    /// is in at most one place, through steps of which none handles an
    /// event about a version that is in execution or in the repair queue at
    /// that moment, every state has every version in at most one place:
    /// waiting in the general queue, in execution there, waiting in the
    /// repair queue, under repair, or in none of them.
    pub proof fn lemma_run_keeps_exclusive(states: Seq<Synchronizer>, steps: Seq<Step>)
        requires
            states.len() == steps.len() + 1,
            states[0].queues_wf(),
            states[0].exclusive(),
            forall|i: int|
                0 <= i < steps.len() ==> (#[trigger] states[i + 1]).stepped_from(&states[i], steps[i])
                    && !states[i].collides_at(steps[i]),
        ensures
            forall|i: int|
                0 <= i < states.len() ==> (#[trigger] states[i]).queues_wf() && states[i].exclusive(),
        decreases steps.len(),
    {
        if steps.len() > 0 {
            let last = steps.len() as int;
            let earlier = states.drop_last();
            assert forall|i: int| 0 <= i < last - 1 implies (#[trigger] earlier[i + 1]).stepped_from(
                &earlier[i],
                steps.drop_last()[i],
            ) && !earlier[i].collides_at(steps.drop_last()[i]) by {
                assert(earlier[i + 1] == states[i + 1]);
            }
            Self::lemma_run_keeps_exclusive(earlier, steps.drop_last());
            assert(earlier[last - 1] == states[last - 1]);
            assert(states[last - 1 + 1].stepped_from(&states[last - 1], steps[last - 1]));
            states[last].lemma_step_keeps_exclusive(&states[last - 1], steps[last - 1]);
            assert forall|i: int| 0 <= i < states.len() implies (#[trigger] states[i]).queues_wf()
                && states[i].exclusive() by {
                if i < last {
                    assert(earlier[i] == states[i]);
                }
            }
        }
    }

    /// Counter monotonicity, one step: no step lowers a counter.
    pub proof fn lemma_step_keeps_counters(&self, before: &Self, step: Step)
        requires
            self.stepped_from(before, step),
        ensures
            self.counters_at_least(before),
    {
    }

    /// Counter monotonicity, over a run: no counter of a later state is
    /// below its value in an earlier state.
    pub proof fn lemma_run_keeps_counters(
        states: Seq<Synchronizer>,
        steps: Seq<Step>,
        earlier: int,
        later: int,
    )
        requires
            states.len() == steps.len() + 1,
            forall|i: int|
                0 <= i < steps.len() ==> (#[trigger] states[i + 1]).stepped_from(&states[i], steps[i]),
            0 <= earlier <= later < states.len(),
        ensures
            states[later].counters_at_least(&states[earlier]),
        decreases later - earlier,
    {
        if earlier < later {
            Self::lemma_run_keeps_counters(states, steps, earlier, later - 1);
            assert(states[later - 1 + 1].stepped_from(&states[later - 1], steps[later - 1]));
            states[later].lemma_step_keeps_counters(&states[later - 1], steps[later - 1]);
        }
    }

    /// Delete subsumes put: when a `Deleted` of a version is handled right
    /// after a `Putted` of it, the repair queue is as it was, no probe of the
    /// version waits in the general queue, and the deletion waits there as
    /// the youngest task. `start` is the synchronizer before the two events,
    /// `put` after the first, `end` after the second.
    pub proof fn lemma_delete_subsumes_put(start: &Self, put: &Self, end: &Self, version: ObjectVersion)
        requires
            start.wf(),
            !start.is_metadata(),
            put.event_handled_from(start, Event::Putted { version }),
            end.event_handled_from(put, Event::Deleted { version }),
        ensures
            end.repair_queue() == start.repair_queue(),
            !end.general_queue().pending().contains(Task::RepairPrep { version }),
            end.general_queue().pending().last() == (Task::Delete { version }),
            end.general_queue().running() == start.general_queue().running(),
    {
        GeneralQueueExecutor::lemma_delete_subsumes_put(
            &start.general_queue(),
            &put.general_queue(),
            &end.general_queue(),
            version,
        );
    }

    /// While the idleness gate is shut, a drive step asks for no repair,
    /// however many versions wait.
    pub proof fn lemma_gate_shut_asks_for_no_repair(
        &self,
        threshold_millis: u64,
        idle_for_millis: Option<u64>,
    )
        requires
            self.repair_queue().idleness_threshold() == RepairIdleness::Threshold(threshold_millis),
            idle_for_millis is None || idle_for_millis->0 < threshold_millis,
        ensures
            self.rq_actions(idle_for_millis) == Seq::<Action>::empty(),
    {
        self.repair_queue().lemma_gate_shut(threshold_millis, idle_for_millis);
        assert(self.rq_actions(idle_for_millis).len() == 0);
    }

    /// With the idleness gate disabled, a drive step asks for the repair of
    /// the oldest waiting versions up to the concurrency limit, whatever the
    /// client traffic is.
    pub proof fn lemma_gate_disabled_ignores_traffic(
        &self,
        idle_for_millis: Option<u64>,
        other: Option<u64>,
    )
        requires
            self.repair_queue().idleness_threshold() == RepairIdleness::Disabled,
        ensures
            self.rq_actions(idle_for_millis) == self.rq_actions(other),
            self.rq_actions(idle_for_millis).len() <= self.repair_queue().pending().len(),
            self.repair_queue().in_flight().len() <= self.repair_queue().concurrency_limit()
                ==> self.repair_queue().in_flight().len() + self.rq_actions(idle_for_millis).len()
                <= self.repair_queue().concurrency_limit(),
    {
        self.repair_queue().lemma_gate_disabled(idle_for_millis, other);
        self.repair_queue().lemma_gate_open(idle_for_millis);
    }

    /// The hand-off is a move: when a probe finds no content, its version
    /// leaves the general queue and waits in the repair queue, and is in no
    /// other place. `before` and `after` are the synchronizer around
    /// [`Synchronizer::task_completed`] with the outcome `Absent`.
    pub proof fn lemma_hand_off_moves(before: &Self, after: &Self, version: ObjectVersion)
        requires
            before.exclusive(),
            before.general_queue().running() == Some(Task::RepairPrep { version }),
            after.general_queue().completed_from(&before.general_queue()),
            after.repair_queue().pushed_from(&before.repair_queue(), version),
        ensures
            !after.general_queue().executes(version),
            !after.general_queue().waits_for(version),
            after.repair_queue().pending().contains(version),
            !after.repair_queue().in_flight().contains(version),
            after.stages(version) == 1,
    {
        assert(before.stages(version) <= 1);
        assert(before.general_queue().executes(version));
        let waiting = before.repair_queue().pending();
        assert(waiting.push(version)[waiting.len() as int] == version);
    }

    /// A probe that finds the content on the device asks for no repair:
    /// the repair queue stays as it is, and the probe counts as dequeued
    /// once. `before` and `after` are the synchronizer around
    /// [`Synchronizer::task_completed`] with the outcome `Present`.
    pub proof fn lemma_held_content_needs_no_repair(before: &Self, after: &Self, version: ObjectVersion)
        requires
            before.general_queue().running() == Some(Task::RepairPrep { version }),
            after.general_queue().completed_from(&before.general_queue()),
            match GeneralQueueExecutor::repair_needed(
                before.general_queue().running(),
                Completion::Present,
            ) {
                Some(needed) => after.repair_queue().pushed_from(&before.repair_queue(), needed),
                None => after.repair_queue() == before.repair_queue(),
            },
        ensures
            after.repair_queue() == before.repair_queue(),
            after.general_queue().repair_prep_counter().dequeued == raised(
                before.general_queue().repair_prep_counter().dequeued,
                1,
            ),
            after.general_queue().repair_prep_counter().enqueued
                == before.general_queue().repair_prep_counter().enqueued,
    {
    }

    /// Single flight of the scan: a full sync that arrives while a scan is
    /// in progress is dropped. The scan, its gauges and what the
    /// synchronizer asks for next are what they would have been without
    /// the event. `before` and `after` are the synchronizer around
    /// [`Synchronizer::handle_event`] with the event `full_sync`.
    pub proof fn lemma_single_scan(before: &Self, after: &Self, full_sync: Event)
        requires
            full_sync is FullSync,
            before.segment_gc() is Some,
            after.event_handled_from(before, full_sync),
        ensures
            after.segment_gc() == before.segment_gc(),
            after.segment_gc_metrics() == before.segment_gc_metrics(),
            after.gc_actions() == before.gc_actions(),
    {
    }

    /// Whether a segment scan is in progress.
    pub fn is_scanning(&self) -> (scanning: bool)
        ensures
            scanning == (self.segment_gc() is Some),
    {
        self.segment_gc.is_some()
    }

    /// The gauges of the segment scan.
    pub fn scan_progress(&self) -> (metrics: SegmentGcMetrics)
        ensures
            metrics == self.segment_gc_metrics(),
    {
        self.segment_gc_metrics
    }

    /// The general queue, to read its length and counters.
    pub fn general(&self) -> (queue: &GeneralQueueExecutor)
        ensures
            *queue == self.general_queue(),
    {
        &self.general_queue
    }

    /// The repair queue, to read its length, knobs and counter.
    pub fn repair(&self) -> (queue: &RepairQueueExecutor)
        ensures
            *queue == self.repair_queue(),
    {
        &self.repair_queue
    }
}

} // verus!
