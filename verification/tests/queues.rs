use frugalos::event::{position, Event};
use frugalos::general_queue::{Completion, GeneralQueueExecutor, Task};
use frugalos::metrics::{ItemCounter, SegmentGcMetrics};
use frugalos::repair::{RepairConfig, RepairIdleness};
use frugalos::repair_queue::RepairQueueExecutor;
use frugalos::segment_gc::SegmentGc;

#[test]
fn general_queue_runs_in_arrival_order() {
    let mut queue = GeneralQueueExecutor::new();
    queue.push(&Event::Putted { version: 3 });
    queue.push(&Event::Deleted { version: 1 });
    queue.push(&Event::Putted { version: 2 });
    assert_eq!(queue.len(), 3);
    assert_eq!(queue.next_action(), Some(Task::RepairPrep { version: 3 }));
    assert_eq!(queue.running_task(), Some(Task::RepairPrep { version: 3 }));
    // one task at a time
    assert_eq!(queue.next_action(), None);
    assert_eq!(queue.complete(Completion::Absent), Some(3));
    assert_eq!(queue.next_action(), Some(Task::Delete { version: 1 }));
    assert_eq!(queue.complete(Completion::Deleted), None);
    assert_eq!(queue.next_action(), Some(Task::RepairPrep { version: 2 }));
    assert_eq!(queue.complete(Completion::Present), None);
    assert_eq!(queue.next_action(), None);
    assert_eq!(queue.repair_prep_items(), ItemCounter { enqueued: 2, dequeued: 2 });
    assert_eq!(queue.delete_items(), ItemCounter { enqueued: 1, dequeued: 1 });
}

#[test]
fn general_queue_keeps_the_latest_event_of_a_version() {
    let mut queue = GeneralQueueExecutor::new();
    queue.push(&Event::Putted { version: 1 });
    queue.push(&Event::Putted { version: 2 });
    queue.push(&Event::Putted { version: 1 });
    assert_eq!(queue.len(), 2);
    assert_eq!(queue.repair_prep_items(), ItemCounter { enqueued: 3, dequeued: 1 });
    assert_eq!(queue.next_action(), Some(Task::RepairPrep { version: 2 }));
    queue.complete(Completion::Present);
    assert_eq!(queue.next_action(), Some(Task::RepairPrep { version: 1 }));
}

#[test]
fn general_queue_ignores_full_sync_and_stray_completions() {
    let mut queue = GeneralQueueExecutor::new();
    queue.push(&Event::FullSync { machine: vec![1], next_commit: 2 });
    assert_eq!(queue.len(), 0);
    assert_eq!(queue.complete(Completion::Absent), None);
    assert_eq!(queue.repair_prep_items(), ItemCounter { enqueued: 0, dequeued: 0 });
    assert_eq!(queue.delete_items(), ItemCounter { enqueued: 0, dequeued: 0 });
}

#[test]
fn delete_probe_with_other_outcomes_asks_for_no_repair() {
    let mut queue = GeneralQueueExecutor::new();
    queue.enqueue(Task::Delete { version: 4 });
    assert_eq!(queue.next_action(), Some(Task::Delete { version: 4 }));
    assert_eq!(queue.complete(Completion::Absent), None);
    queue.enqueue(Task::RepairPrep { version: 5 });
    queue.next_action();
    assert_eq!(queue.complete(Completion::Deleted), None);
    assert_eq!(Task::Delete { version: 4 }.version(), 4);
    assert_eq!(Task::RepairPrep { version: 5 }.version(), 5);
}

#[test]
fn repair_queue_gate_disabled_ignores_activity() {
    let mut queue = RepairQueueExecutor::new(3, RepairIdleness::Disabled);
    for version in [10u64, 11, 12, 13] {
        queue.push(version);
    }
    assert_eq!(queue.poll(Some(0)), vec![10, 11, 12]);
    assert_eq!(queue.in_flight_len(), 3);
    assert_eq!(queue.len(), 1);
    assert_eq!(queue.poll(None), Vec::<u64>::new());
    queue.complete(11, true);
    assert_eq!(queue.poll(None), vec![13]);
    assert_eq!(queue.repair_items(), ItemCounter { enqueued: 4, dequeued: 1 });
}

#[test]
fn repair_queue_gate_opens_at_the_threshold() {
    let mut queue = RepairQueueExecutor::new(1, RepairIdleness::Threshold(100));
    queue.push(1);
    queue.push(2);
    assert_eq!(queue.poll(Some(99)), Vec::<u64>::new());
    assert_eq!(queue.poll(None), Vec::<u64>::new());
    assert_eq!(queue.poll(Some(100)), vec![1]);
    assert_eq!(queue.poll(Some(1000)), Vec::<u64>::new());
}

#[test]
fn repair_queue_takes_a_version_once() {
    let mut queue = RepairQueueExecutor::new(1, RepairIdleness::Disabled);
    queue.push(1);
    queue.push(1);
    assert_eq!(queue.len(), 1);
    assert_eq!(queue.poll(None), vec![1]);
    queue.push(1);
    assert_eq!(queue.len(), 0);
    assert_eq!(queue.repair_items(), ItemCounter { enqueued: 1, dequeued: 0 });
    // a completion for a version that is not under way changes nothing
    queue.complete(2, true);
    assert_eq!(queue.in_flight_len(), 1);
    assert_eq!(queue.repair_items(), ItemCounter { enqueued: 1, dequeued: 0 });
    queue.complete(1, true);
    assert_eq!(queue.in_flight_len(), 0);
    assert_eq!(queue.repair_items(), ItemCounter { enqueued: 1, dequeued: 1 });
}

#[test]
fn repair_queue_with_zero_limit_starts_nothing() {
    let mut queue = RepairQueueExecutor::new(0, RepairIdleness::Disabled);
    queue.push(1);
    assert_eq!(queue.poll(Some(5)), Vec::<u64>::new());
    queue.set_repair_concurrency_limit(2);
    assert_eq!(queue.repair_concurrency_limit(), 2);
    queue.set_repair_idleness_threshold(RepairIdleness::Threshold(7));
    assert_eq!(queue.repair_idleness_threshold(), RepairIdleness::Threshold(7));
    assert_eq!(queue.poll(Some(7)), vec![1]);
}

#[test]
fn idleness_admits_as_documented() {
    assert!(RepairIdleness::Disabled.is_admitting(None));
    assert!(RepairIdleness::Disabled.is_admitting(Some(0)));
    assert!(!RepairIdleness::Threshold(5).is_admitting(None));
    assert!(!RepairIdleness::Threshold(5).is_admitting(Some(4)));
    assert!(RepairIdleness::Threshold(5).is_admitting(Some(5)));
    assert!(RepairIdleness::Threshold(0).is_admitting(Some(0)));
}

#[test]
fn default_repair_config_changes_nothing() {
    assert_eq!(
        RepairConfig::default(),
        RepairConfig {
            repair_concurrency_limit: None,
            repair_idleness_threshold: None,
            segment_gc_concurrency_limit: None,
        }
    );
}

#[test]
fn segment_gc_scans_in_steps() {
    let mut gc = SegmentGc::new(vec![1, 3], 4, 2);
    assert!(gc.awaits_listing());
    let idle = gc.poll();
    assert_eq!(idle.deletes, Vec::<u64>::new());
    assert!(!idle.finished);
    gc.start(vec![1, 2, 3, 4]);
    assert!(!gc.awaits_listing());
    // a second listing is ignored
    gc.start(vec![7, 8, 9]);
    let first = gc.poll();
    assert_eq!(first.deletes, vec![2]);
    assert!(!first.finished);
    assert_eq!(gc.progress(), SegmentGcMetrics { scanned: 2, deleted: 1, remaining: 2 });
    let second = gc.poll();
    assert_eq!(second.deletes, vec![4]);
    assert!(second.finished);
    assert_eq!(gc.progress(), SegmentGcMetrics { scanned: 4, deleted: 2, remaining: 0 });
}

#[test]
fn segment_gc_last_step_may_be_short() {
    let mut gc = SegmentGc::new(vec![], 10, 2);
    gc.start(vec![5, 11, 6]);
    let first = gc.poll();
    assert_eq!(first.deletes, vec![5]);
    assert!(!first.finished);
    gc.set_step(100);
    let second = gc.poll();
    assert_eq!(second.deletes, vec![6]);
    assert!(second.finished);
}

#[test]
fn counters_stop_at_the_largest_value() {
    let mut counter = ItemCounter { enqueued: u64::MAX - 1, dequeued: u64::MAX };
    counter.record_enqueued();
    counter.record_dequeued();
    assert_eq!(counter, ItemCounter { enqueued: u64::MAX, dequeued: u64::MAX });
    counter.record_enqueued();
    assert_eq!(counter.enqueued, u64::MAX);
    let mut fresh = ItemCounter::new();
    fresh.record_dequeued();
    assert_eq!(fresh, ItemCounter { enqueued: 0, dequeued: 1 });
    let mut gauges = SegmentGcMetrics { scanned: 3, deleted: 2, remaining: 1 };
    gauges.reset();
    assert_eq!(gauges, SegmentGcMetrics::new());
}

#[test]
fn position_finds_the_first_occurrence() {
    assert_eq!(position(&vec![4, 5, 4], 4), Some(0));
    assert_eq!(position(&vec![4, 5, 4], 5), Some(1));
    assert_eq!(position(&vec![4, 5, 4], 6), None);
    assert_eq!(position(&vec![], 6), None);
}
