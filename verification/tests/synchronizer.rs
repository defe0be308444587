use frugalos::event::Event;
use frugalos::general_queue::Completion;
use frugalos::metrics::{ItemCounter, SegmentGcMetrics};
use frugalos::repair::{RepairConfig, RepairIdleness};
use frugalos::repair_queue::DEFAULT_REPAIR_CONCURRENCY_LIMIT;
use frugalos::synchronizer::{Action, Synchronizer};

fn full_sync(machine: Vec<u64>, next_commit: u64) -> Event {
    Event::FullSync { machine, next_commit }
}

#[test]
fn plain_put_is_probed_then_repaired() {
    let mut sync = Synchronizer::new(false, 100);
    sync.handle_event(&Event::Putted { version: 7 });
    assert_eq!(sync.poll(None), vec![Action::Probe { version: 7 }]);
    // the probe is under way: nothing more to do
    assert_eq!(sync.poll(None), vec![]);
    sync.task_completed(Completion::Absent);
    assert_eq!(sync.poll(None), vec![Action::Repair { version: 7 }]);
    assert_eq!(sync.repair().in_flight_len(), 1);
    sync.repair_completed(7, true);
    assert_eq!(sync.repair().in_flight_len(), 0);
    assert_eq!(sync.repair().len(), 0);
    assert_eq!(sync.general().repair_prep_items(), ItemCounter { enqueued: 1, dequeued: 1 });
    assert_eq!(sync.repair().repair_items(), ItemCounter { enqueued: 1, dequeued: 1 });
    assert_eq!(sync.general().delete_items(), ItemCounter { enqueued: 0, dequeued: 0 });
    assert_eq!(sync.poll(None), vec![]);
}

#[test]
fn put_then_delete_only_deletes() {
    let mut sync = Synchronizer::new(false, 100);
    sync.handle_event(&Event::Putted { version: 7 });
    sync.handle_event(&Event::Deleted { version: 7 });
    assert_eq!(sync.general().len(), 1);
    assert_eq!(sync.poll(None), vec![Action::Delete { version: 7 }]);
    sync.task_completed(Completion::Deleted);
    assert_eq!(sync.poll(None), vec![]);
    assert_eq!(sync.repair().len(), 0);
    assert_eq!(sync.repair().repair_items(), ItemCounter { enqueued: 0, dequeued: 0 });
    // the cancelled probe left the queue, the deletion ran
    assert_eq!(sync.general().repair_prep_items(), ItemCounter { enqueued: 1, dequeued: 1 });
    assert_eq!(sync.general().delete_items(), ItemCounter { enqueued: 1, dequeued: 1 });
}

#[test]
fn put_on_held_content_needs_no_repair() {
    let mut sync = Synchronizer::new(false, 100);
    sync.handle_event(&Event::Putted { version: 9 });
    assert_eq!(sync.poll(None), vec![Action::Probe { version: 9 }]);
    sync.task_completed(Completion::Present);
    assert_eq!(sync.poll(None), vec![]);
    assert_eq!(sync.repair().len(), 0);
    assert_eq!(sync.general().repair_prep_items(), ItemCounter { enqueued: 1, dequeued: 1 });
    assert_eq!(sync.repair().repair_items(), ItemCounter { enqueued: 0, dequeued: 0 });
}

#[test]
fn failed_probe_is_dropped() {
    let mut sync = Synchronizer::new(false, 100);
    sync.handle_event(&Event::Putted { version: 9 });
    sync.handle_event(&Event::Putted { version: 10 });
    assert_eq!(sync.poll(None), vec![Action::Probe { version: 9 }]);
    sync.task_completed(Completion::Failed);
    assert_eq!(sync.repair().len(), 0);
    // the queue goes on with the next task
    assert_eq!(sync.poll(None), vec![Action::Probe { version: 10 }]);
}

#[test]
fn full_sync_collects_orphans_in_steps() {
    let mut sync = Synchronizer::new(false, 2);
    sync.handle_event(&full_sync(vec![1, 3], 4));
    assert!(sync.is_scanning());
    assert_eq!(sync.poll(None), vec![Action::ListStored]);
    // the listing is asked for once
    assert_eq!(sync.poll(None), vec![]);
    sync.stored_versions_listed(Some(vec![1, 2, 3, 4]));
    assert_eq!(sync.scan_progress(), SegmentGcMetrics { scanned: 0, deleted: 0, remaining: 4 });
    assert_eq!(sync.poll(None), vec![Action::Collect { version: 2 }]);
    assert_eq!(sync.scan_progress(), SegmentGcMetrics { scanned: 2, deleted: 1, remaining: 2 });
    assert!(sync.is_scanning());
    assert_eq!(sync.poll(None), vec![Action::Collect { version: 4 }]);
    assert!(!sync.is_scanning());
    assert_eq!(sync.scan_progress(), SegmentGcMetrics { scanned: 0, deleted: 0, remaining: 0 });
    assert_eq!(sync.poll(None), vec![]);
}

#[test]
fn second_full_sync_is_dropped_while_scanning() {
    let mut sync = Synchronizer::new(false, 10);
    sync.handle_event(&full_sync(vec![1], 5));
    assert_eq!(sync.poll(None), vec![Action::ListStored]);
    sync.stored_versions_listed(Some(vec![1, 2]));
    // a second snapshot, in which 2 is alive, must not replace the first
    sync.handle_event(&full_sync(vec![1, 2], 5));
    assert_eq!(sync.poll(None), vec![Action::Collect { version: 2 }]);
    assert!(!sync.is_scanning());
    // once the scan is over the next full sync starts a new one
    sync.handle_event(&full_sync(vec![1, 2], 5));
    assert!(sync.is_scanning());
    assert_eq!(sync.poll(None), vec![Action::ListStored]);
}

#[test]
fn scan_spares_versions_beyond_the_watermark() {
    let mut sync = Synchronizer::new(false, 10);
    sync.handle_event(&full_sync(vec![2], 4));
    sync.poll(None);
    sync.stored_versions_listed(Some(vec![1, 2, 4, 5, 9]));
    assert_eq!(
        sync.poll(None),
        vec![Action::Collect { version: 1 }, Action::Collect { version: 4 }]
    );
    assert!(!sync.is_scanning());
}

#[test]
fn scan_without_listing_is_given_up() {
    let mut sync = Synchronizer::new(false, 10);
    sync.handle_event(&full_sync(vec![2], 4));
    assert_eq!(sync.poll(None), vec![Action::ListStored]);
    sync.stored_versions_listed(None);
    assert!(!sync.is_scanning());
    assert_eq!(sync.poll(None), vec![]);
    sync.handle_event(&full_sync(vec![2], 4));
    assert_eq!(sync.poll(None), vec![Action::ListStored]);
}

#[test]
fn empty_listing_ends_the_scan_at_once() {
    let mut sync = Synchronizer::new(false, 3);
    sync.handle_event(&full_sync(vec![], 4));
    sync.poll(None);
    sync.stored_versions_listed(Some(vec![]));
    assert_eq!(sync.poll(None), vec![]);
    assert!(!sync.is_scanning());
}

#[test]
fn listing_without_scan_changes_nothing() {
    let mut sync = Synchronizer::new(false, 3);
    sync.stored_versions_listed(Some(vec![1, 2, 3]));
    assert!(!sync.is_scanning());
    assert_eq!(sync.poll(None), vec![]);
}

#[test]
fn metadata_segment_ignores_events() {
    let mut sync = Synchronizer::new(true, 2);
    sync.handle_event(&Event::Putted { version: 1 });
    sync.handle_event(&Event::Deleted { version: 2 });
    sync.handle_event(&full_sync(vec![1], 3));
    assert_eq!(sync.general().len(), 0);
    assert!(!sync.is_scanning());
    assert_eq!(sync.poll(None), vec![]);
    assert_eq!(sync.general().repair_prep_items(), ItemCounter { enqueued: 0, dequeued: 0 });
}

#[test]
fn new_synchronizer_has_default_knobs() {
    let sync = Synchronizer::new(false, 2);
    assert_eq!(sync.repair().repair_concurrency_limit(), DEFAULT_REPAIR_CONCURRENCY_LIMIT);
    assert_eq!(sync.repair().repair_idleness_threshold(), RepairIdleness::Disabled);
    assert_eq!(sync.general().running_task(), None);
}

#[test]
fn repairs_wait_for_idleness() {
    let mut sync = Synchronizer::new(false, 2);
    sync.set_repair_config(RepairConfig {
        repair_concurrency_limit: Some(2),
        repair_idleness_threshold: Some(RepairIdleness::Threshold(100)),
        segment_gc_concurrency_limit: None,
    });
    for version in 1..=5u64 {
        sync.handle_event(&Event::Putted { version });
        assert_eq!(sync.poll(Some(0)), vec![Action::Probe { version }]);
        sync.task_completed(Completion::Absent);
    }
    assert_eq!(sync.repair().len(), 5);
    assert_eq!(sync.poll(Some(50)), vec![]);
    assert_eq!(sync.poll(None), vec![]);
    assert_eq!(
        sync.poll(Some(150)),
        vec![Action::Repair { version: 1 }, Action::Repair { version: 2 }]
    );
    // the limit is reached
    assert_eq!(sync.poll(Some(150)), vec![]);
    sync.repair_completed(1, false);
    assert_eq!(sync.poll(Some(150)), vec![Action::Repair { version: 3 }]);
    // a failed repair is not taken up again and does not count as done
    assert_eq!(sync.repair().repair_items(), ItemCounter { enqueued: 5, dequeued: 0 });
    assert_eq!(sync.repair().len(), 2);
}

#[test]
fn set_repair_idleness_threshold_replaces_the_gate() {
    let mut sync = Synchronizer::new(false, 2);
    sync.set_repair_idleness_threshold(RepairIdleness::Threshold(10));
    assert_eq!(sync.repair().repair_idleness_threshold(), RepairIdleness::Threshold(10));
    sync.set_repair_idleness_threshold(RepairIdleness::Disabled);
    assert_eq!(sync.repair().repair_idleness_threshold(), RepairIdleness::Disabled);
}

#[test]
fn set_repair_config_applies_only_what_is_given() {
    let mut sync = Synchronizer::new(false, 2);
    sync.set_repair_config(RepairConfig {
        repair_concurrency_limit: Some(8),
        repair_idleness_threshold: None,
        segment_gc_concurrency_limit: None,
    });
    assert_eq!(sync.repair().repair_concurrency_limit(), 8);
    assert_eq!(sync.repair().repair_idleness_threshold(), RepairIdleness::Disabled);
    sync.set_repair_config(RepairConfig::default());
    assert_eq!(sync.repair().repair_concurrency_limit(), 8);
    // the step applies to the scan in progress
    sync.handle_event(&full_sync(vec![], 9));
    sync.poll(None);
    sync.stored_versions_listed(Some(vec![1, 2, 3]));
    sync.set_repair_config(RepairConfig {
        repair_concurrency_limit: None,
        repair_idleness_threshold: None,
        segment_gc_concurrency_limit: Some(1),
    });
    assert_eq!(sync.poll(None), vec![Action::Collect { version: 1 }]);
    assert_eq!(sync.poll(None), vec![Action::Collect { version: 2 }]);
}

#[test]
fn drive_step_orders_scan_then_general_then_repair() {
    let mut sync = Synchronizer::new(false, 5);
    sync.handle_event(&Event::Putted { version: 1 });
    sync.poll(None);
    sync.task_completed(Completion::Absent);
    sync.handle_event(&Event::Deleted { version: 2 });
    sync.handle_event(&full_sync(vec![], 9));
    assert_eq!(
        sync.poll(None),
        vec![Action::ListStored, Action::Delete { version: 2 }, Action::Repair { version: 1 }]
    );
}

#[test]
fn counters_never_decrease_over_a_run() {
    let mut sync = Synchronizer::new(false, 2);
    let mut last = (
        sync.general().repair_prep_items(),
        sync.general().delete_items(),
        sync.repair().repair_items(),
    );
    for round in 0..20u64 {
        if round % 3 == 0 {
            sync.handle_event(&Event::Deleted { version: round });
        } else {
            sync.handle_event(&Event::Putted { version: round });
        }
        let actions = sync.poll(None);
        for action in actions {
            match action {
                Action::Probe { version } => {
                    let outcome = if version % 2 == 0 { Completion::Absent } else { Completion::Present };
                    sync.task_completed(outcome);
                }
                Action::Delete { .. } => sync.task_completed(Completion::Deleted),
                Action::Repair { version } => sync.repair_completed(version, version % 4 == 0),
                Action::ListStored | Action::Collect { .. } => {}
            }
        }
        let now = (
            sync.general().repair_prep_items(),
            sync.general().delete_items(),
            sync.repair().repair_items(),
        );
        assert!(now.0.enqueued >= last.0.enqueued && now.0.dequeued >= last.0.dequeued);
        assert!(now.1.enqueued >= last.1.enqueued && now.1.dequeued >= last.1.dequeued);
        assert!(now.2.enqueued >= last.2.enqueued && now.2.dequeued >= last.2.dequeued);
        last = now;
    }
    assert_eq!(last.0.enqueued, 13);
    assert_eq!(last.1.enqueued, 7);
}

#[test]
fn version_is_in_one_place_at_a_time() {
    // (waiting, in execution, waiting for repair, under repair)
    fn places(sync: &Synchronizer) -> (usize, usize, usize, usize) {
        (
            sync.general().len(),
            usize::from(sync.general().running_task().is_some()),
            sync.repair().len(),
            sync.repair().in_flight_len(),
        )
    }
    let mut sync = Synchronizer::new(false, 2);
    assert_eq!(places(&sync), (0, 0, 0, 0));
    sync.handle_event(&Event::Putted { version: 7 });
    assert_eq!(places(&sync), (1, 0, 0, 0));
    sync.poll(None);
    assert_eq!(places(&sync), (0, 1, 0, 0));
    sync.task_completed(Completion::Absent);
    assert_eq!(places(&sync), (0, 0, 1, 0));
    sync.poll(None);
    assert_eq!(places(&sync), (0, 0, 0, 1));
    sync.repair_completed(7, true);
    assert_eq!(places(&sync), (0, 0, 0, 0));
}

#[test]
fn delete_does_not_preempt_a_repair() {
    let mut sync = Synchronizer::new(false, 2);
    sync.handle_event(&Event::Putted { version: 7 });
    sync.poll(None);
    sync.task_completed(Completion::Absent);
    assert_eq!(sync.poll(None), vec![Action::Repair { version: 7 }]);
    // the repair is under way when the deletion arrives
    sync.handle_event(&Event::Deleted { version: 7 });
    assert_eq!(sync.repair().in_flight_len(), 1);
    assert_eq!(sync.poll(None), vec![Action::Delete { version: 7 }]);
    assert_eq!(sync.repair().in_flight_len(), 1);
    sync.task_completed(Completion::Deleted);
    sync.repair_completed(7, true);
    assert_eq!(sync.repair().repair_items(), ItemCounter { enqueued: 1, dequeued: 1 });
    assert_eq!(sync.general().delete_items(), ItemCounter { enqueued: 1, dequeued: 1 });
}

#[test]
fn lowered_limit_stops_new_repairs_only() {
    let mut sync = Synchronizer::new(false, 2);
    sync.set_repair_config(RepairConfig {
        repair_concurrency_limit: Some(2),
        repair_idleness_threshold: None,
        segment_gc_concurrency_limit: None,
    });
    for version in 1..=3u64 {
        sync.handle_event(&Event::Putted { version });
        sync.poll(None);
        sync.task_completed(Completion::Absent);
    }
    // the first two went under way as they arrived
    assert_eq!(sync.repair().in_flight_len(), 2);
    assert_eq!(sync.repair().len(), 1);
    sync.set_repair_config(RepairConfig {
        repair_concurrency_limit: Some(1),
        repair_idleness_threshold: None,
        segment_gc_concurrency_limit: None,
    });
    sync.repair_completed(1, true);
    assert_eq!(sync.poll(None), vec![]);
    sync.repair_completed(2, true);
    assert_eq!(sync.poll(None), vec![Action::Repair { version: 3 }]);
}
