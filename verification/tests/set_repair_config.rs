use frugalos::command::{RepairConfigMatches, SetRepairConfigCommand};
use frugalos::repair::{RepairConfig, RepairIdleness};
use std::time::Duration;

fn millis_of(seconds: &str) -> u64 {
    let seconds: f64 = seconds.parse().unwrap();
    (seconds * 1000.0).round() as u64
}

#[test]
fn get_repair_config_from_matches_work_correctly() {
    // set-repair-config --repair-idleness-threshold 4.0
    let matches = RepairConfigMatches {
        disable_repair_idleness: false,
        repair_idleness_threshold_millis: Some(millis_of("4.0")),
    };
    let repair_config = SetRepairConfigCommand::get_repair_config_from_matches(&matches);
    println!("{:?}", repair_config);
    if let RepairConfig {
        repair_concurrency_limit: None,
        repair_idleness_threshold: Some(RepairIdleness::Threshold(millis)),
        segment_gc_concurrency_limit: None,
    } = repair_config
    {
        assert_eq!(Duration::from_millis(millis), Duration::from_secs(4))
    } else {
        panic!();
    }
}

#[test]
fn get_repair_config_from_matches_work_correctly_disable() {
    // set-repair-config --disable-repair-idleness --repair-idleness-threshold 10.0
    let matches = RepairConfigMatches {
        disable_repair_idleness: true,
        repair_idleness_threshold_millis: Some(millis_of("10.0")),
    };
    let repair_config = SetRepairConfigCommand::get_repair_config_from_matches(&matches);
    if let RepairConfig {
        repair_concurrency_limit: None,
        repair_idleness_threshold: Some(RepairIdleness::Disabled),
        segment_gc_concurrency_limit: None,
    } = repair_config
    {
    } else {
        panic!();
    }
}

#[test]
fn no_flag_leaves_the_gate_as_it_is() {
    let matches =
        RepairConfigMatches { disable_repair_idleness: false, repair_idleness_threshold_millis: None };
    assert_eq!(
        SetRepairConfigCommand::get_repair_config_from_matches(&matches),
        RepairConfig::default()
    );
}

#[test]
fn disable_alone_disables_the_gate() {
    let matches =
        RepairConfigMatches { disable_repair_idleness: true, repair_idleness_threshold_millis: None };
    assert_eq!(
        SetRepairConfigCommand::get_repair_config_from_matches(&matches).repair_idleness_threshold,
        Some(RepairIdleness::Disabled)
    );
}

#[test]
fn fractional_seconds_become_milliseconds() {
    let matches = RepairConfigMatches {
        disable_repair_idleness: false,
        repair_idleness_threshold_millis: Some(millis_of("0.25")),
    };
    assert_eq!(
        SetRepairConfigCommand::get_repair_config_from_matches(&matches).repair_idleness_threshold,
        Some(RepairIdleness::Threshold(250))
    );
}
