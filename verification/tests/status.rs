use embassy::action::docker::Failure;
use embassy::error::ErrorKind;
use embassy::ordered_map::OrderedMap;
use embassy::status::health_check::{
    HealthCheckResult, HealthCheckResultVariant, Timestamp, DISABLED_EXIT_CODE,
};
use embassy::status::sweep::{containers_listed, restart_needed, LISTING_FORMAT};
use embassy::status::{
    check_anomaly, observe, MainStatus, Observation, SyncAction, STOP_TIMEOUT, UNEXPECTED_STATUS,
};

fn running() -> MainStatus {
    MainStatus::Running { started: Timestamp(5), health: OrderedMap::new() }
}

fn backing_up() -> MainStatus {
    MainStatus::BackingUp { started: Some(Timestamp(5)), health: OrderedMap::new() }
}

fn all() -> Vec<MainStatus> {
    vec![
        MainStatus::Stopped,
        MainStatus::Stopping,
        running(),
        backing_up(),
        MainStatus::Restoring { running: false },
    ]
}

const STOP: SyncAction = SyncAction::Stop { timeout: 30 };
const UNPAUSE_STOP: SyncAction = SyncAction::UnpauseThenStop { timeout: 30 };

#[test]
fn stop_timeout_is_thirty_seconds() {
    assert_eq!(STOP_TIMEOUT, 30);
}

#[test]
fn observed_states() {
    assert_eq!(observe(Some("created")), Some(Observation::Created));
    assert_eq!(observe(Some("exited")), Some(Observation::Exited));
    assert_eq!(observe(Some("running")), Some(Observation::Running));
    assert_eq!(observe(Some("restarting")), Some(Observation::Restarting));
    assert_eq!(observe(Some("paused")), Some(Observation::Paused));
    assert_eq!(observe(Some("dead")), None);
    assert_eq!(observe(Some("Running")), None);
    assert_eq!(observe(None), None);
}

#[test]
fn a_created_or_exited_container() {
    for state in ["created", "exited"] {
        let expected = [
            SyncAction::Nothing,
            SyncAction::Nothing,
            SyncAction::Start,
            SyncAction::Nothing,
            SyncAction::Nothing,
        ];
        for (mut status, want) in all().into_iter().zip(expected) {
            assert_eq!(status.synchronize(Some(state), Timestamp(9)).unwrap(), want);
        }
    }
}

#[test]
fn a_stopping_package_whose_container_is_down_has_stopped() {
    let mut s = MainStatus::Stopping;
    s.synchronize(Some("exited"), Timestamp(9)).unwrap();
    assert!(matches!(s, MainStatus::Stopped));
    let mut s = MainStatus::Stopping;
    s.synchronize(Some("running"), Timestamp(9)).unwrap();
    assert!(matches!(s, MainStatus::Stopping));
}

#[test]
fn a_started_package_counts_as_started_now() {
    let mut s = running();
    assert_eq!(s.synchronize(Some("created"), Timestamp(77)).unwrap(), SyncAction::Start);
    assert!(matches!(s, MainStatus::Running { started: Timestamp(77), .. }));
    let mut s = running();
    s.synchronize(Some("running"), Timestamp(77)).unwrap();
    assert!(matches!(s, MainStatus::Running { started: Timestamp(5), .. }));
}

#[test]
fn a_running_or_restarting_container() {
    for state in ["running", "restarting"] {
        let expected =
            [STOP, SyncAction::Nothing, SyncAction::Nothing, SyncAction::Pause, STOP];
        for (mut status, want) in all().into_iter().zip(expected) {
            assert_eq!(status.synchronize(Some(state), Timestamp(9)).unwrap(), want);
        }
    }
}

#[test]
fn a_paused_container() {
    let expected = [
        UNPAUSE_STOP,
        SyncAction::Nothing,
        SyncAction::Unpause,
        SyncAction::Nothing,
        UNPAUSE_STOP,
    ];
    for (mut status, want) in all().into_iter().zip(expected) {
        assert_eq!(status.synchronize(Some("paused"), Timestamp(9)).unwrap(), want);
    }
}

#[test]
fn an_unknown_state_is_a_docker_error_and_changes_nothing() {
    for state in [Some("removing"), Some("dead"), Some(""), None] {
        let mut s = MainStatus::Stopping;
        let e = s.synchronize(state, Timestamp(9)).unwrap_err();
        assert_eq!(e.kind, ErrorKind::Docker);
        assert!(matches!(s, MainStatus::Stopping));
    }
}

#[test]
fn only_stops_are_looked_at_again() {
    assert!(STOP.needs_inspection());
    assert!(UNPAUSE_STOP.needs_inspection());
    for a in [SyncAction::Nothing, SyncAction::Start, SyncAction::Pause, SyncAction::Unpause] {
        assert!(!a.needs_inspection());
    }
}

#[test]
fn still_running_after_a_stop_is_the_anomaly() {
    assert!(check_anomaly(Some("running")));
    assert!(!check_anomaly(Some("exited")));
    assert!(!check_anomaly(Some("restarting")));
    assert!(!check_anomaly(None));
}

#[test]
fn the_runtime_is_restarted_once_however_many_anomalies() {
    assert!(!restart_needed(&vec![]));
    assert!(!restart_needed(&vec![false, false, false]));
    assert!(restart_needed(&vec![false, true, false]));
    assert!(restart_needed(&vec![true, true, true, true]));
}

fn failure(code: i32, stderr: &str) -> Result<(), Failure> {
    Err(Failure { code, stderr: stderr.to_owned() })
}

#[test]
fn exit_code_59_means_disabled() {
    assert_eq!(DISABLED_EXIT_CODE, 59);
    let r = HealthCheckResult::check(failure(59, "whatever"), Timestamp(3));
    assert_eq!(r.time, Timestamp(3));
    assert!(matches!(r.result, HealthCheckResultVariant::Disabled));
}

#[test]
fn any_other_failure_carries_the_standard_error() {
    for code in [1, 58, 60, -1, 0] {
        let r = HealthCheckResult::check(failure(code, "no peers"), Timestamp(3));
        assert!(matches!(&r.result, HealthCheckResultVariant::Failure { error } if error == "no peers"));
        assert!(r.failed());
    }
}

#[test]
fn a_clean_exit_means_success() {
    let r = HealthCheckResult::check(Ok(()), Timestamp(3));
    assert!(matches!(r.result, HealthCheckResultVariant::Success));
    assert!(r.succeeded());
    assert!(!r.failed());
}

#[test]
fn the_listing_of_the_runtime_is_read_line_by_line() {
    assert_eq!(LISTING_FORMAT, "{{.Names}}\t{{.State}}");
    let listed = containers_listed("service_a_1.0.0\trunning\n\nservice_b_1.0.0,alias\texited\nbare\n");
    assert_eq!(listed.len(), 3);
    assert_eq!(listed[0].names, vec!["service_a_1.0.0"]);
    assert_eq!(listed[0].state.as_deref(), Some("running"));
    assert_eq!(listed[1].names, vec!["service_b_1.0.0", "alias"]);
    assert_eq!(listed[1].state.as_deref(), Some("exited"));
    assert_eq!(listed[2].names, vec!["bare"]);
    assert_eq!(listed[2].state, None);
    assert!(containers_listed("").is_empty());
    let odd = containers_listed("\tpaused\ta");
    assert_eq!(odd.len(), 1);
    assert_eq!(odd[0].names, vec![""]);
    assert_eq!(odd[0].state.as_deref(), Some("paused\ta"));
}

#[test]
fn a_state_that_is_not_known_is_named_as_such() {
    let mut main = running();
    let e = main.synchronize(Some("dead"), Timestamp(9)).unwrap_err();
    assert_eq!(e.kind, ErrorKind::Docker);
    assert_eq!(e.message, UNEXPECTED_STATUS);
    assert_eq!(UNEXPECTED_STATUS, "Unexpected Docker Status");
    assert!(matches!(main, MainStatus::Running { started: Timestamp(5), .. }));
}
