use embassy::action::docker::{DockerAction, Failure, ImageId};
use embassy::action::ActionImplementation;
use embassy::dependencies::{
    CheckOutcome, DepInfo, DependencyConfig, DependencyError, TaggedDependencyError,
};
use embassy::error::{Error, ErrorKind};
use embassy::id::{Id, PackageId};
use embassy::ordered_map::OrderedMap;
use embassy::status::health_check::{HealthCheckResult, HealthCheckResultVariant, Timestamp};
use embassy::status::MainStatus;
use embassy::version::{Operator, Version, VersionRange};

fn action(entrypoint: &str) -> ActionImplementation {
    ActionImplementation::Docker(DockerAction {
        image: ImageId(Id::new("main").unwrap()),
        system: false,
        entrypoint: entrypoint.to_owned(),
        args: vec![],
        mounts: OrderedMap::new(),
        io_format: None,
        inject: false,
        shm_size_mb: None,
    })
}

fn info(with_check: bool) -> DepInfo {
    DepInfo {
        version: VersionRange::Anchor(Operator::Gte, Version::new(1, 0, 0, 0)),
        optional: None,
        description: None,
        config: if with_check {
            Some(DependencyConfig { check: action("check"), auto_configure: action("auto") })
        } else {
            None
        },
    }
}

fn result(result: HealthCheckResultVariant) -> HealthCheckResult {
    HealthCheckResult { time: Timestamp(1620757289000), result }
}

fn running(health: Vec<(&str, HealthCheckResultVariant)>) -> MainStatus {
    let mut map = OrderedMap::new();
    for (name, r) in health {
        map.insert(name.to_owned(), result(r));
    }
    MainStatus::Running { started: Timestamp(1), health: map }
}

fn rules_violation(text: &str) -> CheckOutcome {
    CheckOutcome::Failed(Error::of(ErrorKind::ConfigRulesViolation, text))
}

#[test]
fn not_installed() {
    let r = info(true).satisfied(None, rules_violation("ignored")).unwrap();
    assert!(matches!(r, Err(DependencyError::NotInstalled)));
    assert!(!info(true).needs_check(None));
}

#[test]
fn incorrect_version_comes_before_everything_else() {
    let v = Version::new(0, 9, 0, 0);
    let main = MainStatus::Stopped;
    let r = info(true).satisfied(Some((&v, &main)), rules_violation("ignored")).unwrap();
    match r {
        Err(DependencyError::IncorrectVersion { expected, received }) => {
            assert_eq!(expected.to_string(), ">=1.0.0");
            assert_eq!(received, v);
        }
        other => panic!("{:?}", other),
    }
    assert!(!info(true).needs_check(Some((&v, &main))));
}

#[test]
fn a_failed_check_makes_the_config_unsatisfied() {
    let v = Version::new(1, 0, 0, 0);
    let main = running(vec![]);
    assert!(info(true).needs_check(Some((&v, &main))));
    assert!(!info(false).needs_check(Some((&v, &main))));
    let r = info(true).satisfied(Some((&v, &main)), rules_violation("pruning must be manual"));
    assert!(matches!(
        r.unwrap(),
        Err(DependencyError::ConfigUnsatisfied { error }) if error == "pruning must be manual"
    ));
}

#[test]
fn a_check_that_could_not_run_is_fatal() {
    let v = Version::new(1, 0, 0, 0);
    let main = running(vec![]);
    let r = info(true).satisfied(
        Some((&v, &main)),
        CheckOutcome::Failed(Error::of(ErrorKind::Docker, "daemon gone")),
    );
    let e = r.unwrap_err();
    assert_eq!(e.kind, ErrorKind::Docker);
    assert_eq!(e.message, "daemon gone");
}

#[test]
fn a_failed_check_counts_only_where_a_check_is_declared() {
    let v = Version::new(1, 0, 0, 0);
    let main = running(vec![]);
    let r = info(false).satisfied(Some((&v, &main)), rules_violation("nobody asked"));
    assert!(matches!(r.unwrap(), Ok(())));
}

#[test]
fn not_running() {
    let v = Version::new(1, 0, 0, 0);
    for main in [
        MainStatus::Stopped,
        MainStatus::Stopping,
        MainStatus::Restoring { running: true },
        MainStatus::BackingUp { started: None, health: OrderedMap::new() },
    ] {
        let r = info(false).satisfied(Some((&v, &main)), CheckOutcome::NotRun).unwrap();
        assert!(matches!(r, Err(DependencyError::NotRunning)));
    }
}

#[test]
fn a_package_backing_up_counts_as_running_if_it_was() {
    let v = Version::new(1, 0, 0, 0);
    let main = MainStatus::BackingUp { started: Some(Timestamp(1)), health: OrderedMap::new() };
    let r = info(false).satisfied(Some((&v, &main)), CheckOutcome::Passed).unwrap();
    assert!(matches!(r, Ok(())));
}

#[test]
fn every_result_that_is_no_success_is_a_failure_of_the_dependency() {
    let v = Version::new(1, 0, 0, 0);
    let main = running(vec![
        ("rpc", HealthCheckResultVariant::Success),
        ("sync", HealthCheckResultVariant::Failure { error: "behind".to_owned() }),
        ("tor", HealthCheckResultVariant::Disabled),
        ("web", HealthCheckResultVariant::Success),
    ]);
    let r = info(false).satisfied(Some((&v, &main)), CheckOutcome::NotRun).unwrap();
    match r {
        Err(DependencyError::HealthChecksFailed { failures }) => {
            assert_eq!(failures.len(), 2);
            assert_eq!(failures.key_at(0), "sync");
            assert_eq!(failures.key_at(1), "tor");
            assert!(matches!(failures.value_at(1).result, HealthCheckResultVariant::Disabled));
        }
        other => panic!("{:?}", other),
    }
}

#[test]
fn satisfied_when_running_and_healthy() {
    let v = Version::new(1, 4, 0, 0);
    let main = running(vec![("rpc", HealthCheckResultVariant::Success)]);
    let r = info(true).satisfied(Some((&v, &main)), CheckOutcome::Passed).unwrap();
    assert!(matches!(r, Ok(())));
}

#[test]
fn messages() {
    assert_eq!(DependencyError::NotInstalled.to_string(), "Not Installed");
    assert_eq!(DependencyError::NotRunning.to_string(), "Not Running");
    assert_eq!(
        DependencyError::IncorrectVersion {
            expected: VersionRange::Anchor(Operator::Gte, Version::new(0, 2, 0, 0)),
            received: Version::new(0, 1, 0, 0),
        }
        .to_string(),
        "Incorrect Version: Expected >=0.2.0, Received 0.1.0"
    );
    assert_eq!(
        DependencyError::ConfigUnsatisfied { error: "pruning".to_owned() }.to_string(),
        "Configuration Requirements Not Satisfied: pruning"
    );
    let mut failures = OrderedMap::new();
    failures.insert(
        "rpc".to_owned(),
        result(HealthCheckResultVariant::Failure { error: "down".to_owned() }),
    );
    failures.insert("tor".to_owned(), result(HealthCheckResultVariant::Disabled));
    assert_eq!(
        DependencyError::HealthChecksFailed { failures }.to_string(),
        "Failed Health Check(s): rpc @ 1620757289000 failure: down, tor @ 1620757289000 disabled"
    );
    let tagged = TaggedDependencyError {
        dependency: PackageId::new("bitcoind").unwrap(),
        error: DependencyError::NotRunning,
    };
    assert_eq!(tagged.to_string(), "bitcoind: Not Running");
}

#[test]
fn outcomes_of_the_sandboxed_actions() {
    let config = DependencyConfig { check: action("check"), auto_configure: action("auto") };
    assert!(config.check(Ok(())).is_ok());
    let e = config
        .check(Err(Failure { code: 1, stderr: "rejects 9999".to_owned() }))
        .unwrap_err();
    assert_eq!((e.kind, e.message.as_str()), (ErrorKind::ConfigRulesViolation, "rejects 9999"));
    assert_eq!(config.auto_configure(Ok(7u8)).unwrap(), 7);
    let e = config
        .auto_configure::<u8>(Err(Failure { code: 2, stderr: "cannot".to_owned() }))
        .unwrap_err();
    assert_eq!((e.kind, e.message.as_str()), (ErrorKind::AutoConfigure, "cannot"));
}
