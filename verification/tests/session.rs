use embassy::action::docker::{DockerAction, Failure, ImageId};
use embassy::action::ActionImplementation;
use embassy::backup::BackupActions;
use embassy::config::action::{ConfigActions, ConfigRes};
use embassy::config::configure::finish;
use embassy::config::session::{Request, Session};
use embassy::config::spec::{
    ConfigSelector, ConfigSpec, Field, PackagePointerSpecVariant, ValueSpec,
};
use embassy::config::value::{same_configs, Json, Number, Property};
use embassy::config::{Bound, NumRange};
use embassy::db::{
    AllPackageData, InstalledPackageDataEntry, InterfaceAddressMap, InterfaceInfo, StaticFiles,
};
use embassy::dependencies::{
    DepInfo, Dependencies, DependencyConfig, DependencyError,
};
use embassy::error::ErrorKind;
use embassy::id::{Id, PackageId};
use embassy::install::complete;
use embassy::migration::Migrations;
use embassy::ordered_map::OrderedMap;
use embassy::s9pk::manifest::{
    Actions, Alerts, Assets, Description, HealthChecks, Interfaces, Manifest,
};
use embassy::status::{DependencyErrors, MainStatus, Status};
use embassy::version::{Version, VersionRange};
use embassy::volume::Volumes;
use rand::SeedableRng;

fn name(s: &str) -> PackageId {
    PackageId::new(s).unwrap()
}

fn hook(entrypoint: &str) -> ActionImplementation {
    ActionImplementation::Docker(DockerAction {
        image: ImageId(Id::new("main").unwrap()),
        system: false,
        entrypoint: entrypoint.to_owned(),
        args: vec![],
        mounts: OrderedMap::new(),
        io_format: None,
        inject: false,
        shm_size_mb: None,
    })
}

fn put(db: &mut AllPackageData, id: &str, deps: &[(&str, bool)], configurable: bool) {
    let mut dependencies = OrderedMap::new();
    let mut pointers = OrderedMap::new();
    for (dependency, checked) in deps {
        dependencies.insert(
            dependency.to_string(),
            DepInfo {
                version: VersionRange::Any,
                optional: None,
                description: None,
                config: if *checked {
                    Some(DependencyConfig { check: hook("check"), auto_configure: hook("auto") })
                } else {
                    None
                },
            },
        );
        pointers.insert(
            dependency.to_string(),
            vec![PackagePointerSpecVariant::Config {
                selector: ConfigSelector(vec!["port".to_owned()]),
                multi: false,
            }],
        );
    }
    let version = Version::new(1, 0, 0, 0);
    let installed = InstalledPackageDataEntry {
        manifest: Manifest {
            id: name(id),
            title: id.to_owned(),
            version,
            description: Description { short: String::new(), long: String::new() },
            assets: Assets::default(),
            build: None,
            release_notes: String::new(),
            license: "mit".to_owned(),
            wrapper_repo: String::new(),
            upstream_repo: String::new(),
            support_site: None,
            marketing_site: None,
            alerts: Alerts::default(),
            main: hook("run"),
            health_checks: HealthChecks(OrderedMap::new()),
            config: if configurable {
                Some(ConfigActions { get: hook("get"), set: hook("set") })
            } else {
                None
            },
            volumes: Volumes::new(),
            min_os_version: Version::new(0, 3, 0, 0),
            interfaces: Interfaces(OrderedMap::new()),
            backup: BackupActions { create: hook("create"), restore: hook("restore") },
            migrations: Migrations::default(),
            actions: Actions(OrderedMap::new()),
            dependencies: Dependencies(dependencies),
        },
        status: Status {
            configured: false,
            main: MainStatus::Stopped,
            dependencies: DependencyErrors::new(),
        },
        system_pointers: vec![],
        dependents: OrderedMap::new(),
        required_dependencies: OrderedMap::new(),
        interface_info: InterfaceInfo { ip: 0, addresses: InterfaceAddressMap(OrderedMap::new()) },
    };
    complete(db, &name(id), StaticFiles::local(&name(id), &version, "png"), installed, pointers);
}

/// `a` and `e` depend on `b`, and `c` on `a`; all but `e` check the
/// configuration of what they depend on.
fn record() -> AllPackageData {
    let mut db = AllPackageData(OrderedMap::new());
    put(&mut db, "b", &[], true);
    put(&mut db, "a", &[("b", true)], true);
    put(&mut db, "c", &[("a", true)], true);
    put(&mut db, "e", &[("b", false)], true);
    db
}

fn port(n: i64) -> Vec<Property> {
    vec![Property { name: "port".to_owned(), value: Json::Number(Number::whole(n)) }]
}

fn schema() -> ConfigSpec {
    ConfigSpec(vec![Field {
        name: "port".to_owned(),
        spec: ValueSpec::Number {
            range: Some(NumRange {
                min: Some(Bound { value: 1, inclusive: true }),
                max: Some(Bound { value: 65535, inclusive: true }),
            }),
            integral: true,
            nullable: false,
            default: Some(Number::whole(8080)),
        },
    }])
}

fn has(n: Option<i64>) -> Result<ConfigRes, Failure> {
    Ok(ConfigRes { config: n.map(port), spec: schema() })
}

fn rng() -> rand::rngs::StdRng {
    rand::rngs::StdRng::seed_from_u64(7)
}

fn failed(stderr: &str) -> Failure {
    Failure { code: 1, stderr: stderr.to_owned() }
}

fn stack(session: &Session) -> Vec<&str> {
    session.frames.iter().map(|f| f.id.as_str()).collect()
}

#[test]
fn a_run_reads_then_checks_then_writes() {
    let db = record();
    let mut session = Session::begin(&name("b"), Some(port(9999)), false);
    match session.request(&db).unwrap() {
        Request::Read { package, argv } => {
            assert_eq!(package, "b");
            assert_eq!(argv, vec!["run", "--rm", "--entrypoint", "get", "start9/b/main:1.0.0"]);
        }
        other => panic!("{:?}", other),
    }
    session.read(&db, has(Some(8332)), &mut rng(), &None).unwrap();
    assert!(same_configs(session.run.overrides.get("b").unwrap(), &port(9999)));
    assert!(same_configs(session.configs.get("b").unwrap(), &port(8332)));
    match session.request(&db).unwrap() {
        Request::Check { package, dependent, argv, input } => {
            assert_eq!((package.as_str(), dependent.as_str()), ("b", "a"));
            assert_eq!(argv, vec!["run", "--rm", "--entrypoint", "check", "start9/a/main:1.0.0"]);
            assert!(same_configs(&input, &port(9999)));
        }
        other => panic!("{:?}", other),
    }
    session.checked(&db, Err(failed("port 9999 is taken"))).unwrap();
    assert_eq!(stack(&session), vec!["b"]);
    match session.request(&db).unwrap() {
        Request::Write { package, argv, input } => {
            assert_eq!(package, "b");
            assert_eq!(argv, vec!["run", "--rm", "--entrypoint", "set", "start9/b/main:1.0.0"]);
            assert!(same_configs(&input, &port(9999)));
        }
        other => panic!("{:?}", other),
    }
    let kept = session.written(&db, Ok(OrderedMap::new())).unwrap();
    assert_eq!(kept.len(), 0);
    assert!(matches!(session.request(&db).unwrap(), Request::Done));
    let broken: Vec<&str> =
        (0..session.run.breakages.len()).map(|i| session.run.breakages.key_at(i)).collect();
    assert_eq!(broken, vec!["a", "c"]);
    let a = session.run.breakages.get("a").unwrap();
    assert_eq!(a.dependency, "b");
    assert!(
        matches!(&a.error, DependencyError::ConfigUnsatisfied { error } if error == "port 9999 is taken")
    );
    let c = session.run.breakages.get("c").unwrap();
    assert_eq!(c.dependency, "a");
    assert!(matches!(c.error, DependencyError::NotRunning));
    let mut db = db;
    let res = finish(&mut db, &name("b"), session.run, true);
    assert_eq!(res.patch, vec!["b", "a", "c"]);
    assert!(!db.installed("b").unwrap().status.configured);
    assert_eq!(db.installed("a").unwrap().status.dependencies.0.len(), 0);
}

#[test]
fn a_dependent_whose_pointer_sees_a_change_is_configured_anew() {
    let db = record();
    let mut session = Session::begin(&name("b"), Some(port(9999)), false);
    session.read(&db, has(Some(8332)), &mut rng(), &None).unwrap();
    session.checked(&db, Ok(())).unwrap();
    assert_eq!(stack(&session), vec!["b", "a"]);
    assert!(matches!(session.request(&db).unwrap(), Request::Read { package, .. } if package == "a"));
    session.read(&db, has(None), &mut rng(), &None).unwrap();
    assert!(same_configs(session.run.overrides.get("a").unwrap(), &port(8080)));
    assert!(session.configs.get("a").is_none());
    assert!(
        matches!(session.request(&db).unwrap(), Request::Check { package, dependent, .. } if package == "a" && dependent == "c")
    );
    session.checked(&db, Ok(())).unwrap();
    assert_eq!(stack(&session), vec!["b", "a", "c"]);
    session.read(&db, has(Some(1)), &mut rng(), &None).unwrap();
    assert_eq!(stack(&session), vec!["b", "a"]);
    assert!(session.run.overrides.get("c").is_none());
    assert!(matches!(session.request(&db).unwrap(), Request::Write { package, .. } if package == "a"));
    session.written(&db, Ok(OrderedMap::new())).unwrap();
    assert!(matches!(session.request(&db).unwrap(), Request::Write { package, .. } if package == "b"));
    let mut used = OrderedMap::new();
    used.insert("a".to_owned(), vec!["rpc".to_owned()]);
    assert_eq!(session.written(&db, Ok(used)).unwrap().len(), 0);
    assert!(matches!(session.request(&db).unwrap(), Request::Done));
    assert_eq!(session.run.breakages.len(), 0);
    let mut db = db;
    let res = finish(&mut db, &name("b"), session.run, false);
    assert_eq!(res.patch, vec!["b"]);
    assert!(db.installed("b").unwrap().status.configured);
    assert!(!db.installed("a").unwrap().status.configured);
}

#[test]
fn a_configuration_that_stays_the_same_ends_the_run_at_once() {
    let db = record();
    let mut session = Session::begin(&name("b"), None, false);
    session.read(&db, has(Some(8332)), &mut rng(), &None).unwrap();
    assert!(stack(&session).is_empty());
    assert!(matches!(session.request(&db).unwrap(), Request::Done));
    assert_eq!(session.run.overrides.len(), 0);
    let mut session = Session::begin(&name("b"), Some(port(8332)), false);
    session.read(&db, has(Some(8332)), &mut rng(), &None).unwrap();
    assert!(stack(&session).is_empty());
}

#[test]
fn a_package_without_dependents_that_check_is_written_at_once() {
    let db = record();
    let mut session = Session::begin(&name("c"), Some(port(2)), false);
    session.read(&db, has(Some(1)), &mut rng(), &None).unwrap();
    assert!(matches!(session.request(&db).unwrap(), Request::Write { package, .. } if package == "c"));
}

#[test]
fn what_stands_against_a_run_is_reported_by_kind() {
    let db = record();
    let mut session = Session::begin(&name("b"), Some(port(0)), false);
    let e = session.read(&db, has(Some(8332)), &mut rng(), &None).unwrap_err();
    assert_eq!(e.kind, ErrorKind::ConfigSpecViolation);
    assert_eq!(e.message, "port: Number Out Of Range: expected [1,65535], actual: 0");
    assert_eq!(stack(&session), vec!["b"]);
    assert_eq!(session.run.overrides.len(), 0);
    let mut session = Session::begin(&name("b"), None, false);
    let e = session.read(&db, Err(failed("no config here")), &mut rng(), &None).unwrap_err();
    assert_eq!((e.kind, e.message.as_str()), (ErrorKind::ConfigGen, "no config here"));
    let mut session = Session::begin(&name("nobody"), None, false);
    assert_eq!(session.request(&db).unwrap_err().kind, ErrorKind::NotFound);
    assert_eq!(session.read(&db, has(None), &mut rng(), &None).unwrap_err().kind, ErrorKind::NotFound);
    let mut session = Session::begin(&name("b"), Some(port(9999)), false);
    session.read(&db, has(Some(8332)), &mut rng(), &None).unwrap();
    session.checked(&db, Ok(())).unwrap();
    session.read(&db, has(Some(5)), &mut rng(), &None).unwrap();
    let e = session.written(&db, Err(failed("cannot write"))).unwrap_err();
    assert_eq!((e.kind, e.message.as_str()), (ErrorKind::ConfigRulesViolation, "cannot write"));
    assert_eq!(stack(&session), vec!["b"]);
}

#[test]
fn a_run_told_what_it_does_not_wait_for_refuses_it() {
    let db = record();
    let mut session = Session::begin(&name("b"), Some(port(9999)), false);
    assert_eq!(session.checked(&db, Ok(())).unwrap_err().kind, ErrorKind::Unknown);
    assert_eq!(session.written(&db, Ok(OrderedMap::new())).unwrap_err().kind, ErrorKind::Unknown);
    session.read(&db, has(Some(8332)), &mut rng(), &None).unwrap();
    assert_eq!(session.read(&db, has(Some(8332)), &mut rng(), &None).unwrap_err().kind, ErrorKind::Unknown);
    assert_eq!(session.written(&db, Ok(OrderedMap::new())).unwrap_err().kind, ErrorKind::Unknown);
    session.checked(&db, Err(failed("no"))).unwrap();
    assert_eq!(session.checked(&db, Ok(())).unwrap_err().kind, ErrorKind::Unknown);
    session.written(&db, Ok(OrderedMap::new())).unwrap();
    assert_eq!(session.read(&db, has(None), &mut rng(), &None).unwrap_err().kind, ErrorKind::Unknown);
    assert_eq!(session.checked(&db, Ok(())).unwrap_err().kind, ErrorKind::Unknown);
    assert_eq!(stack(&session), Vec::<&str>::new());
}

#[test]
fn a_dry_run_checks_everything_and_writes_nothing() {
    let db = record();
    let mut session = Session::begin(&name("b"), Some(port(9999)), true);
    assert!(matches!(session.request(&db).unwrap(), Request::Read { package, .. } if package == "b"));
    session.read(&db, has(Some(8332)), &mut rng(), &None).unwrap();
    assert!(
        matches!(session.request(&db).unwrap(), Request::Check { package, dependent, .. } if package == "b" && dependent == "a")
    );
    session.checked(&db, Ok(())).unwrap();
    assert!(matches!(session.request(&db).unwrap(), Request::Read { package, .. } if package == "a"));
    session.read(&db, has(None), &mut rng(), &None).unwrap();
    assert!(
        matches!(session.request(&db).unwrap(), Request::Check { package, dependent, .. } if package == "a" && dependent == "c")
    );
    session.checked(&db, Err(failed("no"))).unwrap();
    assert_eq!(stack(&session), vec!["b", "a"]);
    assert_eq!(session.written(&db, Ok(OrderedMap::new())).unwrap_err().kind, ErrorKind::Unknown);
    assert!(matches!(session.request(&db).unwrap(), Request::Done));
    assert!(stack(&session).is_empty());
    assert_eq!(session.run.breakages.key_at(0), "c");
    let mut db = db;
    let res = finish(&mut db, &name("b"), session.run, true);
    assert_eq!(res.patch, vec!["b", "c"]);
    assert!(!db.installed("b").unwrap().status.configured);
}
