use embassy::action::docker::{DockerAction, ImageId};
use embassy::action::ActionImplementation;
use embassy::backup::BackupActions;
use embassy::config::spec::{ConfigSelector, PackagePointerSpecVariant};
use embassy::db::{
    AllPackageData, InstalledPackageDataEntry, InterfaceAddressMap, InterfaceInfo,
    PackageDataEntry, StaticFiles,
};
use embassy::dependencies::{DepInfo, Dependencies};
use embassy::error::ErrorKind;
use embassy::graph::{check_acyclic, would_close_cycle};
use embassy::id::{Id, PackageId};
use embassy::install::{begin, complete, fail};
use embassy::links::{link, unlink};
use embassy::migration::Migrations;
use embassy::ordered_map::OrderedMap;
use embassy::remove::remove;
use embassy::s9pk::manifest::{
    Actions, Alerts, Assets, Description, HealthChecks, Interfaces, Manifest,
};
use embassy::status::{DependencyErrors, MainStatus, Status};
use embassy::version::{Version, VersionRange};
use embassy::volume::Volumes;

fn id_of(s: &str) -> PackageId {
    PackageId::new(s).unwrap()
}

fn run(entrypoint: &str) -> ActionImplementation {
    ActionImplementation::Docker(DockerAction {
        image: ImageId(Id::new("main").unwrap()),
        system: false,
        entrypoint: entrypoint.to_owned(),
        args: vec![],
        mounts: OrderedMap::new(),
        io_format: None,
        inject: false,
        shm_size_mb: None,
    })
}

fn package(id: &str, deps: &[&str], dependents: &[(&str, &str)]) -> InstalledPackageDataEntry {
    let mut dependencies = OrderedMap::new();
    for name in deps {
        dependencies.insert(
            name.to_string(),
            DepInfo { version: VersionRange::Any, optional: None, description: None, config: None },
        );
    }
    InstalledPackageDataEntry {
        manifest: Manifest {
            id: id_of(id),
            title: id.to_owned(),
            version: Version::new(1, 0, 0, 0),
            description: Description { short: String::new(), long: String::new() },
            assets: Assets::default(),
            build: None,
            release_notes: String::new(),
            license: "mit".to_owned(),
            wrapper_repo: String::new(),
            upstream_repo: String::new(),
            support_site: None,
            marketing_site: None,
            alerts: Alerts::default(),
            main: run("run"),
            health_checks: HealthChecks(OrderedMap::new()),
            config: None,
            volumes: Volumes::new(),
            min_os_version: Version::new(0, 3, 0, 0),
            interfaces: Interfaces(OrderedMap::new()),
            backup: BackupActions { create: run("create"), restore: run("restore") },
            migrations: Migrations::default(),
            actions: Actions(OrderedMap::new()),
            dependencies: Dependencies(dependencies),
        },
        status: Status {
            configured: false,
            main: MainStatus::Stopped,
            dependencies: DependencyErrors::new(),
        },
        system_pointers: vec![],
        dependents: pointers(dependents),
        required_dependencies: OrderedMap::new(),
        interface_info: InterfaceInfo { ip: 0, addresses: InterfaceAddressMap(OrderedMap::new()) },
    }
}

fn pointer(property: &str) -> PackagePointerSpecVariant {
    PackagePointerSpecVariant::Config {
        selector: ConfigSelector(vec![property.to_owned()]),
        multi: false,
    }
}

fn pointers(of: &[(&str, &str)]) -> OrderedMap<Vec<PackagePointerSpecVariant>> {
    let mut map = OrderedMap::new();
    for (name, property) in of {
        map.insert(name.to_string(), vec![pointer(property)]);
    }
    map
}

fn files(id: &str) -> StaticFiles {
    StaticFiles::local(&id_of(id), &Version::new(1, 0, 0, 0), "png")
}

fn install(db: &mut AllPackageData, id: &str, deps: &[&str], into: &[(&str, &str)]) {
    complete(db, &id_of(id), files(id), package(id, deps, &[]), pointers(into));
}

/// The dependents of a package, each with the properties its pointers
/// look at.
fn dependents(db: &AllPackageData, id: &str) -> Vec<(String, Vec<String>)> {
    let d = &db.installed(id).unwrap().dependents;
    (0..d.len())
        .map(|i| {
            let properties = d
                .value_at(i)
                .iter()
                .map(|p| match p {
                    PackagePointerSpecVariant::Config { selector, .. } => selector.0.join("."),
                    _ => String::new(),
                })
                .collect();
            (d.key_at(i).to_owned(), properties)
        })
        .collect()
}

fn names(db: &AllPackageData, id: &str) -> Vec<String> {
    dependents(db, id).into_iter().map(|(name, _)| name).collect()
}

/// Of two installed packages, the one names the other as a dependent
/// exactly if the other declares it.
fn in_step(db: &AllPackageData) -> bool {
    (0..db.0.len()).all(|a| {
        (0..db.0.len()).all(|b| match (db.0.value_at(a).installed(), db.0.value_at(b).installed()) {
            (Some(dependent), Some(dependency)) => {
                dependency.dependents.contains_key(db.0.key_at(a))
                    == dependent.manifest.dependencies.0.contains_key(db.0.key_at(b))
            }
            _ => true,
        })
    })
}

fn empty() -> AllPackageData {
    AllPackageData(OrderedMap::new())
}

#[test]
fn installing_links_the_package_with_its_dependencies() {
    let mut db = empty();
    install(&mut db, "b", &[], &[]);
    install(&mut db, "a", &["b", "x"], &[("b", "port"), ("x", "host")]);
    assert_eq!(dependents(&db, "b"), vec![("a".to_owned(), vec!["port".to_owned()])]);
    assert!(names(&db, "a").is_empty());
    install(&mut db, "c", &["a", "b"], &[("a", "user")]);
    assert_eq!(dependents(&db, "a"), vec![("c".to_owned(), vec!["user".to_owned()])]);
    assert_eq!(
        dependents(&db, "b"),
        vec![("a".to_owned(), vec!["port".to_owned()]), ("c".to_owned(), vec![])]
    );
    assert!(names(&db, "c").is_empty());
    assert!(in_step(&db));
}

#[test]
fn a_package_installed_late_names_those_that_were_waiting_for_it() {
    let mut db = empty();
    install(&mut db, "a", &["b"], &[("b", "port")]);
    install(&mut db, "c", &["b"], &[]);
    install(&mut db, "z", &[], &[]);
    assert!(in_step(&db));
    complete(
        &mut db,
        &id_of("b"),
        files("b"),
        package("b", &[], &[("c", "user"), ("z", "stale")]),
        OrderedMap::new(),
    );
    assert_eq!(
        dependents(&db, "b"),
        vec![("a".to_owned(), vec![]), ("c".to_owned(), vec!["user".to_owned()])]
    );
    assert!(in_step(&db));
}

#[test]
fn installing_anew_without_a_dependency_cuts_the_link() {
    let mut db = empty();
    install(&mut db, "b", &[], &[]);
    install(&mut db, "a", &["b"], &[("b", "port")]);
    install(&mut db, "c", &["a"], &[("a", "user")]);
    assert_eq!(names(&db, "b"), vec!["a"]);
    complete(
        &mut db,
        &id_of("a"),
        files("a"),
        package("a", &[], &[("c", "user")]),
        OrderedMap::new(),
    );
    assert!(names(&db, "b").is_empty());
    assert_eq!(dependents(&db, "a"), vec![("c".to_owned(), vec!["user".to_owned()])]);
    let order: Vec<&str> = (0..db.0.len()).map(|i| db.0.key_at(i)).collect();
    assert_eq!(order, vec!["b", "a", "c"]);
    assert!(in_step(&db));
}

#[test]
fn a_package_that_depends_on_itself_names_itself() {
    let mut db = empty();
    install(&mut db, "a", &["a"], &[("a", "port")]);
    assert_eq!(dependents(&db, "a"), vec![("a".to_owned(), vec![])]);
    assert!(in_step(&db));
}

#[test]
fn linking_puts_stale_links_right() {
    let mut map = OrderedMap::new();
    for (id, deps, stale) in [("b", vec![], vec![("q", "x")]), ("a", vec!["b"], vec![])] {
        map.insert(
            id.to_owned(),
            PackageDataEntry::Installed {
                static_files: files(id),
                installed: package(id, &deps, &stale),
            },
        );
    }
    let mut db = AllPackageData(map);
    assert!(!in_step(&db));
    link(&mut db, &id_of("a"), pointers(&[("b", "port")]));
    assert_eq!(
        dependents(&db, "b"),
        vec![("q".to_owned(), vec!["x".to_owned()]), ("a".to_owned(), vec!["port".to_owned()])]
    );
    assert!(in_step(&db));
}

#[test]
fn removing_a_package_cuts_its_links() {
    let mut db = empty();
    install(&mut db, "b", &[], &[]);
    install(&mut db, "a", &["b"], &[("b", "port")]);
    install(&mut db, "c", &["b", "a"], &[("b", "user")]);
    assert_eq!(names(&db, "b"), vec!["a", "c"]);
    let removal = remove(&mut db, &id_of("a"), false, false, &OrderedMap::new()).unwrap();
    assert_eq!(removal.breakages.len(), 1);
    assert_eq!(removal.breakages.key_at(0), "c");
    assert!(db.get("a").is_none());
    assert_eq!(dependents(&db, "b"), vec![("c".to_owned(), vec!["user".to_owned()])]);
    assert!(names(&db, "c").is_empty());
    assert!(in_step(&db));
}

#[test]
fn a_dry_removal_cuts_nothing() {
    let mut db = empty();
    install(&mut db, "b", &[], &[]);
    install(&mut db, "a", &["b"], &[("b", "port")]);
    remove(&mut db, &id_of("a"), true, true, &OrderedMap::new()).unwrap();
    assert_eq!(names(&db, "b"), vec!["a"]);
    assert!(db.installed("a").is_some());
}

#[test]
fn unlinking_takes_the_name_out_everywhere() {
    let mut db = empty();
    install(&mut db, "b", &[], &[]);
    install(&mut db, "d", &[], &[]);
    install(&mut db, "a", &["b", "d"], &[]);
    unlink(&mut db, "a");
    assert!(names(&db, "b").is_empty());
    assert!(names(&db, "d").is_empty());
    unlink(&mut db, "nobody");
    assert_eq!(db.0.len(), 3);
}

#[test]
fn an_installation_that_begins_or_fails_touches_no_link() {
    let mut db = empty();
    install(&mut db, "b", &[], &[]);
    install(&mut db, "a", &["b"], &[("b", "port")]);
    begin(&mut db, &id_of("c"), StaticFiles::remote(&id_of("c"), &Version::new(1, 0, 0, 0), "png"), None);
    assert!(matches!(db.get("c"), Some(PackageDataEntry::Installing { .. })));
    fail(&mut db, &id_of("c"));
    assert!(matches!(db.get("c"), Some(PackageDataEntry::InstallFailed)));
    assert_eq!(names(&db, "b"), vec!["a"]);
    assert!(in_step(&db));
    fail(&mut db, &id_of("a"));
    assert!(db.installed("a").is_none());
    assert!(in_step(&db));
}

fn declared(names: &[&str]) -> OrderedMap<DepInfo> {
    let mut map = OrderedMap::new();
    for name in names {
        map.insert(
            name.to_string(),
            DepInfo { version: VersionRange::Any, optional: None, description: None, config: None },
        );
    }
    map
}

/// `a` depends on `b`, `b` on `c` and on `x`, which is not installed;
/// `d` depends on `a`.
fn chain() -> AllPackageData {
    let mut db = empty();
    install(&mut db, "c", &[], &[]);
    install(&mut db, "b", &["c", "x"], &[]);
    install(&mut db, "a", &["b"], &[]);
    install(&mut db, "d", &["a"], &[]);
    db
}

#[test]
fn a_package_whose_dependencies_lead_back_to_it_closes_a_cycle() {
    let db = chain();
    assert!(would_close_cycle(&db, &id_of("c"), &declared(&["a"])));
    assert!(would_close_cycle(&db, &id_of("c"), &declared(&["z", "d"])));
    assert!(would_close_cycle(&db, &id_of("x"), &declared(&["d"])));
    assert!(would_close_cycle(&db, &id_of("b"), &declared(&["b"])));
    assert!(would_close_cycle(&db, &id_of("new"), &declared(&["new"])));
    let e = check_acyclic(&db, &id_of("c"), &declared(&["a"])).unwrap_err();
    assert_eq!(e.kind, ErrorKind::ValidateS9pk);
}

#[test]
fn dependencies_that_do_not_lead_back_close_no_cycle() {
    let db = chain();
    assert!(!would_close_cycle(&db, &id_of("new"), &declared(&["a", "d", "x"])));
    assert!(!would_close_cycle(&db, &id_of("d"), &declared(&["a", "b", "c"])));
    assert!(!would_close_cycle(&db, &id_of("a"), &declared(&["b", "c"])));
    assert!(!would_close_cycle(&db, &id_of("c"), &declared(&[])));
    assert!(!would_close_cycle(&empty(), &id_of("a"), &declared(&["b"])));
    assert!(check_acyclic(&db, &id_of("new"), &declared(&["d"])).is_ok());
}

#[test]
fn what_the_package_declared_before_does_not_count() {
    let db = chain();
    assert!(!would_close_cycle(&db, &id_of("b"), &declared(&["c"])));
    assert!(would_close_cycle(&db, &id_of("b"), &declared(&["d"])));
}

#[test]
fn a_cycle_among_the_others_does_not_keep_the_search_from_ending() {
    let mut db = empty();
    install(&mut db, "p", &["q"], &[]);
    install(&mut db, "q", &["p"], &[]);
    assert!(!would_close_cycle(&db, &id_of("a"), &declared(&["p"])));
    assert!(would_close_cycle(&db, &id_of("q"), &declared(&["p"])));
}

#[test]
fn a_package_that_is_being_installed_leads_nowhere() {
    let mut db = chain();
    begin(&mut db, &id_of("a"), files("a"), None);
    assert!(!would_close_cycle(&db, &id_of("c"), &declared(&["d"])));
}

/// Does no installed package close a cycle with what it declares?
fn without_cycle(db: &AllPackageData) -> bool {
    (0..db.0.len()).all(|i| match db.0.value_at(i).installed() {
        Some(installed) => !would_close_cycle(
            db,
            &installed.manifest.id,
            &installed.manifest.dependencies.0,
        ),
        None => true,
    })
}

#[test]
fn a_record_without_cycle_stays_so_when_what_closes_none_is_installed() {
    let mut db = chain();
    assert!(without_cycle(&db));
    assert!(!would_close_cycle(&db, &id_of("x"), &declared(&["c"])));
    install(&mut db, "x", &["c"], &[]);
    assert!(without_cycle(&db));
    assert!(would_close_cycle(&db, &id_of("c"), &declared(&["a"])));
    install(&mut db, "c", &["a"], &[]);
    assert!(!without_cycle(&db));
    remove(&mut db, &id_of("a"), false, false, &OrderedMap::new()).unwrap();
    assert!(without_cycle(&db));
}
