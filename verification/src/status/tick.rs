//! The health tick: the results of the health checks are taken in, and
//! the dependencies of every package are judged anew.

use vstd::prelude::*;
use crate::action::docker::run_args_of;
use crate::db::{
    installed_at, installed_of, with_status, AllPackageData, InstalledPackageDataEntry,
    PackageDataEntry,
};
use crate::dependencies::{
    check_is_due, dependency_errors, dependency_errors_by_state, state_of, CheckOutcome,
    DependencyErrorView,
};
use crate::links::{same_links, same_links_carry};
use crate::ordered_map::{has_key, lookup, position, position_finds, OrderedMap};
use crate::status::{checked_main, critical_failures, DependencyErrors, MainStatus, Status};
use crate::status::health_check::HealthCheckResult;
use crate::text::texts;
use crate::version::Version;

verus! {

/// The entry once the results of its health checks are taken in: a
/// running installed package takes them in, every other entry stays as it
/// is.
pub open spec fn entry_after_health(
    entry: PackageDataEntry,
    results: Option<OrderedMap<HealthCheckResult>>,
) -> PackageDataEntry {
    match (installed_of(entry), results) {
        (Some(installed), Some(results)) => with_status(
            entry,
            Status {
                main: checked_main(
                    installed.status.main,
                    results,
                    installed.manifest.health_checks.0@,
                ),
                ..installed.status
            },
        ),
        _ => entry,
    }
}

/// The critical checks of the entry that failed.
pub open spec fn entry_failures(
    entry: PackageDataEntry,
    results: Option<OrderedMap<HealthCheckResult>>,
) -> Seq<Seq<char>> {
    match (installed_of(entry), results) {
        (Some(installed), Some(results)) => if installed.status.main is Running {
            critical_failures(results@, installed.manifest.health_checks.0@)
        } else {
            Seq::empty()
        },
        _ => Seq::empty(),
    }
}

impl InstalledPackageDataEntry {
    /// Takes in the results of the health checks.
    fn check_health(self, results: OrderedMap<HealthCheckResult>) -> (r: (
        InstalledPackageDataEntry,
        Vec<String>,
    ))
        ensures
            r.0 == (InstalledPackageDataEntry {
                status: Status {
                    main: checked_main(self.status.main, results, self.manifest.health_checks.0@),
                    ..self.status
                },
                ..self
            }),
            crate::text::texts(r.1@) == if self.status.main is Running {
                critical_failures(results@, self.manifest.health_checks.0@)
            } else {
                Seq::empty()
            },
    {
        let InstalledPackageDataEntry {
            manifest,
            status,
            system_pointers,
            dependents,
            required_dependencies,
            interface_info,
        } = self;
        let Status { configured, main, dependencies } = status;
        let mut main = main;
        let failed = main.check(results, &manifest.health_checks.0);
        (
            InstalledPackageDataEntry {
                manifest,
                status: Status { configured, main, dependencies },
                system_pointers,
                dependents,
                required_dependencies,
                interface_info,
            },
            failed,
        )
    }
}

impl PackageDataEntry {
    /// Takes in the results of the health checks of the package, and names
    /// the critical checks that failed.
    pub fn check_health(self, results: OrderedMap<HealthCheckResult>) -> (r: (
        PackageDataEntry,
        Vec<String>,
    ))
        ensures
            r.0 == entry_after_health(self, Some(results)),
            crate::text::texts(r.1@) == entry_failures(self, Some(results)),
    {
        match self {
            PackageDataEntry::Updating { static_files, installed, install_progress } => {
                let (installed, failed) = installed.check_health(results);
                (PackageDataEntry::Updating { static_files, installed, install_progress }, failed)
            },
            PackageDataEntry::Removing { static_files, installed } => {
                let (installed, failed) = installed.check_health(results);
                (PackageDataEntry::Removing { static_files, installed }, failed)
            },
            PackageDataEntry::Installed { static_files, installed } => {
                let (installed, failed) = installed.check_health(results);
                (PackageDataEntry::Installed { static_files, installed }, failed)
            },
            other => {
                let failed: Vec<String> = Vec::new();
                assert(crate::text::texts(failed@) =~= Seq::empty());
                (other, failed)
            },
        }
    }
}

/// The record once the results of the health checks, given by package, are
/// taken in.
pub open spec fn after_health(
    db: Seq<(Seq<char>, PackageDataEntry)>,
    health: Seq<(Seq<char>, OrderedMap<HealthCheckResult>)>,
) -> Seq<(Seq<char>, PackageDataEntry)> {
    Seq::new(db.len(), |i: int| (db[i].0, entry_after_health(db[i].1, lookup(health, db[i].0))))
}

/// One check that is to be run before the tick: the package whose check
/// it is, what is checked, and the arguments that run it.
#[derive(Debug)]
pub struct CheckRun {
    pub package: String,
    pub subject: String,
    pub argv: Vec<String>,
}

/// The runs as plain values.
pub open spec fn runs_view(runs: Seq<CheckRun>) -> Seq<(Seq<char>, Seq<char>, Seq<Seq<char>>)> {
    Seq::new(runs.len(), |i: int| (runs[i].package@, runs[i].subject@, texts(runs[i].argv@)))
}

/// The runs of the first `upto` health checks of an installed package,
/// each under the name of the check.
pub open spec fn health_runs_of(
    name: Seq<char>,
    installed: InstalledPackageDataEntry,
    upto: int,
) -> Seq<(Seq<char>, Seq<char>, Seq<Seq<char>>)>
    decreases upto,
{
    if upto <= 0 {
        Seq::empty()
    } else {
        health_runs_of(name, installed, upto - 1).push(
            (
                name,
                installed.manifest.health_checks.0@[upto - 1].0,
                run_args_of(
                    installed.manifest.health_checks.0@[upto - 1].1.implementation->Docker_0,
                    installed.manifest.id@,
                    installed.manifest.version,
                    installed.manifest.volumes@,
                ),
            ),
        )
    }
}

/// The health checks to run for the first `upto` packages: all those of
/// every installed package that is meant to run, and of no other.
pub open spec fn health_runs(db: Seq<(Seq<char>, PackageDataEntry)>, upto: int) -> Seq<
    (Seq<char>, Seq<char>, Seq<Seq<char>>),
>
    decreases upto,
{
    if upto <= 0 {
        Seq::empty()
    } else {
        health_runs(db, upto - 1) + match installed_of(db[upto - 1].1) {
            Some(installed) => if installed.status.main is Running {
                health_runs_of(
                    db[upto - 1].0,
                    installed,
                    installed.manifest.health_checks.0@.len() as int,
                )
            } else {
                Seq::empty()
            },
            None => Seq::empty(),
        }
    }
}

/// The version and the status of the installed package named `id`.
pub open spec fn found_at(db: Seq<(Seq<char>, PackageDataEntry)>, id: Seq<char>) -> Option<
    (Version, MainStatus),
> {
    match installed_at(db, id) {
        Some(installed) => Some((installed.manifest.version, installed.status.main)),
        None => None,
    }
}

/// The configuration checks that an installed package is to run against
/// the first `upto` of its dependencies: one for each dependency whose check
/// is due, under the name of the dependency, and given no volumes.
pub open spec fn checks_due_of(
    db: Seq<(Seq<char>, PackageDataEntry)>,
    name: Seq<char>,
    installed: InstalledPackageDataEntry,
    upto: int,
) -> Seq<(Seq<char>, Seq<char>, Seq<Seq<char>>)>
    decreases upto,
{
    if upto <= 0 {
        Seq::empty()
    } else {
        let dependency = installed.manifest.dependencies.0@[upto - 1];
        if check_is_due(dependency.1, found_at(db, dependency.0)) {
            checks_due_of(db, name, installed, upto - 1).push(
                (
                    name,
                    dependency.0,
                    run_args_of(
                        dependency.1.config->0.check->Docker_0,
                        installed.manifest.id@,
                        installed.manifest.version,
                        Seq::empty(),
                    ),
                ),
            )
        } else {
            checks_due_of(db, name, installed, upto - 1)
        }
    }
}

/// The configuration checks that are due for the first `upto` packages.
pub open spec fn checks_due(db: Seq<(Seq<char>, PackageDataEntry)>, upto: int) -> Seq<
    (Seq<char>, Seq<char>, Seq<Seq<char>>),
>
    decreases upto,
{
    if upto <= 0 {
        Seq::empty()
    } else {
        checks_due(db, upto - 1) + match installed_of(db[upto - 1].1) {
            Some(installed) => checks_due_of(
                db,
                db[upto - 1].0,
                installed,
                installed.manifest.dependencies.0@.len() as int,
            ),
            None => Seq::empty(),
        }
    }
}

/// The health checks to run before a tick: all those of every installed
/// package that is meant to run, in the order of the record.
pub fn health_plan(db: &AllPackageData) -> (runs: Vec<CheckRun>)
    ensures
        runs_view(runs@) == health_runs(db.0@, db.0@.len() as int),
{
    let mut runs: Vec<CheckRun> = Vec::new();
    let mut i: usize = 0;
    assert(runs_view(runs@) =~= health_runs(db.0@, 0));
    while i < db.0.len()
        invariant
            i <= db.0@.len(),
            runs_view(runs@) == health_runs(db.0@, i as int),
        decreases db.0@.len() - i,
    {
        let ghost before = runs_view(runs@);
        match db.0.value_at(i).installed() {
            Some(installed) => {
                let running = match &installed.status.main {
                    MainStatus::Running { .. } => true,
                    _ => false,
                };
                if running {
                    let checks = &installed.manifest.health_checks.0;
                    let ghost name = db.0@[i as int].0;
                    let mut c: usize = 0;
                    assert(runs_view(runs@) =~= before + health_runs_of(name, *installed, 0));
                    while c < checks.len()
                        invariant
                            c <= checks@.len(),
                            i < db.0@.len(),
                            name == db.0@[i as int].0,
                            checks@ == installed.manifest.health_checks.0@,
                            runs_view(runs@) == before + health_runs_of(name, *installed, c as int),
                        decreases checks@.len() - c,
                    {
                        let argv = checks.value_at(c).implementation.invocation(
                            &installed.manifest.id,
                            &installed.manifest.version,
                            &installed.manifest.volumes,
                        );
                        let ghost so_far = runs_view(runs@);
                        let ghost run = (name, checks@[c as int].0, texts(argv@));
                        runs.push(
                            CheckRun {
                                package: db.0.key_at(i).to_owned(),
                                subject: checks.key_at(c).to_owned(),
                                argv,
                            },
                        );
                        assert(runs_view(runs@) =~= so_far.push(run));
                        assert(so_far.push(run) =~= before + health_runs_of(
                            name,
                            *installed,
                            c as int + 1,
                        ));
                        c = c + 1;
                    }
                } else {
                    assert(runs_view(runs@) =~= before + Seq::empty());
                }
            },
            None => {
                assert(runs_view(runs@) =~= before + Seq::empty());
            },
        }
        i = i + 1;
    }
    runs
}

/// The configuration checks to run before a tick: for every installed
/// package, in the order of the record, the check of each of its
/// dependencies that is installed at a version that will do and for which a
/// check is declared.
pub fn dependency_plan(db: &AllPackageData) -> (runs: Vec<CheckRun>)
    ensures
        runs_view(runs@) == checks_due(db.0@, db.0@.len() as int),
{
    let mut runs: Vec<CheckRun> = Vec::new();
    let none = crate::volume::Volumes::new();
    assert(none@ =~= Seq::empty());
    let mut i: usize = 0;
    assert(runs_view(runs@) =~= checks_due(db.0@, 0));
    while i < db.0.len()
        invariant
            i <= db.0@.len(),
            none@ == Seq::<(Seq<char>, crate::volume::Volume)>::empty(),
            runs_view(runs@) == checks_due(db.0@, i as int),
        decreases db.0@.len() - i,
    {
        let ghost before = runs_view(runs@);
        match db.0.value_at(i).installed() {
            Some(installed) => {
                let dependencies = &installed.manifest.dependencies.0;
                let ghost name = db.0@[i as int].0;
                let mut d: usize = 0;
                assert(runs_view(runs@) =~= before + checks_due_of(db.0@, name, *installed, 0));
                while d < dependencies.len()
                    invariant
                        d <= dependencies@.len(),
                        i < db.0@.len(),
                        name == db.0@[i as int].0,
                        none@ == Seq::<(Seq<char>, crate::volume::Volume)>::empty(),
                        dependencies@ == installed.manifest.dependencies.0@,
                        runs_view(runs@) == before + checks_due_of(
                            db.0@,
                            name,
                            *installed,
                            d as int,
                        ),
                    decreases dependencies@.len() - d,
                {
                    let info = dependencies.value_at(d);
                    let found = match db.installed(dependencies.key_at(d)) {
                        Some(dependency) => Some(
                            (&dependency.manifest.version, &dependency.status.main),
                        ),
                        None => None,
                    };
                    let ghost so_far = runs_view(runs@);
                    if info.needs_check(found) {
                        match &info.config {
                            Some(config) => {
                                let argv = config.check.invocation(
                                    &installed.manifest.id,
                                    &installed.manifest.version,
                                    &none,
                                );
                                let ghost run = (name, dependencies@[d as int].0, texts(argv@));
                                runs.push(
                                    CheckRun {
                                        package: db.0.key_at(i).to_owned(),
                                        subject: dependencies.key_at(d).to_owned(),
                                        argv,
                                    },
                                );
                                assert(runs_view(runs@) =~= so_far.push(run));
                            },
                            None => {},
                        }
                    }
                    assert(runs_view(runs@) =~= before + checks_due_of(
                        db.0@,
                        name,
                        *installed,
                        d as int + 1,
                    ));
                    d = d + 1;
                }
            },
            None => {
                assert(runs_view(runs@) =~= before + Seq::empty());
            },
        }
        i = i + 1;
    }
    runs
}

/// A critical health check that failed, of which the user is to be told.
#[derive(Debug)]
pub struct Notification {
    pub package: String,
    pub check: String,
}

/// The notifications as plain values.
pub open spec fn notes_view(notes: Seq<Notification>) -> Seq<(Seq<char>, Seq<char>)> {
    Seq::new(notes.len(), |i: int| (notes[i].package@, notes[i].check@))
}

/// The critical failures `failed` of package `package`.
pub open spec fn notes_for(package: Seq<char>, failed: Seq<Seq<char>>) -> Seq<
    (Seq<char>, Seq<char>),
> {
    Seq::new(failed.len(), |i: int| (package, failed[i]))
}

/// The notifications for the first `upto` packages: for each, in order,
/// its critical checks that failed.
pub open spec fn notifications(
    db: Seq<(Seq<char>, PackageDataEntry)>,
    health: Seq<(Seq<char>, OrderedMap<HealthCheckResult>)>,
    upto: int,
) -> Seq<(Seq<char>, Seq<char>)>
    decreases upto,
{
    if upto <= 0 {
        Seq::empty()
    } else {
        notifications(db, health, upto - 1) + notes_for(
            db[upto - 1].0,
            entry_failures(db[upto - 1].1, lookup(health, db[upto - 1].0)),
        )
    }
}

/// The outcomes of the configuration checks that package `id` ran against
/// its dependencies; none where nothing is recorded.
pub open spec fn checks_for(
    checks: Seq<(Seq<char>, OrderedMap<CheckOutcome>)>,
    id: Seq<char>,
) -> Seq<(Seq<char>, CheckOutcome)> {
    match lookup(checks, id) {
        Some(m) => m@,
        None => Seq::empty(),
    }
}

/// `after` is `entry` with the dependencies of its package judged anew
/// against the record `db`: the unmet ones are recorded, and nothing else
/// changes. Where judging met an error, the record of unmet dependencies
/// stays as it was.
pub open spec fn entry_judged(
    entry: PackageDataEntry,
    after: PackageDataEntry,
    db: Seq<(Seq<char>, PackageDataEntry)>,
    checks: Seq<(Seq<char>, CheckOutcome)>,
) -> bool {
    match installed_of(entry) {
        None => after == entry,
        Some(installed) => {
            &&& installed_of(after) is Some
            &&& after == with_status(
                entry,
                Status {
                    dependencies: installed_of(after)->0.status.dependencies,
                    ..installed.status
                },
            )
            &&& installed_of(after)->0.status.dependencies@ == match dependency_errors(
                installed.manifest.dependencies.0@,
                db,
                checks,
            ) {
                Ok(errors) => errors,
                Err(_) => installed.status.dependencies@,
            }
        },
    }
}

/// `after` is `before` with the dependencies of every package judged anew
/// against `before`.
pub open spec fn judged(
    before: Seq<(Seq<char>, PackageDataEntry)>,
    after: Seq<(Seq<char>, PackageDataEntry)>,
    checks: Seq<(Seq<char>, OrderedMap<CheckOutcome>)>,
) -> bool {
    &&& after.len() == before.len()
    &&& forall|i: int|
        0 <= i < before.len() ==> (#[trigger] after[i]).0 == before[i].0 && entry_judged(
            before[i].1,
            after[i].1,
            before,
            checks_for(checks, before[i].0),
        )
}

/// An entry whose dependencies were judged anew has the version and the
/// status it had.
pub proof fn judging_keeps_state(
    before: Seq<(Seq<char>, PackageDataEntry)>,
    now: Seq<(Seq<char>, PackageDataEntry)>,
    id: Seq<char>,
)
    requires
        now.len() == before.len(),
        forall|i: int|
            0 <= i < before.len() ==> (#[trigger] now[i]).0 == before[i].0 && (now[i].1
                == before[i].1 || (installed_of(before[i].1) is Some && installed_of(now[i].1)
                is Some && now[i].1 == with_status(
                before[i].1,
                Status {
                    dependencies: installed_of(now[i].1)->0.status.dependencies,
                    ..installed_of(before[i].1)->0.status
                },
            ))),
    ensures
        state_of(now, id) == state_of(before, id),
{
    crate::ordered_map::position_by_keys(now, before, id);
    position_finds(before, id);
    position_finds(now, id);
    if has_key(before, id) {
        let p = position(before, id);
        assert(now[p].0 == before[p].0);
    }
}

/// After a tick, a dependency that is installed at an admitted version and
/// does not run is recorded as not running for every installed package that
/// declares it, provided that its configuration check did not fail and that
/// judging the dependent met no error.
pub proof fn stopped_dependency_is_recorded(
    before: Seq<(Seq<char>, PackageDataEntry)>,
    after: Seq<(Seq<char>, PackageDataEntry)>,
    checks: Seq<(Seq<char>, OrderedMap<CheckOutcome>)>,
    dependent: int,
    dependency: Seq<char>,
)
    requires
        judged(before, after, checks),
        0 <= dependent < before.len(),
        installed_of(before[dependent].1) is Some,
        crate::ordered_map::keys_distinct(
            installed_of(before[dependent].1)->0.manifest.dependencies.0@,
        ),
        has_key(installed_of(before[dependent].1)->0.manifest.dependencies.0@, dependency),
        state_of(before, dependency) matches Some(state) && crate::version::admits(
            lookup(
                installed_of(before[dependent].1)->0.manifest.dependencies.0@,
                dependency,
            )->0.version,
            state.0,
        ) && crate::dependencies::running_health(state.1) is None,
        !(lookup(
            installed_of(before[dependent].1)->0.manifest.dependencies.0@,
            dependency,
        )->0.config is Some && crate::dependencies::outcome_of(
            checks_for(checks, before[dependent].0),
            dependency,
        ) is Failed),
        dependency_errors(
            installed_of(before[dependent].1)->0.manifest.dependencies.0@,
            before,
            checks_for(checks, before[dependent].0),
        ) is Ok,
    ensures
        installed_of(after[dependent].1) is Some,
        lookup(installed_of(after[dependent].1)->0.status.dependencies@, dependency) == Some(
            DependencyErrorView::NotRunning,
        ),
{
    assert(after[dependent].0 == before[dependent].0);
    crate::dependencies::stopped_dependency_is_not_running(
        installed_of(before[dependent].1)->0.manifest.dependencies.0@,
        before,
        checks_for(checks, before[dependent].0),
        dependency,
    );
}

/// Takes in the results of the health checks, given by package, and names
/// every critical check that failed.
pub fn take_in_health(db: &mut AllPackageData, health: OrderedMap<OrderedMap<HealthCheckResult>>)
    -> (notes: Vec<Notification>)
    ensures
        final(db).0@ == after_health(old(db).0@, health@),
        notes_view(notes@) == notifications(old(db).0@, health@, old(db).0@.len() as int),
        same_links(old(db).0@, final(db).0@),
{
    let mut notes: Vec<Notification> = Vec::new();
    let mut health = health;
    let ghost all = health@;
    let ghost before = db.0@;
    db.0.keys_are_distinct();
    let n = db.0.len();
    let mut i: usize = 0;
    assert(notes_view(notes@) =~= Seq::empty());
    while i < n
        invariant
            i <= n,
            n == before.len(),
            crate::ordered_map::keys_distinct(before),
            db.0@.len() == before.len(),
            forall|j: int| 0 <= j < i ==> (#[trigger] db.0@[j]) == after_health(before, all)[j],
            forall|j: int| i <= j < n ==> (#[trigger] db.0@[j]) == before[j],
            health@.len() == all.len(),
            forall|k: int| 0 <= k < all.len() ==> (#[trigger] health@[k]).0 == all[k].0,
            forall|k: int|
                0 <= k < all.len() && (forall|j: int| 0 <= j < i ==> before[j].0 != all[k].0)
                    ==> (#[trigger] health@[k]).1 == all[k].1,
            notes_view(notes@) == notifications(before, all, i as int),
        decreases n - i,
    {
        let id = db.0.key_at(i).to_owned();
        proof {
            crate::ordered_map::position_by_keys(health@, all, id@);
            position_finds(all, id@);
        }
        let ghost old_notes = notes_view(notes@);
        match health.find(id.as_str()) {
            Some(k) => {
                let results = health.replace_value_at(k, OrderedMap::new());
                proof {
                    assert(all[k as int].0 == id@);
                    assert forall|j: int| 0 <= j < i implies before[j].0 != all[k as int].0 by {
                        assert(before[j].0 != before[i as int].0);
                    }
                    assert(results == all[k as int].1);
                    assert(lookup(all, id@) == Some(results));
                }
                let entry = db.0.replace_value_at(i, PackageDataEntry::InstallFailed);
                let (entry, failed) = entry.check_health(results);
                db.0.set_value_at(i, entry);
                let mut f: usize = 0;
                let ghost failures = crate::text::texts(failed@);
                while f < failed.len()
                    invariant
                        f <= failed@.len(),
                        failures == crate::text::texts(failed@),
                        notes_view(notes@) == old_notes + notes_for(id@, failures.take(f as int)),
                    decreases failed@.len() - f,
                {
                    let ghost so_far = notes_view(notes@);
                    let ghost old_vec = notes@;
                    notes.push(Notification { package: id.clone(), check: failed[f].clone() });
                    proof {
                        let want = old_notes + notes_for(id@, failures.take(f as int + 1));
                        assert(failures.take(f as int).len() == f);
                        assert(so_far.len() == old_notes.len() + f);
                        assert(notes_view(notes@).len() == so_far.len() + 1);
                        assert(want.len() == old_notes.len() + f + 1);
                        assert forall|k: int| 0 <= k < want.len() implies notes_view(notes@)[k]
                            == want[k] by {
                            if k < so_far.len() {
                                assert(notes@[k] == old_vec[k]);
                                assert(notes_view(notes@)[k] == so_far[k]);
                                if k >= old_notes.len() {
                                    assert(so_far[k] == notes_for(id@, failures.take(f as int))[k
                                        - old_notes.len()]);
                                }
                            } else {
                                assert(failures[f as int] == failed@[f as int]@);
                            }
                        }
                        assert(notes_view(notes@) =~= want);
                    }
                    f = f + 1;
                }
                assert(failures.take(f as int) =~= failures);
            },
            None => {
                proof {
                    assert(lookup(all, id@) is None);
                    assert(notes_view(notes@) =~= old_notes + notes_for(
                        id@,
                        Seq::<Seq<char>>::empty(),
                    ));
                }
            },
        }
        i = i + 1;
    }
    assert(db.0@ =~= after_health(before, all));
    notes
}

/// Judges the dependencies of every package anew against the record, and
/// records the unmet ones. `checks` gives, by dependent and dependency, how
/// the configuration checks ended.
pub fn judge_dependencies(db: &mut AllPackageData, checks: &OrderedMap<OrderedMap<CheckOutcome>>)
    ensures
        judged(old(db).0@, final(db).0@, checks@),
        same_links(old(db).0@, final(db).0@),
{
    let ghost before = db.0@;
    let n = db.0.len();
    let none: OrderedMap<CheckOutcome> = OrderedMap::new();
    let mut i: usize = 0;
    while i < n
        invariant
            i <= n,
            n == before.len(),
            none@.len() == 0,
            db.0@.len() == before.len(),
            forall|j: int| 0 <= j < n ==> (#[trigger] db.0@[j]).0 == before[j].0,
            forall|j: int|
                0 <= j < i ==> entry_judged(
                    before[j].1,
                    (#[trigger] db.0@[j]).1,
                    before,
                    checks_for(checks@, before[j].0),
                ),
            forall|j: int| i <= j < n ==> (#[trigger] db.0@[j]) == before[j],
        decreases n - i,
    {
        let id = db.0.key_at(i);
        let ours = match checks.get(id) {
            Some(m) => m,
            None => &none,
        };
        assert(ours@ =~= checks_for(checks@, before[i as int].0));
        proof {
            assert forall|x: Seq<char>| #[trigger] state_of(db.0@, x) == state_of(before, x) by {
                judging_keeps_state(before, db.0@, x);
            }
        }
        let judgement = match db.0.value_at(i).installed() {
            Some(installed) => {
                proof {
                    dependency_errors_by_state(
                        installed.manifest.dependencies.0@,
                        db.0@,
                        before,
                        ours@,
                    );
                }
                Some(installed.manifest.dependencies.check_status(&*db, ours))
            },
            None => None,
        };
        match judgement {
            Some(Ok(errors)) => {
                let ghost entry = db.0@[i as int].1;
                let status = db.replace_status(
                    i,
                    Status {
                        configured: false,
                        main: MainStatus::Stopped,
                        dependencies: DependencyErrors::new(),
                    },
                );
                let Status { configured, main, dependencies: _ } = status;
                db.replace_status(i, Status { configured, main, dependencies: errors });
                proof {
                    assert(db.0@[i as int].1 == with_status(
                        entry,
                        Status {
                            dependencies: errors,
                            ..installed_of(entry)->0.status
                        },
                    ));
                }
            },
            _ => {},
        }
        i = i + 1;
    }
}

/// One health tick: the results of the health checks are taken in, which
/// stops every package of which a critical check failed, and then the
/// dependencies of every package are judged against the record as it stands
/// after that.
pub fn check_all(
    db: &mut AllPackageData,
    health: OrderedMap<OrderedMap<HealthCheckResult>>,
    checks: &OrderedMap<OrderedMap<CheckOutcome>>,
) -> (notes: Vec<Notification>)
    ensures
        judged(after_health(old(db).0@, health@), final(db).0@, checks@),
        notes_view(notes@) == notifications(old(db).0@, health@, old(db).0@.len() as int),
        same_links(old(db).0@, final(db).0@),
{
    let notes = take_in_health(db, health);
    let ghost middle = db.0@;
    judge_dependencies(db, checks);
    proof {
        same_links_carry(old(db).0@, middle, db.0@);
    }
    notes
}

} // verus!
