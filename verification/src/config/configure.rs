//! Configuring a package: the decisions of the propagation of a change of
//! configuration through the packages that depend on it. Every decision
//! reads the record; only committing a finished run writes to it.

use vstd::prelude::*;
use crate::action::docker::{run_args_of, Failure};
use crate::config::ConfigurationError;
use crate::config::action::ConfigRes;
use crate::config::cascade::{cascade_is_complete, complete, marking_keeps_marks, rounds_keep_marks};
use crate::config::generate::{defaults_of, fields_certain, generation_failure};
use crate::config::pointer::{refreshed, PointerSources};
use crate::config::spec::{fields_violation, ConfigSelector, PackagePointerSpecVariant};
use crate::config::value::{
    clone_config, config_view, get_property, property, same_configs, same_json, Json, JsonView,
    Property,
};
use crate::db::{installed_at, installed_of, with_status, AllPackageData, PackageDataEntry};
use crate::dependencies::{DependencyError, DependencyErrorView};
use crate::error::{Error, ErrorKind};
use crate::id::PackageId;
use crate::links::same_links;
use crate::ordered_map::{
    has_key, lookup, names_in, position_by_keys, position_finds, upsert, OrderedMap,
};
use crate::status::{DependencyErrors, MainStatus, Status};
use crate::text::{push_text, texts};

verus! {

/// What lies at the end of `path` inside `v`, from place `from` of the
/// path on: each name of the path leads into the property of that name.
pub open spec fn descend(v: JsonView, path: Seq<Seq<char>>, from: int) -> Option<JsonView>
    decreases path.len() - from,
{
    if from < 0 || from >= path.len() {
        Some(v)
    } else {
        match v {
            JsonView::Object(props) => match property(props, path[from]) {
                Some(inner) => descend(inner, path, from + 1),
                None => None,
            },
            _ => None,
        }
    }
}

/// What a selector takes out of `v`: what lies at the end of its path, or
/// null where the path leads nowhere; and where many values are asked for,
/// the list of what was found.
pub open spec fn selected(path: Seq<Seq<char>>, multi: bool, v: JsonView) -> JsonView {
    match descend(v, path, 0) {
        Some(found) => if multi {
            JsonView::Array(seq![found])
        } else {
            found
        },
        None => if multi {
            JsonView::Array(Seq::empty())
        } else {
            JsonView::Null
        },
    }
}

/// What lies at the end of `path` inside `v`.
fn walk<'a>(v: &'a Json, path: &Vec<String>, from: usize) -> (r: Option<&'a Json>)
    ensures
        r is Some <==> descend(v@, crate::text::texts(path@), from as int) is Some,
        r matches Some(found) ==> Some(found@) == descend(
            v@,
            crate::text::texts(path@),
            from as int,
        ),
    decreases path@.len() - from,
{
    if from >= path.len() {
        return Some(v);
    }
    match v {
        Json::Object(props) => {
            proof {
                Json::object_view(*props);
            }
            match get_property(props, path[from].as_str()) {
                Some(inner) => walk(inner, path, from + 1),
                None => None,
            }
        },
        _ => None,
    }
}

impl ConfigSelector {
    /// What the selector takes out of `v`.
    pub fn select(&self, multi: bool, v: &Json) -> (r: Json)
        ensures
            r@ == selected(crate::text::texts(self.0@), multi, v@),
    {
        match walk(v, &self.0, 0) {
            Some(found) => {
                if multi {
                    let mut items: Vec<Json> = Vec::new();
                    items.push(found.clone());
                    proof {
                        Json::array_view(items);
                        assert(crate::config::value::items_view(items@) =~= seq![found@]);
                    }
                    Json::Array(items)
                } else {
                    found.clone()
                }
            },
            None => {
                if multi {
                    let items: Vec<Json> = Vec::new();
                    proof {
                        Json::array_view(items);
                        assert(crate::config::value::items_view(items@) =~= Seq::empty());
                    }
                    Json::Array(items)
                } else {
                    Json::Null
                }
            },
        }
    }
}

/// Does one of the pointers, from place `from` on, see something else in
/// `next` than in `prev`?
pub open spec fn pointers_see_change(
    pointers: Seq<PackagePointerSpecVariant>,
    prev: JsonView,
    next: JsonView,
    from: int,
) -> bool
    decreases pointers.len() - from,
{
    if from < 0 || from >= pointers.len() {
        false
    } else {
        (match pointers[from] {
            PackagePointerSpecVariant::Config { selector, multi } => !same_json(
                selected(crate::text::texts(selector.0@), multi, next),
                selected(crate::text::texts(selector.0@), multi, prev),
            ),
            _ => false,
        }) || pointers_see_change(pointers, prev, next, from + 1)
    }
}

/// Does one of the pointers see something else in `next` than in `prev`?
pub fn selection_changed(pointers: &Vec<PackagePointerSpecVariant>, prev: &Json, next: &Json) -> (b:
    bool)
    ensures
        b == pointers_see_change(pointers@, prev@, next@, 0),
{
    let mut i: usize = 0;
    while i < pointers.len()
        invariant
            i <= pointers@.len(),
            pointers_see_change(pointers@, prev@, next@, 0) == pointers_see_change(
                pointers@,
                prev@,
                next@,
                i as int,
            ),
        decreases pointers@.len() - i,
    {
        match &pointers[i] {
            PackagePointerSpecVariant::Config { selector, multi } => {
                let a = selector.select(*multi, next);
                let b = selector.select(*multi, prev);
                if !a.equals(&b) {
                    return true;
                }
            },
            _ => {},
        }
        i = i + 1;
    }
    false
}

/// Why a package was found broken: the dependency that broke it, and the
/// way in which that dependency is unmet.
#[derive(Debug)]
pub struct Breakage {
    pub dependency: String,
    pub error: DependencyError,
}

/// The packages found broken, each with the dependency that broke it and
/// the way in which that dependency is unmet, as plain values.
pub type Breakages = Seq<(Seq<char>, (Seq<char>, DependencyErrorView))>;

/// The breakages as plain values.
pub open spec fn breakages_view(b: Seq<(Seq<char>, Breakage)>) -> Breakages {
    Seq::new(b.len(), |i: int| (b[i].0, (b[i].1.dependency@, b[i].1.error@)))
}

/// `marks` with `package` marked as broken by `dependency` in the way
/// `error`, unless it is marked already.
pub open spec fn marked(
    marks: Breakages,
    package: Seq<char>,
    dependency: Seq<char>,
    error: DependencyErrorView,
) -> Breakages {
    if has_key(marks, package) {
        marks
    } else {
        marks.push((package, (dependency, error)))
    }
}

/// `marks` with every dependent of `broken`, from place `from` on, marked
/// as broken because `broken` does not run.
pub open spec fn mark_row(broken: Seq<char>, dependents: Seq<Seq<char>>, marks: Breakages, from: int)
    -> Breakages
    decreases dependents.len() - from,
{
    if from < 0 || from >= dependents.len() {
        marks
    } else {
        mark_row(
            broken,
            dependents,
            marked(marks, dependents[from], broken, DependencyErrorView::NotRunning),
            from + 1,
        )
    }
}

/// One pass over the record, from package `from` on: the dependents of
/// every installed package that is marked are marked too.
pub open spec fn mark_round(db: Seq<(Seq<char>, PackageDataEntry)>, marks: Breakages, from: int)
    -> Breakages
    decreases db.len() - from,
{
    if from < 0 || from >= db.len() {
        marks
    } else {
        mark_round(
            db,
            match installed_of(db[from].1) {
                Some(installed) => if has_key(marks, db[from].0) {
                    mark_row(db[from].0, names_in(installed.dependents@), marks, 0)
                } else {
                    marks
                },
                None => marks,
            },
            from + 1,
        )
    }
}

/// `rounds` passes over the record.
pub open spec fn mark_rounds(db: Seq<(Seq<char>, PackageDataEntry)>, marks: Breakages, rounds: nat)
    -> Breakages
    decreases rounds,
{
    if rounds == 0 {
        marks
    } else {
        mark_rounds(db, mark_round(db, marks, 0), (rounds - 1) as nat)
    }
}

/// What one run of configuring has decided so far.
pub struct Configuration {
    /// The new configuration of every package reconfigured in this run.
    pub overrides: OrderedMap<Vec<Property>>,
    /// The packages found broken.
    pub breakages: OrderedMap<Breakage>,
}

/// What a run of configuring comes to.
pub struct BreakageRes {
    /// The packages whose record changes, or would have changed.
    pub patch: Vec<String>,
    /// The packages found broken.
    pub breakages: OrderedMap<Breakage>,
}

/// Marks `package` as broken by `dependency`, unless it is marked already.
fn mark(
    breakages: &mut OrderedMap<Breakage>,
    package: &str,
    dependency: &str,
    error: DependencyError,
)
    ensures
        breakages_view(final(breakages)@) == marked(
            breakages_view(old(breakages)@),
            package@,
            dependency@,
            error@,
        ),
{
    proof {
        position_by_keys(breakages@, breakages_view(breakages@), package@);
    }
    if !breakages.contains_key(package) {
        let ghost before = breakages@;
        breakages.insert(
            package.to_owned(),
            Breakage { dependency: dependency.to_owned(), error },
        );
        assert(breakages_view(breakages@) =~= breakages_view(before).push(
            (package@, (dependency@, error@)),
        ));
    }
}

/// One pass over the record.
fn cascade_round(db: &AllPackageData, breakages: &mut OrderedMap<Breakage>)
    ensures
        breakages_view(final(breakages)@) == mark_round(db.0@, breakages_view(old(breakages)@), 0),
{
    let ghost start = breakages_view(breakages@);
    let mut i: usize = 0;
    while i < db.0.len()
        invariant
            i <= db.0@.len(),
            mark_round(db.0@, start, 0) == mark_round(db.0@, breakages_view(breakages@), i as int),
        decreases db.0@.len() - i,
    {
        proof {
            position_by_keys(breakages@, breakages_view(breakages@), db.0@[i as int].0);
        }
        match db.0.value_at(i).installed() {
            Some(installed) => {
                if breakages.contains_key(db.0.key_at(i)) {
                    let broken = db.0.key_at(i);
                    let ghost row_start = breakages_view(breakages@);
                    let ghost names = names_in(installed.dependents@);
                    let mut d: usize = 0;
                    while d < installed.dependents.len()
                        invariant
                            d <= installed.dependents@.len(),
                            names == names_in(installed.dependents@),
                            i < db.0@.len(),
                            broken@ == db.0@[i as int].0,
                            mark_row(db.0@[i as int].0, names, row_start, 0) == mark_row(
                                db.0@[i as int].0,
                                names,
                                breakages_view(breakages@),
                                d as int,
                            ),
                        decreases installed.dependents@.len() - d,
                    {
                        mark(
                            breakages,
                            installed.dependents.key_at(d),
                            broken,
                            DependencyError::NotRunning,
                        );
                        d = d + 1;
                    }
                }
            },
            None => {},
        }
        i = i + 1;
    }
}

/// Marks every package that depends, directly or through others, on a
/// package that is marked: as many passes over the record as it has
/// packages, after which every dependent of a marked package is marked.
pub fn cascade(db: &AllPackageData, breakages: &mut OrderedMap<Breakage>)
    ensures
        breakages_view(final(breakages)@) == mark_rounds(
            db.0@,
            breakages_view(old(breakages)@),
            db.0@.len(),
        ),
        complete(db.0@, breakages_view(final(breakages)@)),
{
    let ghost start = breakages_view(breakages@);
    proof {
        cascade_is_complete(db.0@, start);
    }
    let n = db.0.len();
    let mut round: usize = 0;
    while round < n
        invariant
            round <= n,
            n == db.0@.len(),
            mark_rounds(db.0@, start, n as nat) == mark_rounds(
                db.0@,
                breakages_view(breakages@),
                (n - round) as nat,
            ),
        decreases n - round,
    {
        cascade_round(db, breakages);
        round = round + 1;
    }
}

/// What the end of a dependent's check of the new configuration of
/// `id` means. A check that failed breaks the dependent: it is marked as
/// broken by `id`, with what the check wrote to its standard error, and
/// every package that depends on it, directly or through others, is marked
/// as broken because its dependency does not run. A check that passed
/// breaks nothing; the dependent is then to be configured anew exactly if
/// one of its pointers into the configuration of `id` sees something else in
/// the new configuration than in the old.
pub fn after_check(
    breakages: &mut OrderedMap<Breakage>,
    db: &AllPackageData,
    id: &PackageId,
    dependent: &str,
    outcome: Result<(), Failure>,
    pointers: &Vec<PackagePointerSpecVariant>,
    prev: &Json,
    next: &Json,
) -> (reconfigure: bool)
    ensures
        match outcome {
            Ok(()) => final(breakages)@ == old(breakages)@ && reconfigure == pointers_see_change(
                pointers@,
                prev@,
                next@,
                0,
            ),
            Err(f) => !reconfigure && breakages_view(final(breakages)@) == mark_rounds(
                db.0@,
                marked(
                    breakages_view(old(breakages)@),
                    dependent@,
                    id@,
                    DependencyErrorView::ConfigUnsatisfied { error: f.stderr@ },
                ),
                db.0@.len(),
            ) && has_key(final(breakages)@, dependent@) && complete(
                db.0@,
                breakages_view(final(breakages)@),
            ),
        },
{
    match outcome {
        Ok(()) => selection_changed(pointers, prev, next),
        Err(f) => {
            mark(
                breakages,
                dependent,
                id.as_str(),
                DependencyError::ConfigUnsatisfied { error: f.stderr },
            );
            proof {
                marking_keeps_marks(
                    breakages_view(old(breakages)@),
                    dependent@,
                    id@,
                    DependencyErrorView::ConfigUnsatisfied { error: f.stderr@ },
                    dependent@,
                );
                rounds_keep_marks(
                    db.0@,
                    breakages_view(breakages@),
                    db.0@.len(),
                    dependent@,
                );
            }
            cascade(db, breakages);
            proof {
                position_by_keys(breakages@, breakages_view(breakages@), dependent@);
            }
            false
        },
    }
}

/// The arguments that run the action that reads the configuration of
/// package `id`. Fails, with kind `NotFound`, exactly when the package is not
/// installed or has no configuration.
pub fn get(db: &AllPackageData, id: &PackageId) -> (r: Result<Vec<String>, Error>)
    ensures
        r is Ok <==> installed_at(db.0@, id@) is Some && installed_at(
            db.0@,
            id@,
        )->0.manifest.config is Some,
        r matches Ok(argv) ==> texts(argv@) == run_args_of(
            installed_at(db.0@, id@)->0.manifest.config->0.get->Docker_0,
            id@,
            installed_at(db.0@, id@)->0.manifest.version,
            installed_at(db.0@, id@)->0.manifest.volumes@,
        ),
        r matches Err(e) ==> e.kind == ErrorKind::NotFound,
{
    let installed = match db.installed(id.as_str()) {
        Some(i) => i,
        None => {
            return Err(Error::of(ErrorKind::NotFound, "Package Is Not Installed"));
        },
    };
    match &installed.manifest.config {
        Some(actions) => Ok(
            actions.get.invocation(id, &installed.manifest.version, &installed.manifest.volumes),
        ),
        None => Err(Error::of(ErrorKind::NotFound, "Package Has No Config")),
    }
}

/// The arguments that run the action that writes the configuration of
/// package `id`. Fails, with kind `NotFound`, exactly when the package is not
/// installed or has no configuration.
pub fn set(db: &AllPackageData, id: &PackageId) -> (r: Result<Vec<String>, Error>)
    ensures
        r is Ok <==> installed_at(db.0@, id@) is Some && installed_at(
            db.0@,
            id@,
        )->0.manifest.config is Some,
        r matches Ok(argv) ==> texts(argv@) == run_args_of(
            installed_at(db.0@, id@)->0.manifest.config->0.set->Docker_0,
            id@,
            installed_at(db.0@, id@)->0.manifest.version,
            installed_at(db.0@, id@)->0.manifest.volumes@,
        ),
        r matches Err(e) ==> e.kind == ErrorKind::NotFound,
{
    let installed = match db.installed(id.as_str()) {
        Some(i) => i,
        None => {
            return Err(Error::of(ErrorKind::NotFound, "Package Is Not Installed"));
        },
    };
    match &installed.manifest.config {
        Some(actions) => Ok(
            actions.set.invocation(id, &installed.manifest.version, &installed.manifest.volumes),
        ),
        None => Err(Error::of(ErrorKind::NotFound, "Package Has No Config")),
    }
}

/// The configuration that a package is given, and whether it differs from
/// the one it has.
#[derive(Debug)]
pub struct Chosen {
    pub config: Vec<Property>,
    pub changed: bool,
}

/// The configuration that a package has, as a document; null where it has
/// none.
pub open spec fn current_document(current: Option<Vec<Property>>) -> JsonView {
    match current {
        Some(c) => JsonView::Object(config_view(c@)),
        None => JsonView::Null,
    }
}

/// `r` is the choice of a configuration for a package that has `current`,
/// where `base` was supplied or is what the package has: `base` has to match
/// the schema, else the first violation is the error; the choice is `base`
/// with its pointers refreshed, and it counts as changed unless it is the
/// same as what the package has.
pub open spec fn chosen_from(
    current: ConfigRes,
    base: Seq<(Seq<char>, JsonView)>,
    sources: crate::config::pointer::SourcesView,
    r: Result<Chosen, ConfigurationError>,
) -> bool {
    match fields_violation(current.spec.0@, base, 0) {
        Some(e) => r matches Err(ConfigurationError::NoMatch(found)) && found@ == e,
        None => r matches Ok(chosen) && config_view(chosen.config@) == refreshed(
            current.spec.0@,
            base,
            sources,
            0,
        ) && chosen.changed == !same_json(
            JsonView::Object(config_view(chosen.config@)),
            current_document(current.config),
        ),
    }
}

/// `r` is the choice of a configuration for a package: made from the
/// supplied one; where none is supplied, from the one the package has; and
/// where it has none, from one that the defaults of the schema give, unless
/// generation failed, as it may where the schema leaves something to chance.
pub open spec fn settles(
    current: ConfigRes,
    supplied: Option<Vec<Property>>,
    sources: crate::config::pointer::SourcesView,
    r: Result<Chosen, ConfigurationError>,
) -> bool {
    match (supplied, current.config) {
        (Some(given), _) => chosen_from(current, config_view(given@), sources, r),
        (None, Some(had)) => chosen_from(current, config_view(had@), sources, r),
        (None, None) => {
            ||| r matches Err(e) && generation_failure(e) && !fields_certain(current.spec.0@, 0)
            ||| exists|made: Seq<(Seq<char>, JsonView)>| #[trigger]
                defaults_of(current.spec.0@, made, 0, 0) && chosen_from(current, made, sources, r)
        },
    }
}

/// Chooses the configuration of a package: the supplied one; where none is
/// supplied, the one the package has; and where it has none, one generated
/// from the schema, which is one that the defaults of the schema give, unless
/// generation fails, as it may where the schema leaves something to chance.
/// The configuration has to match the schema; then its pointers are
/// refreshed.
pub fn settle(
    current: &ConfigRes,
    supplied: Option<Vec<Property>>,
    sources: &PointerSources,
    rng: &mut rand::rngs::StdRng,
    timeout: &Option<u64>,
) -> (r: Result<Chosen, ConfigurationError>)
    ensures
        settles(*current, supplied, sources@, r),
{
    let mut config = match supplied {
        Some(c) => c,
        None => match &current.config {
            Some(c) => clone_config(c),
            None => match current.spec.gen(rng, timeout) {
                Ok(c) => c,
                Err(e) => {
                    return Err(e);
                },
            },
        },
    };
    match current.spec.matches(&config) {
        Err(e) => {
            return Err(ConfigurationError::NoMatch(e));
        },
        Ok(()) => {},
    }
    current.spec.update(sources, &mut config);
    let changed = match &current.config {
        Some(c) => !same_configs(&config, c),
        None => true,
    };
    Ok(Chosen { config, changed })
}

/// One dependent that checks the new configuration of a package: its
/// name, and the arguments that run its check, which is given no volumes.
#[derive(Debug)]
pub struct DependentCheck {
    pub dependent: String,
    pub argv: Vec<String>,
}

/// A check as a plain value.
pub open spec fn check_view(c: DependentCheck) -> (Seq<char>, Seq<Seq<char>>) {
    (c.dependent@, texts(c.argv@))
}

/// The checks as plain values.
pub open spec fn checks_view(checks: Seq<DependentCheck>) -> Seq<(Seq<char>, Seq<Seq<char>>)> {
    Seq::new(checks.len(), |i: int| check_view(checks[i]))
}

/// What is planned for one dependent of `id`: an error where the dependent
/// is not a package, is not installed, or does not declare `id` as a
/// dependency; nothing where it declares no check; and otherwise its check.
pub open spec fn check_of(
    db: Seq<(Seq<char>, PackageDataEntry)>,
    id: Seq<char>,
    dependent: Seq<char>,
) -> Result<Option<(Seq<char>, Seq<Seq<char>>)>, ()> {
    if !crate::id::is_package_id(dependent) {
        Err(())
    } else {
        match installed_at(db, dependent) {
            None => Err(()),
            Some(installed) => match lookup(installed.manifest.dependencies.0@, id) {
                None => Err(()),
                Some(info) => match info.config {
                    None => Ok(None),
                    Some(config) => Ok(
                        Some(
                            (
                                dependent,
                                run_args_of(
                                    config.check->Docker_0,
                                    dependent,
                                    installed.manifest.version,
                                    Seq::empty(),
                                ),
                            ),
                        ),
                    ),
                },
            },
        }
    }
}

/// The checks planned for the first `upto` dependents, in their order; an
/// error where one of them could not be planned.
pub open spec fn checks_upto(
    db: Seq<(Seq<char>, PackageDataEntry)>,
    id: Seq<char>,
    dependents: Seq<Seq<char>>,
    upto: int,
) -> Result<Seq<(Seq<char>, Seq<Seq<char>>)>, ()>
    decreases upto,
{
    if upto <= 0 {
        Ok(Seq::empty())
    } else {
        match checks_upto(db, id, dependents, upto - 1) {
            Err(()) => Err(()),
            Ok(planned) => match check_of(db, id, dependents[upto - 1]) {
                Err(()) => Err(()),
                Ok(None) => Ok(planned),
                Ok(Some(c)) => Ok(planned.push(c)),
            },
        }
    }
}

/// Once planning has met an error, it ends in one.
pub proof fn checks_stay_failed(
    db: Seq<(Seq<char>, PackageDataEntry)>,
    id: Seq<char>,
    dependents: Seq<Seq<char>>,
    n: int,
    upto: int,
)
    requires
        0 <= n <= upto,
        checks_upto(db, id, dependents, n) is Err,
    ensures
        checks_upto(db, id, dependents, upto) is Err,
    decreases upto - n,
{
    if n < upto {
        checks_stay_failed(db, id, dependents, n, upto - 1);
    }
}

/// The checks that the dependents of package `id` run against its new
/// configuration, in the order of the dependents. Fails, with kind
/// `NotFound`, where `id` is not installed, and with kind `Database` where a
/// dependent is not installed or does not declare `id`.
pub fn check_plan(db: &AllPackageData, id: &PackageId) -> (r: Result<Vec<DependentCheck>, Error>)
    ensures
        installed_at(db.0@, id@) is None ==> (r matches Err(e) && e.kind == ErrorKind::NotFound),
        installed_at(db.0@, id@) matches Some(installed) ==> match checks_upto(
            db.0@,
            id@,
            names_in(installed.dependents@),
            installed.dependents@.len() as int,
        ) {
            Ok(planned) => r matches Ok(found) && checks_view(found@) == planned,
            Err(()) => r matches Err(e) && e.kind == ErrorKind::Database,
        },
{
    let installed = match db.installed(id.as_str()) {
        Some(i) => i,
        None => {
            return Err(Error::of(ErrorKind::NotFound, "Package Is Not Installed"));
        },
    };
    let mut planned: Vec<DependentCheck> = Vec::new();
    let ghost names = names_in(installed.dependents@);
    let n = installed.dependents.len();
    let mut i: usize = 0;
    assert(checks_view(planned@) =~= Seq::empty());
    while i < n
        invariant
            i <= n,
            n == installed.dependents@.len(),
            names == names_in(installed.dependents@),
            installed_at(db.0@, id@) == Some(*installed),
            checks_upto(db.0@, id@, names, i as int) == Ok::<
                Seq<(Seq<char>, Seq<Seq<char>>)>,
                (),
            >(checks_view(planned@)),
        decreases n - i,
    {
        let name = installed.dependents.key_at(i);
        let ghost before = checks_view(planned@);
        assert(names[i as int] == name@);
        let dependent_id = match PackageId::new(name) {
            Ok(d) => d,
            Err(_) => {
                proof {
                    checks_stay_failed(db.0@, id@, names, i as int + 1, n as int);
                }
                return Err(Error::of(ErrorKind::Database, "Dependent Is Not A Package"));
            },
        };
        let dependent = match db.installed(name) {
            Some(d) => d,
            None => {
                proof {
                    checks_stay_failed(db.0@, id@, names, i as int + 1, n as int);
                }
                return Err(Error::of(ErrorKind::Database, "Dependent Is Not Installed"));
            },
        };
        let info = match dependent.manifest.dependencies.0.get(id.as_str()) {
            Some(info) => info,
            None => {
                proof {
                    checks_stay_failed(db.0@, id@, names, i as int + 1, n as int);
                }
                return Err(Error::of(ErrorKind::Database, "Dependency Is Not Declared"));
            },
        };
        match &info.config {
            Some(config) => {
                let none = crate::volume::Volumes::new();
                assert(none@ =~= Seq::empty());
                let argv = config.check.invocation(
                    &dependent_id,
                    &dependent.manifest.version,
                    &none,
                );
                planned.push(DependentCheck { dependent: name.to_owned(), argv });
                assert(checks_view(planned@) =~= before.push(
                    check_view(planned@[planned@.len() - 1]),
                ));
            },
            None => {},
        }
        i = i + 1;
    }
    Ok(planned)
}

/// The entry once a run of configuring is committed: the package that was
/// configured counts as configured, and a package found broken has that
/// recorded among its unmet dependencies. Nothing else changes.
pub open spec fn entry_committed(
    entry: PackageDataEntry,
    after: PackageDataEntry,
    configured: bool,
    breakage: Option<(Seq<char>, DependencyErrorView)>,
) -> bool {
    match installed_of(entry) {
        None => after == entry,
        Some(installed) => {
            &&& installed_of(after) is Some
            &&& after == with_status(
                entry,
                Status {
                    configured: installed.status.configured || configured,
                    main: installed.status.main,
                    dependencies: installed_of(after)->0.status.dependencies,
                },
            )
            &&& installed_of(after)->0.status.dependencies@ == match breakage {
                Some((dependency, error)) => upsert(
                    installed.status.dependencies@,
                    dependency,
                    error,
                ),
                None => installed.status.dependencies@,
            }
        },
    }
}

/// `after` is `before` with a run of configuring package `id` committed.
pub open spec fn committed(
    before: Seq<(Seq<char>, PackageDataEntry)>,
    after: Seq<(Seq<char>, PackageDataEntry)>,
    id: Seq<char>,
    breakages: Breakages,
) -> bool {
    &&& after.len() == before.len()
    &&& forall|i: int|
        0 <= i < before.len() ==> (#[trigger] after[i]).0 == before[i].0 && entry_committed(
            before[i].1,
            after[i].1,
            before[i].0 == id,
            lookup(breakages, before[i].0),
        )
}

/// The breakage recorded for `id`, as a plain value.
proof fn breakage_lookup(breakages: Seq<(Seq<char>, Breakage)>, id: Seq<char>)
    ensures
        has_key(breakages, id) == has_key(breakages_view(breakages), id),
        has_key(breakages, id) ==> lookup(breakages_view(breakages), id) == Some(
            (lookup(breakages, id)->0.dependency@, lookup(breakages, id)->0.error@),
        ),
{
    position_by_keys(breakages, breakages_view(breakages), id);
    position_finds(breakages, id);
}

/// Recording an unmet dependency reads the same as plain values.
proof fn errors_upsert(
    before: Seq<(Seq<char>, DependencyError)>,
    dependency: Seq<char>,
    error: DependencyError,
)
    ensures
        Seq::new(
            upsert(before, dependency, error).len(),
            |i: int| (upsert(before, dependency, error)[i].0, upsert(before, dependency, error)[i].1@),
        ) == upsert(Seq::new(before.len(), |i: int| (before[i].0, before[i].1@)), dependency, error@),
{
    let views = Seq::new(before.len(), |i: int| (before[i].0, before[i].1@));
    position_by_keys(before, views, dependency);
    position_finds(before, dependency);
    let a = Seq::new(
        upsert(before, dependency, error).len(),
        |i: int| (upsert(before, dependency, error)[i].0, upsert(before, dependency, error)[i].1@),
    );
    assert(a =~= upsert(views, dependency, error@));
}

/// Ends a run of configuring package `id`. A dry run changes nothing in
/// the record. Any other run is committed: `id` counts as configured, and
/// every package found broken has that recorded among its unmet
/// dependencies. Either way the packages found broken are handed back, with
/// the names of the packages whose record changes, or would have changed:
/// `id`, and the broken ones.
pub fn finish(
    db: &mut AllPackageData,
    id: &PackageId,
    configuration: Configuration,
    dry_run: bool,
) -> (res: BreakageRes)
    ensures
        dry_run ==> *final(db) == *old(db),
        !dry_run ==> committed(
            old(db).0@,
            final(db).0@,
            id@,
            breakages_view(configuration.breakages@),
        ),
        res.breakages == configuration.breakages,
        texts(res.patch@) == seq![id@] + names_in(configuration.breakages@),
        same_links(old(db).0@, final(db).0@),
{
    let Configuration { overrides: _, breakages } = configuration;
    let mut patch: Vec<String> = Vec::new();
    assert(texts(patch@) =~= Seq::empty());
    push_text(&mut patch, id.as_str().to_owned());
    let mut b: usize = 0;
    assert(texts(patch@) =~= seq![id@] + names_in(breakages@).take(0));
    while b < breakages.len()
        invariant
            b <= breakages@.len(),
            texts(patch@) == seq![id@] + names_in(breakages@).take(b as int),
        decreases breakages@.len() - b,
    {
        push_text(&mut patch, breakages.key_at(b).to_owned());
        assert(texts(patch@) =~= seq![id@] + names_in(breakages@).take(b as int + 1));
        b = b + 1;
    }
    assert(names_in(breakages@).take(b as int) =~= names_in(breakages@));
    if !dry_run {
        let ghost before = db.0@;
        let n = db.0.len();
        let mut i: usize = 0;
        while i < n
            invariant
                i <= n,
                n == before.len(),
                db.0@.len() == before.len(),
                forall|j: int| 0 <= j < n ==> (#[trigger] db.0@[j]).0 == before[j].0,
                forall|j: int|
                    0 <= j < i ==> entry_committed(
                        before[j].1,
                        (#[trigger] db.0@[j]).1,
                        before[j].0 == id@,
                        lookup(breakages_view(breakages@), before[j].0),
                    ),
                forall|j: int| i <= j < n ==> (#[trigger] db.0@[j]) == before[j],
            decreases n - i,
        {
            if db.0.value_at(i).installed().is_some() {
                let is_root = crate::ordered_map::same_text(db.0.key_at(i), id.as_str());
                let broken = match breakages.get(db.0.key_at(i)) {
                    Some(b) => Some((b.dependency.clone(), b.error.clone())),
                    None => None,
                };
                proof {
                    breakage_lookup(breakages@, before[i as int].0);
                }
                let ghost entry = db.0@[i as int].1;
                let status = db.replace_status(
                    i,
                    Status {
                        configured: false,
                        main: MainStatus::Stopped,
                        dependencies: DependencyErrors::new(),
                    },
                );
                let Status { configured, main, dependencies } = status;
                let mut dependencies = dependencies;
                match broken {
                    Some((dependency, error)) => {
                        proof {
                            errors_upsert(dependencies.0@, dependency@, error);
                        }
                        dependencies.0.insert(dependency, error);
                    },
                    None => {},
                }
                db.replace_status(
                    i,
                    Status { configured: configured || is_root, main, dependencies },
                );
                proof {
                    assert(db.0@[i as int].1 == with_status(
                        entry,
                        Status {
                            configured: configured || is_root,
                            main,
                            dependencies,
                        },
                    ));
                }
            }
            i = i + 1;
        }
    }
    BreakageRes { patch, breakages }
}

/// Ends a dry run of configuring package `id`: nothing in the record
/// changes, and what would have changed is handed back.
pub fn set_dry(db: &mut AllPackageData, id: &PackageId, configuration: Configuration) -> (res:
    BreakageRes)
    ensures
        *final(db) == *old(db),
        res.breakages == configuration.breakages,
        texts(res.patch@) == seq![id@] + names_in(configuration.breakages@),
        same_links(old(db).0@, final(db).0@),
{
    finish(db, id, configuration, true)
}

/// Ends a run of configuring package `id` and commits it.
pub fn set_impl(db: &mut AllPackageData, id: &PackageId, configuration: Configuration) -> (res:
    BreakageRes)
    ensures
        committed(old(db).0@, final(db).0@, id@, breakages_view(configuration.breakages@)),
        res.breakages == configuration.breakages,
        texts(res.patch@) == seq![id@] + names_in(configuration.breakages@),
        same_links(old(db).0@, final(db).0@),
{
    finish(db, id, configuration, false)
}

impl Configuration {
    /// The start of a run: nothing decided.
    pub fn new() -> (c: Configuration)
        ensures
            c.overrides@.len() == 0,
            c.breakages@.len() == 0,
    {
        Configuration { overrides: OrderedMap::new(), breakages: OrderedMap::new() }
    }

    /// Records the configuration that package `id` is given in this run.
    pub fn record(&mut self, id: &PackageId, config: Vec<Property>)
        ensures
            final(self).overrides@ == upsert(old(self).overrides@, id@, config),
            final(self).breakages == old(self).breakages,
    {
        self.overrides.insert(id.as_str().to_owned(), config);
    }
}

} // verus!
