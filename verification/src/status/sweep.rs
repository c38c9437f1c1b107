//! The synchronize sweep: every container that the runtime lists is
//! matched to its package, whose status is brought in line with it.

use vstd::prelude::*;
use vstd::string::*;
use crate::action::docker::{container_name_text, container_owner, DockerAction};
use crate::db::{
    installed_at, installed_of, with_status, with_status_at, AllPackageData, PackageDataEntry,
};
use crate::error::{Error, ErrorKind};
use crate::links::{same_links, same_links_carry};
use crate::ordered_map::{position, position_finds, same_text};
use crate::status::{
    observation_of, sync_action, sync_status, DependencyErrors, MainStatus, Status, SyncAction,
    UNEXPECTED_STATUS,
};
use crate::status::health_check::Timestamp;
use crate::text::{chars_of, find_char, first_index, slice_of, split, split_chars, string_of, texts};

verus! {

/// One container as the runtime lists it.
#[derive(Debug)]
pub struct ContainerSummary {
    pub names: Vec<String>,
    pub state: Option<String>,
}

/// How the runtime is asked to write its listing: for each container one
/// line with its names, a tab, and its state.
pub const LISTING_FORMAT: &'static str = "{{.Names}}\t{{.State}}";

/// A container as a plain value: its names and its state.
pub open spec fn summary_view(c: ContainerSummary) -> (Seq<Seq<char>>, Option<Seq<char>>) {
    (
        texts(c.names@),
        match c.state {
            Some(s) => Some(s@),
            None => None,
        },
    )
}

/// The containers as plain values.
pub open spec fn summaries_view(containers: Seq<ContainerSummary>) -> Seq<
    (Seq<Seq<char>>, Option<Seq<char>>),
> {
    Seq::new(containers.len(), |i: int| summary_view(containers[i]))
}

/// The container that one line of the listing speaks of: its names are
/// what stands before the first tab, with `,` between them, and its state is
/// what follows the tab. A line without tab gives no state.
pub open spec fn container_of(line: Seq<char>) -> (Seq<Seq<char>>, Option<Seq<char>>) {
    let tab = first_index(line, '\t');
    (
        split(line.take(tab), ','),
        if tab < line.len() {
            Some(line.skip(tab + 1))
        } else {
            None
        },
    )
}

/// The containers that the first `upto` lines speak of; an empty line
/// speaks of none.
pub open spec fn containers_upto(lines: Seq<Seq<char>>, upto: int) -> Seq<
    (Seq<Seq<char>>, Option<Seq<char>>),
>
    decreases upto,
{
    if upto <= 0 {
        Seq::empty()
    } else if lines[upto - 1].len() == 0 {
        containers_upto(lines, upto - 1)
    } else {
        containers_upto(lines, upto - 1).push(container_of(lines[upto - 1]))
    }
}

/// The containers that a listing speaks of, line by line.
pub open spec fn listed(output: Seq<char>) -> Seq<(Seq<Seq<char>>, Option<Seq<char>>)> {
    containers_upto(split(output, '\n'), split(output, '\n').len() as int)
}

/// Reads the listing of the runtime.
pub fn containers_listed(output: &str) -> (containers: Vec<ContainerSummary>)
    ensures
        summaries_view(containers@) == listed(output@),
{
    let chars = chars_of(output);
    let lines = split_chars(&chars, '\n');
    let ghost all = split(output@, '\n');
    let mut containers: Vec<ContainerSummary> = Vec::new();
    let mut i: usize = 0;
    assert(summaries_view(containers@) =~= containers_upto(all, 0));
    while i < lines.len()
        invariant
            i <= lines@.len(),
            lines@.len() == all.len(),
            forall|k: int| 0 <= k < lines@.len() ==> (#[trigger] lines@[k])@ == all[k],
            summaries_view(containers@) == containers_upto(all, i as int),
        decreases lines@.len() - i,
    {
        let line = &lines[i];
        if line.len() > 0 {
            let ghost before = summaries_view(containers@);
            let tab = find_char(line, '\t', 0);
            let front = slice_of(line, 0, tab);
            assert(front@ =~= line@.take(tab as int));
            let parts = split_chars(&front, ',');
            let mut names: Vec<String> = Vec::new();
            let mut p: usize = 0;
            while p < parts.len()
                invariant
                    p <= parts@.len(),
                    names@.len() == p,
                    forall|k: int| 0 <= k < p ==> (#[trigger] names@[k])@ == parts@[k]@,
                decreases parts@.len() - p,
            {
                names.push(string_of(&parts[p]));
                p = p + 1;
            }
            assert(texts(names@) =~= split(line@.take(tab as int), ','));
            let state = if tab < line.len() {
                let rest = slice_of(line, tab + 1, line.len());
                assert(rest@ =~= line@.skip(tab as int + 1));
                Some(string_of(&rest))
            } else {
                None
            };
            containers.push(ContainerSummary { names, state });
            assert(summaries_view(containers@) =~= before.push(container_of(all[i as int])));
        }
        i = i + 1;
    }
    containers
}

/// The names of the containers of the installed packages among the first
/// `upto`, in their order.
pub open spec fn container_names_upto(db: Seq<(Seq<char>, PackageDataEntry)>, upto: int) -> Seq<
    Seq<char>,
>
    decreases upto,
{
    if upto <= 0 {
        Seq::empty()
    } else {
        match installed_of(db[upto - 1].1) {
            Some(installed) => container_names_upto(db, upto - 1).push(
                container_name_text(db[upto - 1].0, installed.manifest.version),
            ),
            None => container_names_upto(db, upto - 1),
        }
    }
}

/// The names of the installed packages among the first `upto`, in their
/// order.
pub open spec fn installed_names_upto(db: Seq<(Seq<char>, PackageDataEntry)>, upto: int) -> Seq<
    Seq<char>,
>
    decreases upto,
{
    if upto <= 0 {
        Seq::empty()
    } else if installed_of(db[upto - 1].1) is Some {
        installed_names_upto(db, upto - 1).push(db[upto - 1].0)
    } else {
        installed_names_upto(db, upto - 1)
    }
}

/// The place of `id` among `names`, or `names.len()`.
pub open spec fn place_of(names: Seq<Seq<char>>, id: Seq<char>, from: int) -> int
    decreases names.len() - from,
{
    if from < 0 || from >= names.len() {
        names.len() as int
    } else if names[from] == id {
        from
    } else {
        place_of(names, id, from + 1)
    }
}

/// The package that a container with these names belongs to: the first of
/// its names, from `from` on, that is the container name of a package still
/// waiting for its container.
pub open spec fn claimed(names: Seq<Seq<char>>, waiting: Seq<Seq<char>>, from: int) -> Option<
    Seq<char>,
>
    decreases names.len() - from,
{
    if from < 0 || from >= names.len() {
        None
    } else {
        match container_owner(names[from]) {
            Some(owner) => if place_of(waiting, owner, 0) < waiting.len() {
                Some(owner)
            } else {
                claimed(names, waiting, from + 1)
            },
            None => claimed(names, waiting, from + 1),
        }
    }
}

/// What the sweep did about one container: the package it belongs to, and
/// what is asked of the runtime, or the kind of the error met.
#[derive(Debug)]
pub struct SweepStep {
    pub package: String,
    pub outcome: Result<SyncAction, Error>,
}

/// A step of the sweep as a plain value.
pub open spec fn step_view(step: SweepStep) -> (Seq<char>, Result<SyncAction, (ErrorKind, Seq<char>)>) {
    (
        step.package@,
        match step.outcome {
            Ok(a) => Ok(a),
            Err(e) => Err((e.kind, e.message@)),
        },
    )
}

/// The steps of the sweep as plain values.
pub open spec fn steps_view(steps: Seq<SweepStep>) -> Seq<
    (Seq<char>, Result<SyncAction, (ErrorKind, Seq<char>)>),
> {
    Seq::new(steps.len(), |i: int| step_view(steps[i]))
}

/// Where the sweep stands: the record, and the packages that still wait
/// for their container.
pub struct SweepView {
    pub db: Seq<(Seq<char>, PackageDataEntry)>,
    pub waiting: Seq<Seq<char>>,
    pub steps: Seq<(Seq<char>, Result<SyncAction, (ErrorKind, Seq<char>)>)>,
}

/// The sweep after one more container: where the container belongs to a
/// waiting package, the package waits no longer, and its status is brought
/// in line with the state reported of the container; a state that is not
/// known is an error of kind `Docker` for that package, with the message
/// `Unexpected Docker Status`, and changes nothing.
pub open spec fn sweep_one(
    at: SweepView,
    names: Seq<Seq<char>>,
    state: Option<Seq<char>>,
    now: Timestamp,
) -> SweepView {
    match claimed(names, at.waiting, 0) {
        None => at,
        Some(id) => {
            let waiting = at.waiting.remove(place_of(at.waiting, id, 0));
            match installed_at(at.db, id) {
                None => SweepView { waiting, ..at },
                Some(installed) => match observation_of(state) {
                    None => SweepView {
                        waiting,
                        steps: at.steps.push((id, Err((ErrorKind::Docker, UNEXPECTED_STATUS@)))),
                        ..at
                    },
                    Some(o) => SweepView {
                        db: with_status_at(
                            at.db,
                            position(at.db, id),
                            Status {
                                main: sync_status(installed.status.main, o, now),
                                ..installed.status
                            },
                        ),
                        waiting,
                        steps: at.steps.push((id, Ok(sync_action(installed.status.main, o)))),
                    },
                },
            }
        },
    }
}

/// The state that a container is reported in, as a plain value.
pub open spec fn state_view(state: Option<String>) -> Option<Seq<char>> {
    match state {
        Some(s) => Some(s@),
        None => None,
    }
}

/// The sweep after the first `upto` containers.
pub open spec fn sweep_upto(
    start: SweepView,
    containers: Seq<ContainerSummary>,
    now: Timestamp,
    upto: int,
) -> SweepView
    decreases upto,
{
    if upto <= 0 {
        start
    } else {
        sweep_one(
            sweep_upto(start, containers, now, upto - 1),
            texts(containers[upto - 1].names@),
            state_view(containers[upto - 1].state),
            now,
        )
    }
}

/// What a sweep comes to: what it did about each container, and the
/// installed packages for which the runtime listed no container.
pub struct Sweep {
    pub steps: Vec<SweepStep>,
    pub missing: Vec<String>,
}

/// The place of `id` among `names`.
fn find_name(names: &Vec<String>, id: &str) -> (r: Option<usize>)
    ensures
        r is Some <==> place_of(texts(names@), id@, 0) < names@.len(),
        r matches Some(i) ==> i == place_of(texts(names@), id@, 0),
{
    let mut i: usize = 0;
    while i < names.len()
        invariant
            i <= names@.len(),
            place_of(texts(names@), id@, 0) == place_of(texts(names@), id@, i as int),
        decreases names@.len() - i,
    {
        if same_text(names[i].as_str(), id) {
            return Some(i);
        }
        i = i + 1;
    }
    None
}

/// The package that a container with these names belongs to, and its place
/// among the waiting.
fn claim<'a>(names: &'a Vec<String>, waiting: &Vec<String>) -> (r: Option<(&'a str, usize)>)
    ensures
        r is Some <==> claimed(texts(names@), texts(waiting@), 0) is Some,
        r matches Some(found) ==> Some(found.0@) == claimed(texts(names@), texts(waiting@), 0)
            && found.1 == place_of(texts(waiting@), found.0@, 0) && found.1 < waiting@.len(),
{
    let mut i: usize = 0;
    while i < names.len()
        invariant
            i <= names@.len(),
            claimed(texts(names@), texts(waiting@), 0) == claimed(
                texts(names@),
                texts(waiting@),
                i as int,
            ),
        decreases names@.len() - i,
    {
        match DockerAction::uncontainer_name(names[i].as_str()) {
            Some(owner) => {
                match find_name(waiting, owner) {
                    Some(at) => {
                        return Some((owner, at));
                    },
                    None => {},
                }
            },
            None => {},
        }
        i = i + 1;
    }
    None
}

/// The names of the containers of the installed packages: what the runtime
/// is asked to list.
pub fn container_names(db: &AllPackageData) -> (names: Vec<String>)
    ensures
        texts(names@) == container_names_upto(db.0@, db.0@.len() as int),
{
    let mut names: Vec<String> = Vec::new();
    let mut i: usize = 0;
    assert(texts(names@) =~= Seq::empty());
    while i < db.0.len()
        invariant
            i <= db.0@.len(),
            texts(names@) == container_names_upto(db.0@, i as int),
        decreases db.0@.len() - i,
    {
        match db.0.value_at(i).installed() {
            Some(installed) => {
                let ghost before = texts(names@);
                let mut name = "service_".to_owned();
                name.append(db.0.key_at(i));
                proof {
                    reveal_strlit("_");
                }
                name.append("_");
                name.append(installed.manifest.version.to_string().as_str());
                assert(name@ =~= container_name_text(
                    db.0@[i as int].0,
                    installed.manifest.version,
                ));
                names.push(name);
                assert(texts(names@) =~= before.push(
                    container_name_text(db.0@[i as int].0, installed.manifest.version),
                ));
            },
            None => {},
        }
        i = i + 1;
    }
    names
}

/// The names of the installed packages.
fn installed_names(db: &AllPackageData) -> (names: Vec<String>)
    ensures
        texts(names@) == installed_names_upto(db.0@, db.0@.len() as int),
{
    let mut names: Vec<String> = Vec::new();
    let mut i: usize = 0;
    assert(texts(names@) =~= Seq::empty());
    while i < db.0.len()
        invariant
            i <= db.0@.len(),
            texts(names@) == installed_names_upto(db.0@, i as int),
        decreases db.0@.len() - i,
    {
        if db.0.value_at(i).installed().is_some() {
            let ghost before = texts(names@);
            names.push(db.0.key_at(i).to_owned());
            assert(texts(names@) =~= before.push(db.0@[i as int].0));
        }
        i = i + 1;
    }
    names
}

/// Where a sweep starts: with the record as it is, every installed package
/// waiting for its container, and nothing done.
pub open spec fn sweep_start(db: Seq<(Seq<char>, PackageDataEntry)>) -> SweepView {
    SweepView {
        db,
        waiting: installed_names_upto(db, db.len() as int),
        steps: Seq::empty(),
    }
}

/// One sweep over the containers that the runtime lists: each is matched
/// to the installed package it is named after, at most one container per
/// package, and the status of that package is brought in line with the
/// state of the container. The sweep says what to ask of the runtime for
/// each, and names the installed packages that have no container.
pub fn synchronize_all(db: &mut AllPackageData, containers: &Vec<ContainerSummary>, now: Timestamp)
    -> (sweep: Sweep)
    ensures
        ({
            let end = sweep_upto(
                sweep_start(old(db).0@),
                containers@,
                now,
                containers@.len() as int,
            );
            &&& final(db).0@ == end.db
            &&& steps_view(sweep.steps@) == end.steps
            &&& texts(sweep.missing@) == end.waiting
        }),
        same_links(old(db).0@, final(db).0@),
{
    let mut waiting = installed_names(db);
    let mut steps: Vec<SweepStep> = Vec::new();
    let ghost start = sweep_start(db.0@);
    let ghost before = db.0@;
    let mut c: usize = 0;
    assert(steps_view(steps@) =~= Seq::empty());
    while c < containers.len()
        invariant
            c <= containers@.len(),
            same_links(before, db.0@),
            sweep_upto(start, containers@, now, c as int) == (SweepView {
                db: db.0@,
                waiting: texts(waiting@),
                steps: steps_view(steps@),
            }),
        decreases containers@.len() - c,
    {
        let container = &containers[c];
        let ghost at = SweepView {
            db: db.0@,
            waiting: texts(waiting@),
            steps: steps_view(steps@),
        };
        match claim(&container.names, &waiting) {
            None => {},
            Some((id, place)) => {
                let ghost old_waiting = texts(waiting@);
                let ghost old_steps = steps_view(steps@);
                waiting.remove(place);
                assert(texts(waiting@) =~= old_waiting.remove(place as int));
                match db.0.find(id) {
                    None => {
                        proof {
                            assert(installed_at(at.db, id@) is None);
                        }
                    },
                    Some(i) => {
                        let ghost entry = db.0@[i as int].1;
                        proof {
                            crate::ordered_map::position_finds(db.0@, id@);
                        }
                        if db.0.value_at(i).installed().is_some() {
                            let mut status = db.replace_status(
                                i,
                                Status {
                                    configured: false,
                                    main: MainStatus::Stopped,
                                    dependencies: DependencyErrors::new(),
                                },
                            );
                            let state = match &container.state {
                                Some(s) => Some(s.as_str()),
                                None => None,
                            };
                            let ghost installed = installed_of(entry)->0;
                            assert(status == installed.status);
                            assert(installed_at(at.db, id@) == Some(installed));
                            let Status { configured, main, dependencies } = status;
                            let mut main = main;
                            let outcome = main.synchronize(state, now);
                            let ghost new_status = Status { configured, main, dependencies };
                            let ghost taken = db.0@;
                            db.replace_status(i, Status { configured, main, dependencies });
                            proof {
                                same_links_carry(before, at.db, taken);
                                same_links_carry(before, taken, db.0@);
                                assert(db.0@ =~= with_status_at(at.db, i as int, new_status));
                                if outcome is Err {
                                    assert(new_status == installed.status);
                                    assert(with_status(entry, installed.status) == entry);
                                    assert(db.0@ =~= at.db);
                                }
                            }
                            steps.push(SweepStep { package: id.to_owned(), outcome });
                            assert(steps_view(steps@) =~= old_steps.push(
                                step_view(steps@[steps@.len() - 1]),
                            ));
                            assert(state_view(container.state) == match state {
                                Some(s) => Some(s@),
                                None => None,
                            });
                        }
                    },
                }
            },
        }
        assert(sweep_one(at, texts(container.names@), state_view(container.state), now)
            == (SweepView { db: db.0@, waiting: texts(waiting@), steps: steps_view(steps@) }));
        c = c + 1;
    }
    Sweep { steps, missing: waiting }
}

/// Is the container runtime to be restarted at the end of the sweep? It is
/// once, however many containers showed the anomaly, and not at all where
/// none did.
pub fn restart_needed(anomalies: &Vec<bool>) -> (restart: bool)
    ensures
        restart == exists|i: int| 0 <= i < anomalies@.len() && anomalies@[i],
{
    let mut i: usize = 0;
    while i < anomalies.len()
        invariant
            i <= anomalies@.len(),
            forall|j: int| 0 <= j < i ==> !anomalies@[j],
        decreases anomalies@.len() - i,
    {
        if anomalies[i] {
            return true;
        }
        i = i + 1;
    }
    false
}

} // verus!
