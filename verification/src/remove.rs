//! Removing a package: which packages break, what is taken out of the
//! record, and what is asked of the host.

use vstd::prelude::*;
use vstd::string::*;
use crate::action::docker::{container_name_text, DockerAction};
use crate::config::cascade::{complete, marking_keeps_marks, rounds_keep_marks};
use crate::config::configure::{breakages_view, cascade, mark_rounds, marked, Breakage, Breakages};
use crate::db::{installed_at, AllPackageData, PackageDataEntry};
use crate::dependencies::{DependencyError, DependencyErrorView};
use crate::error::{Error, ErrorKind};
use crate::graph::{acyclic, same_manifests_stay_acyclic, uninstalling_keeps_acyclic};
use crate::id::PackageId;
use crate::links::{linked, links_cut, taking_out_keeps_links, unlink};
use crate::ordered_map::{
    has_key, lookup, names_in, position_by_keys, without, without_keeps_others, OrderedMap,
};
use crate::path::{join, joined};
use crate::util::PERSISTENCE_DIR;
use crate::version::Version;

verus! {

/// The directory under which the volumes of the packages are mounted.
pub const VOLUMES: &'static str = "/root/volumes";

/// One thing asked of the host while a package is removed.
#[derive(Debug)]
pub enum RemoveStep {
    /// Stop the container of this name.
    StopContainer(String),
    /// Remove the container of this name.
    RemoveContainer(String),
    /// Remove the image of this name.
    RemoveImage(String),
    /// Remove the hidden service of this package.
    RemoveHiddenService(String),
    /// Remove this directory and all it holds.
    RemoveDir(String),
    /// Unmount what is mounted at this path, where something is.
    Unmount(String),
    /// Remove every image that no container uses.
    PruneImages,
}

/// A step as a plain value.
pub enum StepView {
    StopContainer(Seq<char>),
    RemoveContainer(Seq<char>),
    RemoveImage(Seq<char>),
    RemoveHiddenService(Seq<char>),
    RemoveDir(Seq<char>),
    Unmount(Seq<char>),
    PruneImages,
}

impl View for RemoveStep {
    type V = StepView;

    open spec fn view(&self) -> StepView {
        match *self {
            RemoveStep::StopContainer(s) => StepView::StopContainer(s@),
            RemoveStep::RemoveContainer(s) => StepView::RemoveContainer(s@),
            RemoveStep::RemoveImage(s) => StepView::RemoveImage(s@),
            RemoveStep::RemoveHiddenService(s) => StepView::RemoveHiddenService(s@),
            RemoveStep::RemoveDir(s) => StepView::RemoveDir(s@),
            RemoveStep::Unmount(s) => StepView::Unmount(s@),
            RemoveStep::PruneImages => StepView::PruneImages,
        }
    }
}

/// The steps as plain values.
pub open spec fn steps_of(steps: Seq<RemoveStep>) -> Seq<StepView> {
    Seq::new(steps.len(), |i: int| steps[i]@)
}

/// Where `owner` has what `other` shares with it mounted: the public
/// files, then the shared ones.
pub open spec fn mounts_of(owner: Seq<char>, other: Seq<char>) -> Seq<StepView> {
    seq![
        StepView::Unmount(VOLUMES@ + seq!['/'] + owner + "/start9/public/"@ + other),
        StepView::Unmount(VOLUMES@ + seq!['/'] + owner + "/start9/shared/"@ + other),
    ]
}

/// The directories that a package shares with the packages that depend
/// on it, where it shares any.
#[derive(Debug)]
pub struct Shares {
    pub public: Option<String>,
    pub shared: Option<String>,
}

/// Does package `id` share a directory with its dependents?
pub open spec fn exposes(shares: Seq<(Seq<char>, Shares)>, id: Seq<char>) -> bool {
    lookup(shares, id) matches Some(s) && (s.public is Some || s.shared is Some)
}

/// The directory of `id` inside the shared directory of its dependency
/// `dependency`, which is removed where the dependency is installed and has
/// a shared directory.
pub open spec fn shared_inside(
    db: Seq<(Seq<char>, PackageDataEntry)>,
    shares: Seq<(Seq<char>, Shares)>,
    id: Seq<char>,
    dependency: Seq<char>,
) -> Seq<StepView> {
    if installed_at(db, dependency) is Some && lookup(shares, dependency) is Some && lookup(
        shares,
        dependency,
    )->0.shared is Some {
        seq![
            StepView::RemoveDir(
                joined(
                    joined(joined(VOLUMES@, dependency), lookup(shares, dependency)->0.shared->0@),
                    id,
                ),
            ),
        ]
    } else {
        Seq::empty()
    }
}

/// What is undone of the first `upto` dependencies of `id`: what `id` has
/// mounted of each is unmounted, and the directory of `id` inside the shared
/// directory of each is removed.
pub open spec fn own_mounts(
    db: Seq<(Seq<char>, PackageDataEntry)>,
    shares: Seq<(Seq<char>, Shares)>,
    id: Seq<char>,
    dependencies: Seq<Seq<char>>,
    upto: int,
) -> Seq<StepView>
    decreases upto,
{
    if upto <= 0 {
        Seq::empty()
    } else {
        own_mounts(db, shares, id, dependencies, upto - 1) + mounts_of(id, dependencies[upto - 1])
            + shared_inside(db, shares, id, dependencies[upto - 1])
    }
}

/// The mounts of `id` inside the volumes of the first `upto` dependents.
pub open spec fn foreign_mounts(id: Seq<char>, dependents: Seq<Seq<char>>, upto: int) -> Seq<
    StepView,
>
    decreases upto,
{
    if upto <= 0 {
        Seq::empty()
    } else {
        foreign_mounts(id, dependents, upto - 1) + mounts_of(dependents[upto - 1], id)
    }
}

/// What is asked of the host to remove package `id` at `version`: its
/// container is stopped and removed, and its image removed; and where the
/// package is purged, its hidden service and its persisted state are
/// removed, what it has mounted of its dependencies is unmounted and its
/// directory inside their shared directories removed, what its dependents
/// have mounted of it is unmounted where it shares anything, its volumes are
/// removed, and the images that are left without a container are pruned.
pub open spec fn removal_steps(
    db: Seq<(Seq<char>, PackageDataEntry)>,
    shares: Seq<(Seq<char>, Shares)>,
    id: Seq<char>,
    version: Version,
    purge: bool,
    dependencies: Seq<Seq<char>>,
    dependents: Seq<Seq<char>>,
) -> Seq<StepView> {
    let teardown = seq![
        StepView::StopContainer(container_name_text(id, version)),
        StepView::RemoveContainer(container_name_text(id, version)),
        StepView::RemoveImage("start9/"@ + id),
    ];
    if purge {
        teardown + seq![
            StepView::RemoveHiddenService(id),
            StepView::RemoveDir(PERSISTENCE_DIR@ + "/apps/"@ + id),
        ] + own_mounts(db, shares, id, dependencies, dependencies.len() as int) + (if exposes(
            shares,
            id,
        ) {
            foreign_mounts(id, dependents, dependents.len() as int)
        } else {
            Seq::empty()
        }) + seq![StepView::RemoveDir(VOLUMES@ + seq!['/'] + id), StepView::PruneImages]
    } else {
        teardown
    }
}

/// The dependents, from place `from` on, marked as broken because `id` is
/// not installed.
pub open spec fn orphaned(id: Seq<char>, dependents: Seq<Seq<char>>, marks: Breakages, from: int)
    -> Breakages
    decreases dependents.len() - from,
{
    if from < 0 || from >= dependents.len() {
        marks
    } else {
        orphaned(
            id,
            dependents,
            marked(marks, dependents[from], id, DependencyErrorView::NotInstalled),
            from + 1,
        )
    }
}

/// Marking the dependents as orphaned keeps every mark.
pub proof fn orphaning_keeps_marks(
    id: Seq<char>,
    dependents: Seq<Seq<char>>,
    marks: Breakages,
    from: int,
    other: Seq<char>,
)
    requires
        0 <= from,
        has_key(marks, other),
    ensures
        has_key(orphaned(id, dependents, marks, from), other),
    decreases dependents.len() - from,
{
    if from < dependents.len() {
        marking_keeps_marks(marks, dependents[from], id, DependencyErrorView::NotInstalled, other);
        orphaning_keeps_marks(
            id,
            dependents,
            marked(marks, dependents[from], id, DependencyErrorView::NotInstalled),
            from + 1,
            other,
        );
    }
}

/// Marking the dependents as orphaned marks each of them.
pub proof fn orphans_are_marked(
    id: Seq<char>,
    dependents: Seq<Seq<char>>,
    marks: Breakages,
    from: int,
    d: int,
)
    requires
        0 <= from <= d < dependents.len(),
    ensures
        has_key(orphaned(id, dependents, marks, from), dependents[d]),
    decreases d - from,
{
    let next = marked(marks, dependents[from], id, DependencyErrorView::NotInstalled);
    if from == d {
        marking_keeps_marks(marks, dependents[from], id, DependencyErrorView::NotInstalled, id);
        orphaning_keeps_marks(id, dependents, next, from + 1, dependents[d]);
    } else {
        orphans_are_marked(id, dependents, next, from + 1, d);
    }
}

/// What removing a package comes to.
#[derive(Debug)]
pub struct Removal {
    /// The packages that break: those that depend on the removed one,
    /// directly or through others.
    pub breakages: OrderedMap<Breakage>,
    /// What is asked of the host; nothing in a dry run.
    pub steps: Vec<RemoveStep>,
}

fn unmount(owner: &str, other: &str, steps: &mut Vec<RemoveStep>)
    ensures
        steps_of(final(steps)@) == steps_of(old(steps)@) + mounts_of(owner@, other@),
{
    proof {
        reveal_strlit("/");
    }
    let mut public = VOLUMES.to_owned();
    public.append("/");
    public.append(owner);
    public.append("/start9/public/");
    public.append(other);
    let mut shared = VOLUMES.to_owned();
    shared.append("/");
    shared.append(owner);
    shared.append("/start9/shared/");
    shared.append(other);
    assert(public@ =~= VOLUMES@ + seq!['/'] + owner@ + "/start9/public/"@ + other@);
    assert(shared@ =~= VOLUMES@ + seq!['/'] + owner@ + "/start9/shared/"@ + other@);
    steps.push(RemoveStep::Unmount(public));
    steps.push(RemoveStep::Unmount(shared));
    assert(steps_of(steps@) =~= steps_of(old(steps)@) + mounts_of(owner@, other@));
}

/// Removes package `id`. The packages that depend on it break: its
/// dependents because it is no longer installed, and those that depend on
/// them, directly or through others, because their dependency does not run.
/// A dry run stops there and changes nothing. Otherwise the package is taken
/// out of the record, no package names it as a dependent any longer, and the
/// steps that remove it from the host are handed back; `shares` says which
/// directories the packages share. Fails, with kind `NotFound` and nothing
/// changed, exactly when the package is not installed.
pub fn remove(
    db: &mut AllPackageData,
    id: &PackageId,
    purge: bool,
    dry_run: bool,
    shares: &OrderedMap<Shares>,
) -> (r: Result<Removal, Error>)
    ensures
        r is Ok <==> installed_at(old(db).0@, id@) is Some,
        r matches Err(e) ==> e.kind == ErrorKind::NotFound && *final(db) == *old(db),
        r matches Ok(removal) ==> {
            let installed = installed_at(old(db).0@, id@)->0;
            &&& breakages_view(removal.breakages@) == mark_rounds(
                old(db).0@,
                orphaned(id@, names_in(installed.dependents@), Seq::empty(), 0),
                old(db).0@.len(),
            )
            &&& complete(old(db).0@, breakages_view(removal.breakages@))
            &&& forall|d: int|
                0 <= d < installed.dependents@.len() ==> has_key(
                    removal.breakages@,
                    #[trigger] names_in(installed.dependents@)[d],
                )
            &&& dry_run ==> *final(db) == *old(db) && removal.steps@.len() == 0
            &&& !dry_run ==> links_cut(without(old(db).0@, id@), final(db).0@, id@) && steps_of(
                removal.steps@,
            ) == removal_steps(
                old(db).0@,
                shares@,
                id@,
                installed.manifest.version,
                purge,
                names_in(installed.manifest.dependencies.0@),
                names_in(installed.dependents@),
            )
        },
        linked(old(db).0@) ==> linked(final(db).0@),
        acyclic(old(db).0@) ==> acyclic(final(db).0@),
{
    let mut breakages: OrderedMap<Breakage> = OrderedMap::new();
    let mut steps: Vec<RemoveStep> = Vec::new();
    {
        let installed = match db.installed(id.as_str()) {
            Some(i) => i,
            None => {
                return Err(Error::of(ErrorKind::NotFound, "Package Is Not Installed"));
            },
        };
        let ghost names = names_in(installed.dependents@);
        let mut d: usize = 0;
        assert(breakages_view(breakages@) =~= Seq::empty());
        while d < installed.dependents.len()
            invariant
                d <= installed.dependents@.len(),
                names == names_in(installed.dependents@),
                orphaned(id@, names, Seq::empty(), 0) == orphaned(
                    id@,
                    names,
                    breakages_view(breakages@),
                    d as int,
                ),
            decreases installed.dependents@.len() - d,
        {
            let dependent = installed.dependents.key_at(d);
            proof {
                position_by_keys(breakages@, breakages_view(breakages@), dependent@);
            }
            if !breakages.contains_key(dependent) {
                let ghost before = breakages@;
                breakages.insert(
                    dependent.to_owned(),
                    Breakage {
                        dependency: id.as_str().to_owned(),
                        error: DependencyError::NotInstalled,
                    },
                );
                assert(breakages_view(breakages@) =~= breakages_view(before).push(
                    (dependent@, (id@, DependencyErrorView::NotInstalled)),
                ));
            }
            d = d + 1;
        }
        proof {
            let orphans = breakages_view(breakages@);
            assert forall|k: int| 0 <= k < names.len() implies has_key(
                mark_rounds(db.0@, orphans, db.0@.len()),
                #[trigger] names[k],
            ) by {
                orphans_are_marked(id@, names, Seq::empty(), 0, k);
                rounds_keep_marks(db.0@, orphans, db.0@.len(), names[k]);
            }
        }
        cascade(db, &mut breakages);
        proof {
            assert forall|k: int| 0 <= k < names.len() implies has_key(
                breakages@,
                #[trigger] names[k],
            ) by {
                position_by_keys(breakages@, breakages_view(breakages@), names[k]);
            }
        }
        if dry_run {
            return Ok(Removal { breakages, steps });
        }
        let container = DockerAction::container_name(id, &installed.manifest.version);
        steps.push(RemoveStep::StopContainer(container.clone()));
        steps.push(RemoveStep::RemoveContainer(container));
        let mut image = "start9/".to_owned();
        image.append(id.as_str());
        steps.push(RemoveStep::RemoveImage(image));
        let ghost teardown = steps_of(steps@);
        assert(teardown =~= seq![
            StepView::StopContainer(container_name_text(id@, installed.manifest.version)),
            StepView::RemoveContainer(container_name_text(id@, installed.manifest.version)),
            StepView::RemoveImage("start9/"@ + id@),
        ]);
        if purge {
            steps.push(RemoveStep::RemoveHiddenService(id.as_str().to_owned()));
            let mut state = PERSISTENCE_DIR.to_owned();
            state.append("/apps/");
            state.append(id.as_str());
            steps.push(RemoveStep::RemoveDir(state));
            let ghost head = steps_of(steps@);
            assert(head =~= teardown + seq![
                StepView::RemoveHiddenService(id@),
                StepView::RemoveDir(PERSISTENCE_DIR@ + "/apps/"@ + id@),
            ]);
            let ghost dependencies = names_in(installed.manifest.dependencies.0@);
            let mut i: usize = 0;
            assert(steps_of(steps@) =~= head + own_mounts(db.0@, shares@, id@, dependencies, 0));
            while i < installed.manifest.dependencies.0.len()
                invariant
                    i <= installed.manifest.dependencies.0@.len(),
                    dependencies == names_in(installed.manifest.dependencies.0@),
                    steps_of(steps@) == head + own_mounts(
                        db.0@,
                        shares@,
                        id@,
                        dependencies,
                        i as int,
                    ),
                decreases installed.manifest.dependencies.0@.len() - i,
            {
                let dependency = installed.manifest.dependencies.0.key_at(i);
                let ghost so_far = steps_of(steps@);
                unmount(id.as_str(), dependency, &mut steps);
                let ghost unmounted = steps_of(steps@);
                if db.installed(dependency).is_some() {
                    match shares.get(dependency) {
                        Some(share) => match &share.shared {
                            Some(dir) => {
                                let base = join(VOLUMES, dependency);
                                let inside = join(base.as_str(), dir.as_str());
                                steps.push(RemoveStep::RemoveDir(join(inside.as_str(), id.as_str())));
                            },
                            None => {},
                        },
                        None => {},
                    }
                }
                assert(steps_of(steps@) =~= unmounted + shared_inside(
                    db.0@,
                    shares@,
                    id@,
                    dependency@,
                ));
                assert(steps_of(steps@) =~= head + own_mounts(
                    db.0@,
                    shares@,
                    id@,
                    dependencies,
                    i as int + 1,
                ));
                i = i + 1;
            }
            let ghost middle = steps_of(steps@);
            let exposed = match shares.get(id.as_str()) {
                Some(share) => share.public.is_some() || share.shared.is_some(),
                None => false,
            };
            if exposed {
                let mut j: usize = 0;
                assert(steps_of(steps@) =~= middle + foreign_mounts(id@, names, 0));
                while j < installed.dependents.len()
                    invariant
                        j <= installed.dependents@.len(),
                        names == names_in(installed.dependents@),
                        steps_of(steps@) == middle + foreign_mounts(id@, names, j as int),
                    decreases installed.dependents@.len() - j,
                {
                    unmount(installed.dependents.key_at(j), id.as_str(), &mut steps);
                    assert(steps_of(steps@) =~= middle + foreign_mounts(id@, names, j as int + 1));
                    j = j + 1;
                }
            } else {
                assert(steps_of(steps@) =~= middle + Seq::empty());
            }
            let ghost mounts = steps_of(steps@);
            let mut volumes = VOLUMES.to_owned();
            proof {
                reveal_strlit("/");
            }
            volumes.append("/");
            volumes.append(id.as_str());
            assert(volumes@ =~= VOLUMES@ + seq!['/'] + id@);
            steps.push(RemoveStep::RemoveDir(volumes));
            steps.push(RemoveStep::PruneImages);
            assert(steps_of(steps@) =~= mounts + seq![
                StepView::RemoveDir(VOLUMES@ + seq!['/'] + id@),
                StepView::PruneImages,
            ]);
        }
    }
    db.0.keys_are_distinct();
    proof {
        without_keeps_others(db.0@, id@, id@);
        if linked(db.0@) {
            taking_out_keeps_links(db.0@, id@);
        }
    }
    db.0.remove(id.as_str());
    let ghost taken = db.0@;
    unlink(db, id.as_str());
    proof {
        if acyclic(old(db).0@) {
            assert forall|name: Seq<char>| name != id@ implies lookup(taken, name) == lookup(
                old(db).0@,
                name,
            ) by {
                without_keeps_others(old(db).0@, id@, name);
            }
            uninstalling_keeps_acyclic(old(db).0@, taken, id@);
            same_manifests_stay_acyclic(taken, db.0@);
        }
    }
    Ok(Removal { breakages, steps })
}

} // verus!
