//! The links between the packages: who depends on whom. The record keeps
//! them both ways: every manifest declares its dependencies, and every
//! installed package names its dependents. Installing and removing a
//! package keep the two in step.

use vstd::prelude::*;
use crate::config::spec::PackagePointerSpecVariant;
use crate::db::{
    installed_at, installed_of, AllPackageData, InstalledPackageDataEntry, PackageDataEntry,
};
use crate::id::PackageId;
use crate::ordered_map::{
    has_key, keys_distinct, lookup, position, position_by_keys, position_finds, upsert,
    upsert_keeps_others, without, without_keeps_others, OrderedMap,
};

verus! {

/// The dependents of a package as plain values: each with the pointers by
/// which it looks into the package.
pub open spec fn links_of(dependents: Seq<(Seq<char>, Vec<PackagePointerSpecVariant>)>) -> Seq<
    (Seq<char>, Seq<PackagePointerSpecVariant>),
> {
    Seq::new(dependents.len(), |i: int| (dependents[i].0, dependents[i].1@))
}

/// Are the links in step: of two installed packages, does the one name
/// the other among its dependents exactly if the other declares it as a
/// dependency?
pub open spec fn linked(db: Seq<(Seq<char>, PackageDataEntry)>) -> bool {
    forall|a: int, b: int|
        0 <= a < db.len() && 0 <= b < db.len() && installed_of((#[trigger] db[a]).1) is Some
            && installed_of((#[trigger] db[b]).1) is Some ==> (has_key(
            installed_of(db[b].1)->0.dependents@,
            db[a].0,
        ) <==> has_key(installed_of(db[a].1)->0.manifest.dependencies.0@, db[b].0))
}

/// Are the links in step between all packages but `id`?
pub open spec fn linked_but(db: Seq<(Seq<char>, PackageDataEntry)>, id: Seq<char>) -> bool {
    forall|a: int, b: int|
        0 <= a < db.len() && 0 <= b < db.len() && installed_of((#[trigger] db[a]).1) is Some
            && installed_of((#[trigger] db[b]).1) is Some && db[a].0 != id && db[b].0 != id ==> (
        has_key(installed_of(db[b].1)->0.dependents@, db[a].0) <==> has_key(
            installed_of(db[a].1)->0.manifest.dependencies.0@,
            db[b].0,
        ))
}

/// Does `after` hold the links that `before` holds: is it about an
/// installed package exactly if `before` is, with the same manifest and the
/// same dependents?
pub open spec fn same_links_entry(before: PackageDataEntry, after: PackageDataEntry) -> bool {
    match installed_of(before) {
        Some(b) => installed_of(after) matches Some(a) && a.manifest == b.manifest && a.dependents
            == b.dependents,
        None => installed_of(after) is None,
    }
}

/// Does the record `after` hold the packages of `before`, each with the
/// links it had?
pub open spec fn same_links(
    before: Seq<(Seq<char>, PackageDataEntry)>,
    after: Seq<(Seq<char>, PackageDataEntry)>,
) -> bool {
    &&& after.len() == before.len()
    &&& forall|i: int|
        0 <= i < before.len() ==> (#[trigger] after[i]).0 == before[i].0 && same_links_entry(
            before[i].1,
            after[i].1,
        )
}

/// A record that holds the links of one whose links are in step has its
/// links in step: what changes the status of packages alone leaves the links
/// as they are.
pub proof fn same_links_stay_linked(
    before: Seq<(Seq<char>, PackageDataEntry)>,
    after: Seq<(Seq<char>, PackageDataEntry)>,
)
    requires
        same_links(before, after),
        linked(before),
    ensures
        linked(after),
{
    assert forall|a: int, b: int|
        0 <= a < after.len() && 0 <= b < after.len() && installed_of((#[trigger] after[a]).1) is Some
            && installed_of((#[trigger] after[b]).1) is Some implies (has_key(
        installed_of(after[b].1)->0.dependents@,
        after[a].0,
    ) <==> has_key(installed_of(after[a].1)->0.manifest.dependencies.0@, after[b].0)) by {
        assert(after[a].0 == before[a].0 && after[b].0 == before[b].0);
        assert(same_links_entry(before[a].1, after[a].1));
        assert(same_links_entry(before[b].1, after[b].1));
    }
}

/// Holding the same links carries over from record to record.
pub proof fn same_links_carry(
    first: Seq<(Seq<char>, PackageDataEntry)>,
    second: Seq<(Seq<char>, PackageDataEntry)>,
    third: Seq<(Seq<char>, PackageDataEntry)>,
)
    requires
        same_links(first, second),
        same_links(second, third),
    ensures
        same_links(first, third),
{
    assert forall|i: int| 0 <= i < first.len() implies (#[trigger] third[i]).0 == first[i].0
        && same_links_entry(first[i].1, third[i].1) by {
        assert(second[i].0 == first[i].0);
        assert(same_links_entry(first[i].1, second[i].1));
        assert(same_links_entry(second[i].1, third[i].1));
    }
}

/// The entry with `dependents` in place of the dependents of its
/// installed package; the entry itself where it has none.
pub open spec fn with_dependents(
    entry: PackageDataEntry,
    dependents: OrderedMap<Vec<PackagePointerSpecVariant>>,
) -> PackageDataEntry {
    match entry {
        PackageDataEntry::Updating { static_files, installed, install_progress } =>
            PackageDataEntry::Updating {
            static_files,
            installed: InstalledPackageDataEntry { dependents, ..installed },
            install_progress,
        },
        PackageDataEntry::Removing { static_files, installed } => PackageDataEntry::Removing {
            static_files,
            installed: InstalledPackageDataEntry { dependents, ..installed },
        },
        PackageDataEntry::Installed { static_files, installed } => PackageDataEntry::Installed {
            static_files,
            installed: InstalledPackageDataEntry { dependents, ..installed },
        },
        other => other,
    }
}

/// Is `after` the entry `before` with `links` as the dependents of its
/// installed package, and nothing else changed? An entry without installed
/// package has to stay as it is.
pub open spec fn relinked(
    before: PackageDataEntry,
    after: PackageDataEntry,
    links: Seq<(Seq<char>, Seq<PackagePointerSpecVariant>)>,
) -> bool {
    match installed_of(before) {
        None => after == before,
        Some(_) => {
            &&& installed_of(after) is Some
            &&& after == with_dependents(before, installed_of(after)->0.dependents)
            &&& links_of(installed_of(after)->0.dependents@) == links
        },
    }
}

/// The pointers that are known, or none.
pub open spec fn pointers_for(known: Option<Seq<PackagePointerSpecVariant>>) -> Seq<
    PackagePointerSpecVariant,
> {
    match known {
        Some(p) => p,
        None => Seq::empty(),
    }
}

/// Does the `i`-th package of the record declare `id` as a dependency?
pub open spec fn declares(db: Seq<(Seq<char>, PackageDataEntry)>, i: int, id: Seq<char>) -> bool {
    installed_of(db[i].1) matches Some(installed) && has_key(
        installed.manifest.dependencies.0@,
        id,
    )
}

/// The dependents of `id` among the first `upto` packages of the record,
/// in their order, each with the pointers that `known` holds for it.
pub open spec fn dependents_among(
    db: Seq<(Seq<char>, PackageDataEntry)>,
    id: Seq<char>,
    known: Seq<(Seq<char>, Seq<PackagePointerSpecVariant>)>,
    upto: int,
) -> Seq<(Seq<char>, Seq<PackagePointerSpecVariant>)>
    decreases upto,
{
    if upto <= 0 {
        Seq::empty()
    } else if declares(db, upto - 1, id) {
        dependents_among(db, id, known, upto - 1).push(
            (db[upto - 1].0, pointers_for(lookup(known, db[upto - 1].0))),
        )
    } else {
        dependents_among(db, id, known, upto - 1)
    }
}

/// What a package other than `id` names as its dependents once `id` is
/// linked: `id` with its pointers where `id` declares the package as a
/// dependency, and otherwise not `id`; the others as before.
pub open spec fn links_to(
    links: Seq<(Seq<char>, Seq<PackagePointerSpecVariant>)>,
    declared: bool,
    id: Seq<char>,
    pointers: Option<Seq<PackagePointerSpecVariant>>,
) -> Seq<(Seq<char>, Seq<PackagePointerSpecVariant>)> {
    if declared {
        upsert(links, id, pointers_for(pointers))
    } else {
        without(links, id)
    }
}

/// Is `after` the record `before` with package `id` linked: every other
/// installed package names `id` among its dependents exactly if `id`
/// declares it, with the pointers that `pointers` holds for it; `id` itself
/// names as its dependents the packages that declare it, each with the
/// pointers it had for it before; and nothing else is changed?
pub open spec fn links_made(
    before: Seq<(Seq<char>, PackageDataEntry)>,
    after: Seq<(Seq<char>, PackageDataEntry)>,
    id: Seq<char>,
    pointers: Seq<(Seq<char>, Seq<PackagePointerSpecVariant>)>,
) -> bool {
    &&& after.len() == before.len()
    &&& forall|i: int|
        0 <= i < before.len() && installed_of((#[trigger] after[i]).1) is Some && before[i].0 != id
            ==> (has_key(installed_of(after[i].1)->0.dependents@, id) <==> has_key(
            installed_at(before, id)->0.manifest.dependencies.0@,
            before[i].0,
        ))
    &&& forall|i: int|
        0 <= i < before.len() ==> (#[trigger] after[i]).0 == before[i].0 && relinked(
            before[i].1,
            after[i].1,
            match installed_of(before[i].1) {
                Some(installed) => if before[i].0 == id {
                    dependents_among(
                        before,
                        id,
                        links_of(installed.dependents@),
                        before.len() as int,
                    )
                } else {
                    links_to(
                        links_of(installed.dependents@),
                        has_key(installed_at(before, id)->0.manifest.dependencies.0@, before[i].0),
                        id,
                        lookup(pointers, before[i].0),
                    )
                },
                None => Seq::empty(),
            },
        )
}

/// Is `after` the record `before` with `id` taken out of the dependents of
/// every package, and nothing else changed?
pub open spec fn links_cut(
    before: Seq<(Seq<char>, PackageDataEntry)>,
    after: Seq<(Seq<char>, PackageDataEntry)>,
    id: Seq<char>,
) -> bool {
    &&& after.len() == before.len()
    &&& forall|i: int|
        0 <= i < before.len() ==> (#[trigger] after[i]).0 == before[i].0 && relinked(
            before[i].1,
            after[i].1,
            match installed_of(before[i].1) {
                Some(installed) => without(links_of(installed.dependents@), id),
                None => Seq::empty(),
            },
        )
}

/// Which names the dependents hold is seen in their plain values too.
pub proof fn links_keys(dependents: Seq<(Seq<char>, Vec<PackagePointerSpecVariant>)>, key: Seq<char>)
    ensures
        has_key(links_of(dependents), key) == has_key(dependents, key),
        position(links_of(dependents), key) == position(dependents, key),
        lookup(links_of(dependents), key) == match lookup(dependents, key) {
            Some(p) => Some(p@),
            None => None,
        },
        keys_distinct(dependents) == keys_distinct(links_of(dependents)),
{
    position_by_keys(dependents, links_of(dependents), key);
    position_finds(dependents, key);
    let links = links_of(dependents);
    if keys_distinct(dependents) {
        assert forall|i: int, j: int| 0 <= i < j < links.len() implies (#[trigger] links[i]).0 != (
        #[trigger] links[j]).0 by {
            assert(dependents[i].0 != dependents[j].0);
        }
    }
    if keys_distinct(links) {
        assert forall|i: int, j: int| 0 <= i < j < dependents.len() implies (
        #[trigger] dependents[i]).0 != (#[trigger] dependents[j]).0 by {
            assert(links[i].0 != links[j].0);
        }
    }
}

/// The dependents of `id` among the packages are exactly those that
/// declare it.
pub proof fn dependents_among_are_declaring(
    db: Seq<(Seq<char>, PackageDataEntry)>,
    id: Seq<char>,
    known: Seq<(Seq<char>, Seq<PackagePointerSpecVariant>)>,
    upto: int,
    name: Seq<char>,
)
    requires
        0 <= upto <= db.len(),
    ensures
        has_key(dependents_among(db, id, known, upto), name) <==> exists|i: int|
            0 <= i < upto && (#[trigger] db[i]).0 == name && declares(db, i, id),
    decreases upto,
{
    let found = dependents_among(db, id, known, upto);
    if upto > 0 {
        let rest = dependents_among(db, id, known, upto - 1);
        dependents_among_are_declaring(db, id, known, upto - 1, name);
        if has_key(found, name) {
            let k = choose|k: int| 0 <= k < found.len() && (#[trigger] found[k]).0 == name;
            if k < rest.len() {
                assert(rest[k].0 == name);
                assert(has_key(rest, name));
            } else {
                assert(db[upto - 1].0 == name && declares(db, upto - 1, id));
            }
        }
        if exists|i: int| 0 <= i < upto && (#[trigger] db[i]).0 == name && declares(db, i, id) {
            let i = choose|i: int| 0 <= i < upto && (#[trigger] db[i]).0 == name && declares(db, i, id);
            if i < upto - 1 {
                assert(has_key(rest, name));
                let k = choose|k: int| 0 <= k < rest.len() && (#[trigger] rest[k]).0 == name;
                assert(found[k].0 == name);
            } else {
                assert(found[found.len() - 1].0 == name);
            }
        }
    }
}

/// Linking a package puts the links in step, where they were in step
/// between all the others.
pub proof fn linking_links(
    before: Seq<(Seq<char>, PackageDataEntry)>,
    after: Seq<(Seq<char>, PackageDataEntry)>,
    id: Seq<char>,
    pointers: Seq<(Seq<char>, Seq<PackagePointerSpecVariant>)>,
)
    requires
        keys_distinct(before),
        installed_at(before, id) is Some,
        links_made(before, after, id, pointers),
        linked_but(before, id),
    ensures
        linked(after),
{
    position_finds(before, id);
    let n = position(before, id);
    let new = installed_at(before, id)->0;
    assert forall|a: int, b: int|
        0 <= a < after.len() && 0 <= b < after.len() && installed_of((#[trigger] after[a]).1) is Some
            && installed_of((#[trigger] after[b]).1) is Some implies (has_key(
        installed_of(after[b].1)->0.dependents@,
        after[a].0,
    ) <==> has_key(installed_of(after[a].1)->0.manifest.dependencies.0@, after[b].0)) by {
        let name_a = before[a].0;
        let name_b = before[b].0;
        assert(after[a].0 == name_a && after[b].0 == name_b);
        let old_a = installed_of(before[a].1)->0;
        let old_b = installed_of(before[b].1)->0;
        let new_b = installed_of(after[b].1)->0;
        assert(installed_of(before[a].1) is Some);
        assert(installed_of(before[b].1) is Some);
        assert(installed_of(after[a].1)->0.manifest == old_a.manifest);
        links_keys(new_b.dependents@, name_a);
        links_keys(old_b.dependents@, name_a);
        links_keys(old_b.dependents@, id);
        if b == n {
            dependents_among_are_declaring(
                before,
                id,
                links_of(old_b.dependents@),
                before.len() as int,
                name_a,
            );
            if declares(before, a, id) {
                assert(before[a].0 == name_a);
            }
            if has_key(links_of(new_b.dependents@), name_a) {
                let i = choose|i: int|
                    0 <= i < before.len() && (#[trigger] before[i]).0 == name_a && declares(
                        before,
                        i,
                        id,
                    );
                if i != a {
                    if i < a {
                        assert(before[i].0 != before[a].0);
                    } else {
                        assert(before[a].0 != before[i].0);
                    }
                }
            }
        } else {
            assert(name_b != id) by {
                if b < n {
                    assert(before[b].0 != before[n].0);
                } else {
                    assert(before[n].0 != before[b].0);
                }
            }
            let declared = has_key(new.manifest.dependencies.0@, name_b);
            let old_links = links_of(old_b.dependents@);
            if declared {
                upsert_keeps_others(old_links, id, pointers_for(lookup(pointers, name_b)), name_a);
            } else {
                without_keeps_others(old_links, id, name_a);
            }
            if a == n {
                assert(name_a == id);
                assert(installed_at(before, id) == Some(old_a));
            } else {
                assert(name_a != id) by {
                    if a < n {
                        assert(before[a].0 != before[n].0);
                    } else {
                        assert(before[n].0 != before[a].0);
                    }
                }
            }
        }
    }
}

/// Cutting the links to a package that is not in the record leaves the
/// links in step.
pub proof fn cutting_keeps_links(
    before: Seq<(Seq<char>, PackageDataEntry)>,
    after: Seq<(Seq<char>, PackageDataEntry)>,
    id: Seq<char>,
)
    requires
        !has_key(before, id),
        links_cut(before, after, id),
        linked(before),
    ensures
        linked(after),
{
    assert forall|a: int, b: int|
        0 <= a < after.len() && 0 <= b < after.len() && installed_of((#[trigger] after[a]).1) is Some
            && installed_of((#[trigger] after[b]).1) is Some implies (has_key(
        installed_of(after[b].1)->0.dependents@,
        after[a].0,
    ) <==> has_key(installed_of(after[a].1)->0.manifest.dependencies.0@, after[b].0)) by {
        let name_a = before[a].0;
        assert(after[a].0 == name_a && after[b].0 == before[b].0);
        assert(installed_of(before[a].1) is Some);
        assert(installed_of(before[b].1) is Some);
        let old_a = installed_of(before[a].1)->0;
        let old_b = installed_of(before[b].1)->0;
        let new_b = installed_of(after[b].1)->0;
        assert(installed_of(after[a].1)->0.manifest == old_a.manifest);
        assert(name_a != id);
        links_keys(new_b.dependents@, name_a);
        links_keys(old_b.dependents@, name_a);
        without_keeps_others(links_of(old_b.dependents@), id, name_a);
    }
}

/// Taking a package out of a record whose links are in step leaves them
/// in step.
pub proof fn taking_out_keeps_links(db: Seq<(Seq<char>, PackageDataEntry)>, id: Seq<char>)
    requires
        linked(db),
    ensures
        linked(without(db, id)),
{
    let rest = without(db, id);
    position_finds(db, id);
    let n = position(db, id);
    assert forall|a: int, b: int|
        0 <= a < rest.len() && 0 <= b < rest.len() && installed_of((#[trigger] rest[a]).1) is Some
            && installed_of((#[trigger] rest[b]).1) is Some implies (has_key(
        installed_of(rest[b].1)->0.dependents@,
        rest[a].0,
    ) <==> has_key(installed_of(rest[a].1)->0.manifest.dependencies.0@, rest[b].0)) by {
        if has_key(db, id) {
            let a0 = if a < n {
                a
            } else {
                a + 1
            };
            let b0 = if b < n {
                b
            } else {
                b + 1
            };
            assert(rest[a] == db[a0]);
            assert(rest[b] == db[b0]);
        }
    }
}

/// Putting an entry in place of that of `id`, or adding it, leaves the
/// links between all packages but `id` in step.
pub proof fn entering_keeps_other_links(
    db: Seq<(Seq<char>, PackageDataEntry)>,
    id: Seq<char>,
    entry: PackageDataEntry,
)
    requires
        linked(db),
    ensures
        linked_but(upsert(db, id, entry), id),
{
    let after = upsert(db, id, entry);
    position_finds(db, id);
    assert forall|a: int, b: int|
        0 <= a < after.len() && 0 <= b < after.len() && installed_of((#[trigger] after[a]).1) is Some
            && installed_of((#[trigger] after[b]).1) is Some && after[a].0 != id && after[b].0
            != id implies (has_key(installed_of(after[b].1)->0.dependents@, after[a].0) <==> has_key(
        installed_of(after[a].1)->0.manifest.dependencies.0@,
        after[b].0,
    )) by {
        assert(after[a] == db[a]);
        assert(after[b] == db[b]);
    }
}

/// Putting an entry without installed package in place of one leaves the
/// links in step.
pub proof fn uninstalled_keeps_links(
    db: Seq<(Seq<char>, PackageDataEntry)>,
    id: Seq<char>,
    entry: PackageDataEntry,
)
    requires
        linked(db),
        installed_of(entry) is None,
    ensures
        linked(upsert(db, id, entry)),
{
    let after = upsert(db, id, entry);
    position_finds(db, id);
    assert forall|a: int, b: int|
        0 <= a < after.len() && 0 <= b < after.len() && installed_of((#[trigger] after[a]).1) is Some
            && installed_of((#[trigger] after[b]).1) is Some implies (has_key(
        installed_of(after[b].1)->0.dependents@,
        after[a].0,
    ) <==> has_key(installed_of(after[a].1)->0.manifest.dependencies.0@, after[b].0)) by {
        assert(after[a] == db[a]);
        assert(after[b] == db[b]);
    }
}

impl PackageDataEntry {
    /// Puts `dependents` in place of the dependents of the installed
    /// package, and hands back the entry and the dependents it had. An entry
    /// without installed package stays as it is; `dependents` is then handed
    /// back.
    pub fn replace_dependents(self, dependents: OrderedMap<Vec<PackagePointerSpecVariant>>) -> (r: (
        PackageDataEntry,
        OrderedMap<Vec<PackagePointerSpecVariant>>,
    ))
        ensures
            r.0 == with_dependents(self, dependents),
            r.1 == match installed_of(self) {
                Some(i) => i.dependents,
                None => dependents,
            },
    {
        match self {
            PackageDataEntry::Updating { static_files, installed, install_progress } => {
                let (installed, previous) = installed.replace_dependents(dependents);
                (PackageDataEntry::Updating { static_files, installed, install_progress }, previous)
            },
            PackageDataEntry::Removing { static_files, installed } => {
                let (installed, previous) = installed.replace_dependents(dependents);
                (PackageDataEntry::Removing { static_files, installed }, previous)
            },
            PackageDataEntry::Installed { static_files, installed } => {
                let (installed, previous) = installed.replace_dependents(dependents);
                (PackageDataEntry::Installed { static_files, installed }, previous)
            },
            other => (other, dependents),
        }
    }
}

impl InstalledPackageDataEntry {
    /// Puts `dependents` in place of the dependents of the package, and
    /// hands back the package and the dependents it had.
    pub fn replace_dependents(self, dependents: OrderedMap<Vec<PackagePointerSpecVariant>>) -> (r: (
        InstalledPackageDataEntry,
        OrderedMap<Vec<PackagePointerSpecVariant>>,
    ))
        ensures
            r.0 == (InstalledPackageDataEntry { dependents, ..self }),
            r.1 == self.dependents,
    {
        let InstalledPackageDataEntry {
            manifest,
            status,
            system_pointers,
            dependents: previous,
            required_dependencies,
            interface_info,
        } = self;
        (
            InstalledPackageDataEntry {
                manifest,
                status,
                system_pointers,
                dependents,
                required_dependencies,
                interface_info,
            },
            previous,
        )
    }
}

impl AllPackageData {
    /// Puts `dependents` in place of the dependents of the `i`-th package,
    /// and hands back the dependents it had; for a package that is not
    /// installed nothing changes and `dependents` is handed back.
    pub fn replace_dependents(
        &mut self,
        i: usize,
        dependents: OrderedMap<Vec<PackagePointerSpecVariant>>,
    ) -> (previous: OrderedMap<Vec<PackagePointerSpecVariant>>)
        requires
            i < old(self).0@.len(),
        ensures
            final(self).0@ == old(self).0@.update(
                i as int,
                (old(self).0@[i as int].0, with_dependents(old(self).0@[i as int].1, dependents)),
            ),
            previous == match installed_of(old(self).0@[i as int].1) {
                Some(installed) => installed.dependents,
                None => dependents,
            },
    {
        let entry = self.0.replace_value_at(i, PackageDataEntry::InstallFailed);
        let (entry, previous) = entry.replace_dependents(dependents);
        self.0.set_value_at(i, entry);
        assert(self.0@ =~= old(self).0@.update(
            i as int,
            (old(self).0@[i as int].0, with_dependents(old(self).0@[i as int].1, dependents)),
        ));
        previous
    }
}

/// Takes the pointers that `known` holds for `name` out of it; none where
/// it holds none.
fn take_pointers(known: &mut OrderedMap<Vec<PackagePointerSpecVariant>>, name: &str) -> (p: Vec<
    PackagePointerSpecVariant,
>)
    ensures
        p@ == pointers_for(lookup(links_of(old(known)@), name@)),
        final(known)@ == without(old(known)@, name@),
{
    proof {
        links_keys(known@, name@);
    }
    match known.remove(name) {
        Some(p) => p,
        None => Vec::new(),
    }
}

/// Takes `id` out of the dependents of every package. Where the links
/// were in step and `id` is not in the record, they are in step after.
pub fn unlink(db: &mut AllPackageData, id: &str)
    ensures
        links_cut(old(db).0@, final(db).0@, id@),
        linked(old(db).0@) && !has_key(old(db).0@, id@) ==> linked(final(db).0@),
{
    let ghost before = db.0@;
    let n = db.0.len();
    let mut i: usize = 0;
    while i < n
        invariant
            i <= n,
            n == before.len(),
            db.0@.len() == before.len(),
            forall|j: int| 0 <= j < n ==> (#[trigger] db.0@[j]).0 == before[j].0,
            forall|j: int|
                0 <= j < i ==> relinked(
                    before[j].1,
                    (#[trigger] db.0@[j]).1,
                    match installed_of(before[j].1) {
                        Some(installed) => without(links_of(installed.dependents@), id@),
                        None => Seq::empty(),
                    },
                ),
            forall|j: int| i <= j < n ==> (#[trigger] db.0@[j]) == before[j],
        decreases n - i,
    {
        if db.0.value_at(i).installed().is_some() {
            let ghost entry = db.0@[i as int].1;
            let mut dependents = db.replace_dependents(i, OrderedMap::new());
            let ghost had = dependents@;
            dependents.remove(id);
            proof {
                links_keys(had, id@);
                position_finds(had, id@);
                assert(links_of(dependents@) =~= without(links_of(had), id@));
            }
            db.replace_dependents(i, dependents);
            assert(db.0@[i as int].1 == with_dependents(entry, dependents));
        }
        i = i + 1;
    }
    proof {
        if linked(before) && !has_key(before, id@) {
            cutting_keeps_links(before, db.0@, id@);
        }
    }
}

/// Links package `id`, which is installed, with the others: every other
/// installed package names `id` among its dependents exactly if `id` declares
/// it as a dependency, with the pointers that `pointers` holds for it; and
/// `id` names as its dependents the packages that declare it, each with the
/// pointers it had for it before. Where the links between the other packages
/// were in step, all links are in step after.
pub fn link(
    db: &mut AllPackageData,
    id: &PackageId,
    pointers: OrderedMap<Vec<PackagePointerSpecVariant>>,
)
    requires
        installed_at(old(db).0@, id@) is Some,
    ensures
        links_made(old(db).0@, final(db).0@, id@, links_of(pointers@)),
        linked_but(old(db).0@, id@) ==> linked(final(db).0@),
{
    let ghost before = db.0@;
    let ghost given = links_of(pointers@);
    let ghost new = installed_at(before, id@)->0;
    let mut pointers = pointers;
    proof {
        position_finds(before, id@);
    }
    db.0.keys_are_distinct();
    let at = match db.0.find(id.as_str()) {
        Some(at) => at,
        None => {
            return ;
        },
    };
    let mut known = db.replace_dependents(at, OrderedMap::new());
    let ghost had = links_of(known@);
    let mut found: OrderedMap<Vec<PackagePointerSpecVariant>> = OrderedMap::new();
    let n = db.0.len();
    let mut i: usize = 0;
    proof {
        assert(links_of(found@) =~= dependents_among(before, id@, had, 0));
        assert forall|j: int| 0 <= j < n implies lookup(links_of(known@), before[j].0) == lookup(
            had,
            before[j].0,
        ) by {}
    }
    while i < n
        invariant
            i <= n,
            at < n,
            n == before.len(),
            keys_distinct(before),
            before[at as int].0 == id@,
            installed_of(before[at as int].1) == Some(new),
            db.0@.len() == before.len(),
            forall|j: int| 0 <= j < n ==> (#[trigger] db.0@[j]).0 == before[j].0,
            forall|j: int|
                0 <= j < n && j != at ==> installed_of((#[trigger] db.0@[j]).1) is Some
                    == installed_of(before[j].1) is Some,
            forall|j: int|
                0 <= j < i && j != at ==> relinked(
                    before[j].1,
                    (#[trigger] db.0@[j]).1,
                    match installed_of(before[j].1) {
                        Some(installed) => links_to(
                            links_of(installed.dependents@),
                            has_key(new.manifest.dependencies.0@, before[j].0),
                            id@,
                            lookup(given, before[j].0),
                        ),
                        None => Seq::empty(),
                    },
                ),
            forall|j: int|
                0 <= j < i && j != at && installed_of((#[trigger] db.0@[j]).1) is Some ==> (has_key(
                    installed_of(db.0@[j].1)->0.dependents@,
                    id@,
                ) <==> has_key(new.manifest.dependencies.0@, before[j].0)),
            forall|j: int| i <= j < n && j != at ==> (#[trigger] db.0@[j]) == before[j],
            exists|empty: OrderedMap<Vec<PackagePointerSpecVariant>>|
                db.0@[at as int].1 == with_dependents(before[at as int].1, empty),
            links_of(found@) == dependents_among(before, id@, had, i as int),
            forall|j: int|
                i <= j < n ==> lookup(links_of(known@), (#[trigger] before[j]).0) == lookup(
                    had,
                    before[j].0,
                ),
            forall|j: int|
                i <= j < n ==> lookup(links_of(pointers@), (#[trigger] before[j]).0) == lookup(
                    given,
                    before[j].0,
                ),
        decreases n - i,
    {
        let ghost entry = db.0@[i as int].1;
        let ghost name = before[i as int].0;
        let declaring = match db.0.value_at(i).installed() {
            Some(installed) => installed.manifest.dependencies.0.contains_key(id.as_str()),
            None => false,
        };
        proof {
            assert(declaring == declares(before, i as int, id@)) by {
                if i != at {
                    assert(db.0@[i as int] == before[i as int]);
                }
            }
        }
        if declaring {
            let ghost so_far = links_of(found@);
            let ghost known_before = known@;
            let p = take_pointers(&mut known, db.0.key_at(i));
            proof {
                links_keys(found@, name);
                dependents_among_are_declaring(before, id@, had, i as int, name);
                if has_key(found@, name) {
                    let k = choose|k: int|
                        0 <= k < i && (#[trigger] before[k]).0 == name && declares(before, k, id@);
                    assert(before[k].0 != before[i as int].0);
                }
            }
            found.insert(db.0.key_at(i).to_owned(), p);
            proof {
                assert(links_of(found@) =~= so_far.push((name, p@)));
                assert forall|j: int| i < j < n implies lookup(
                    links_of(known@),
                    (#[trigger] before[j]).0,
                ) == lookup(had, before[j].0) by {
                    assert(before[i as int].0 != before[j].0);
                    links_keys(known@, before[j].0);
                    links_keys(known_before, before[j].0);
                    without_keeps_others(known_before, name, before[j].0);
                }
            }
        }
        if i != at && db.0.value_at(i).installed().is_some() {
            let declared = match db.0.value_at(at).installed() {
                Some(installed) => installed.manifest.dependencies.0.contains_key(db.0.key_at(i)),
                None => false,
            };
            let mut dependents = db.replace_dependents(i, OrderedMap::new());
            let ghost old_dependents = dependents@;
            let ghost pointers_before = pointers@;
            dependents.keys_are_distinct();
            proof {
                without_keeps_others(old_dependents, id@, id@);
            }
            if declared {
                let p = take_pointers(&mut pointers, db.0.key_at(i));
                proof {
                    links_keys(old_dependents, id@);
                    position_finds(old_dependents, id@);
                }
                let ghost taken = p;
                dependents.insert(id.as_str().to_owned(), p);
                proof {
                    upsert_keeps_others(old_dependents, id@, taken, id@);
                    assert(links_of(dependents@) =~= upsert(links_of(old_dependents), id@, taken@));
                    assert forall|j: int| i < j < n implies lookup(
                        links_of(pointers@),
                        (#[trigger] before[j]).0,
                    ) == lookup(given, before[j].0) by {
                        assert(before[i as int].0 != before[j].0);
                        links_keys(pointers@, before[j].0);
                        links_keys(pointers_before, before[j].0);
                        without_keeps_others(pointers_before, name, before[j].0);
                    }
                }
            } else {
                dependents.remove(id.as_str());
                proof {
                    links_keys(old_dependents, id@);
                    position_finds(old_dependents, id@);
                    assert(links_of(dependents@) =~= without(links_of(old_dependents), id@));
                }
            }
            db.replace_dependents(i, dependents);
            assert(db.0@[i as int].1 == with_dependents(entry, dependents));
        }
        i = i + 1;
    }
    db.replace_dependents(at, found);
    proof {
        assert(db.0@[at as int].1 == with_dependents(before[at as int].1, found));
        assert(links_made(before, db.0@, id@, given));
    }
    proof {
        if linked_but(before, id@) {
            linking_links(before, db.0@, id@, given);
        }
    }
}

} // verus!
