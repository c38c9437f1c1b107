//! The graph of dependencies: which package is reached from which along
//! the dependencies that installed packages declare. A package whose
//! dependencies lead back to it must not be installed: configuring it would
//! never come to an end.

use vstd::prelude::*;
use crate::db::{installed_at, installed_of, AllPackageData, PackageDataEntry};
use crate::dependencies::DepInfo;
use crate::error::{Error, ErrorKind};
use crate::id::PackageId;
use crate::ordered_map::{
    has_key, lookup, lookup_at, names_in, position, position_by_keys, position_finds, same_text,
    OrderedMap,
};
use crate::text::{contains_text, texts};

verus! {

/// Where one step leads from `name`: to the dependencies that the
/// installed package of that name declares. No step leads on from `id`.
pub open spec fn edges(db: Seq<(Seq<char>, PackageDataEntry)>, id: Seq<char>, name: Seq<char>)
    -> Seq<Seq<char>> {
    if name == id {
        Seq::empty()
    } else {
        match installed_at(db, name) {
            Some(installed) => names_in(installed.manifest.dependencies.0@),
            None => Seq::empty(),
        }
    }
}

/// Is `to` reached from `from` in at most `steps` steps, none of which
/// leads on from `id`?
pub open spec fn reaches_within(
    db: Seq<(Seq<char>, PackageDataEntry)>,
    id: Seq<char>,
    from: Seq<char>,
    to: Seq<char>,
    steps: nat,
) -> bool
    decreases steps,
{
    from == to || (steps > 0 && exists|k: int|
        0 <= k < edges(db, id, from).len() && reaches_within(
            db,
            id,
            #[trigger] edges(db, id, from)[k],
            to,
            (steps - 1) as nat,
        ))
}

/// Is `to` reached from `from`?
pub open spec fn reaches(
    db: Seq<(Seq<char>, PackageDataEntry)>,
    id: Seq<char>,
    from: Seq<char>,
    to: Seq<char>,
) -> bool {
    exists|steps: nat| reaches_within(db, id, from, to, steps)
}

/// Would package `id` with these dependencies close a cycle: does one of
/// the dependencies lead back to `id`?
pub open spec fn closes_cycle(
    db: Seq<(Seq<char>, PackageDataEntry)>,
    id: Seq<char>,
    dependencies: Seq<Seq<char>>,
) -> bool {
    exists|k: int| 0 <= k < dependencies.len() && reaches(db, id, #[trigger] dependencies[k], id)
}

/// Is `name` reached from one of `starts`?
pub open spec fn reached_from(
    db: Seq<(Seq<char>, PackageDataEntry)>,
    id: Seq<char>,
    starts: Seq<Seq<char>>,
    name: Seq<char>,
) -> bool {
    exists|k: int| 0 <= k < starts.len() && reaches(db, id, #[trigger] starts[k], name)
}

/// Does every step from one of `names` lead to one of `names`?
pub open spec fn closed(
    db: Seq<(Seq<char>, PackageDataEntry)>,
    id: Seq<char>,
    names: Seq<Seq<char>>,
) -> bool {
    forall|i: int, k: int|
        0 <= i < names.len() && 0 <= k < edges(db, id, names[i]).len() ==> names.contains(
            #[trigger] edges(db, id, #[trigger] names[i])[k],
        )
}

/// What is reached in some steps is reached in one more, taken at the end.
pub proof fn reach_further(
    db: Seq<(Seq<char>, PackageDataEntry)>,
    id: Seq<char>,
    from: Seq<char>,
    to: Seq<char>,
    steps: nat,
    k: int,
)
    requires
        reaches_within(db, id, from, to, steps),
        0 <= k < edges(db, id, to).len(),
    ensures
        reaches_within(db, id, from, edges(db, id, to)[k], steps + 1),
    decreases steps,
{
    let next = edges(db, id, to)[k];
    if from == to {
        assert(reaches_within(db, id, next, next, steps));
        assert(reaches_within(db, id, edges(db, id, from)[k], next, steps));
    } else {
        let j = choose|j: int|
            0 <= j < edges(db, id, from).len() && reaches_within(
                db,
                id,
                #[trigger] edges(db, id, from)[j],
                to,
                (steps - 1) as nat,
            );
        reach_further(db, id, edges(db, id, from)[j], to, (steps - 1) as nat, k);
    }
}

/// Names that are closed under steps hold whatever is reached from one of
/// them.
pub proof fn closed_holds_what_is_reached(
    db: Seq<(Seq<char>, PackageDataEntry)>,
    id: Seq<char>,
    names: Seq<Seq<char>>,
    from: Seq<char>,
    to: Seq<char>,
    steps: nat,
)
    requires
        closed(db, id, names),
        names.contains(from),
        reaches_within(db, id, from, to, steps),
    ensures
        names.contains(to),
    decreases steps,
{
    if from != to {
        let k = choose|k: int|
            0 <= k < edges(db, id, from).len() && reaches_within(
                db,
                id,
                #[trigger] edges(db, id, from)[k],
                to,
                (steps - 1) as nat,
            );
        let i = choose|i: int| 0 <= i < names.len() && names[i] == from;
        assert(names.contains(edges(db, id, names[i])[k]));
        closed_holds_what_is_reached(
            db,
            id,
            names,
            edges(db, id, from)[k],
            to,
            (steps - 1) as nat,
        );
    }
}

/// The dependencies that the installed package named `name` declares;
/// none where no package of that name is installed.
pub open spec fn declared(db: Seq<(Seq<char>, PackageDataEntry)>, name: Seq<char>) -> Seq<
    Seq<char>,
> {
    match installed_at(db, name) {
        Some(installed) => names_in(installed.manifest.dependencies.0@),
        None => Seq::empty(),
    }
}

/// Is the record without cycle: does no package close a cycle with the
/// dependencies it declares?
pub open spec fn acyclic(db: Seq<(Seq<char>, PackageDataEntry)>) -> bool {
    forall|name: Seq<char>| !closes_cycle(db, name, #[trigger] declared(db, name))
}

/// Where one step leads from `name` when no step leads on from `a` or from
/// `b`.
pub open spec fn edges_but(
    db: Seq<(Seq<char>, PackageDataEntry)>,
    a: Seq<char>,
    b: Seq<char>,
    name: Seq<char>,
) -> Seq<Seq<char>> {
    if name == a || name == b {
        Seq::empty()
    } else {
        declared(db, name)
    }
}

/// Is `to` reached from `from` in at most `steps` steps, none of which
/// leads on from `a` or from `b`?
pub open spec fn reaches_but_within(
    db: Seq<(Seq<char>, PackageDataEntry)>,
    a: Seq<char>,
    b: Seq<char>,
    from: Seq<char>,
    to: Seq<char>,
    steps: nat,
) -> bool
    decreases steps,
{
    from == to || (steps > 0 && exists|k: int|
        0 <= k < edges_but(db, a, b, from).len() && reaches_but_within(
            db,
            a,
            b,
            #[trigger] edges_but(db, a, b, from)[k],
            to,
            (steps - 1) as nat,
        ))
}

/// Is `to` reached from `from` by steps none of which leads on from `a`
/// or from `b`?
pub open spec fn reaches_but(
    db: Seq<(Seq<char>, PackageDataEntry)>,
    a: Seq<char>,
    b: Seq<char>,
    from: Seq<char>,
    to: Seq<char>,
) -> bool {
    exists|steps: nat| reaches_but_within(db, a, b, from, to, steps)
}

/// What is reached in some steps is reached in more.
pub proof fn reached_in_more(
    db: Seq<(Seq<char>, PackageDataEntry)>,
    id: Seq<char>,
    from: Seq<char>,
    to: Seq<char>,
    steps: nat,
    more: nat,
)
    requires
        reaches_within(db, id, from, to, steps),
        steps <= more,
    ensures
        reaches_within(db, id, from, to, more),
    decreases steps,
{
    if from != to {
        let k = choose|k: int|
            0 <= k < edges(db, id, from).len() && reaches_within(
                db,
                id,
                #[trigger] edges(db, id, from)[k],
                to,
                (steps - 1) as nat,
            );
        reached_in_more(
            db,
            id,
            edges(db, id, from)[k],
            to,
            (steps - 1) as nat,
            (more - 1) as nat,
        );
    }
}

/// What is reached from what is reached is reached.
pub proof fn reached_through(
    db: Seq<(Seq<char>, PackageDataEntry)>,
    id: Seq<char>,
    from: Seq<char>,
    via: Seq<char>,
    to: Seq<char>,
    first: nat,
    then: nat,
)
    requires
        reaches_within(db, id, from, via, first),
        reaches_within(db, id, via, to, then),
    ensures
        reaches_within(db, id, from, to, first + then),
    decreases first,
{
    if from == via {
        reached_in_more(db, id, via, to, then, first + then);
    } else {
        let k = choose|k: int|
            0 <= k < edges(db, id, from).len() && reaches_within(
                db,
                id,
                #[trigger] edges(db, id, from)[k],
                via,
                (first - 1) as nat,
            );
        reached_through(db, id, edges(db, id, from)[k], via, to, (first - 1) as nat, then);
    }
}

/// What is reached when no step leads on from `a` or from `b` is reached
/// when none leads on from `a`, and when none leads on from `b`.
pub proof fn reached_with_fewer_stops(
    db: Seq<(Seq<char>, PackageDataEntry)>,
    a: Seq<char>,
    b: Seq<char>,
    from: Seq<char>,
    to: Seq<char>,
    steps: nat,
)
    requires
        reaches_but_within(db, a, b, from, to, steps),
    ensures
        reaches_within(db, a, from, to, steps),
        reaches_within(db, b, from, to, steps),
    decreases steps,
{
    if from != to {
        let k = choose|k: int|
            0 <= k < edges_but(db, a, b, from).len() && reaches_but_within(
                db,
                a,
                b,
                #[trigger] edges_but(db, a, b, from)[k],
                to,
                (steps - 1) as nat,
            );
        reached_with_fewer_stops(db, a, b, edges_but(db, a, b, from)[k], to, (steps - 1) as nat);
        assert(edges(db, a, from)[k] == edges_but(db, a, b, from)[k]);
        assert(edges(db, b, from)[k] == edges_but(db, a, b, from)[k]);
    }
}

/// What is reached in one record is reached in another that declares the
/// same wherever a step leads on.
pub proof fn reached_in_like_record(
    db: Seq<(Seq<char>, PackageDataEntry)>,
    other: Seq<(Seq<char>, PackageDataEntry)>,
    a: Seq<char>,
    b: Seq<char>,
    from: Seq<char>,
    to: Seq<char>,
    steps: nat,
)
    requires
        reaches_but_within(db, a, b, from, to, steps),
        forall|name: Seq<char>| name != a && name != b ==> #[trigger] declared(db, name) == declared(other, name),
    ensures
        reaches_but_within(other, a, b, from, to, steps),
    decreases steps,
{
    if from != to {
        let k = choose|k: int|
            0 <= k < edges_but(db, a, b, from).len() && reaches_but_within(
                db,
                a,
                b,
                #[trigger] edges_but(db, a, b, from)[k],
                to,
                (steps - 1) as nat,
            );
        reached_in_like_record(
            db,
            other,
            a,
            b,
            edges_but(db, a, b, from)[k],
            to,
            (steps - 1) as nat,
        );
        assert(declared(db, from) == declared(other, from));
        assert(edges_but(other, a, b, from)[k] == edges_but(db, a, b, from)[k]);
    }
}

/// Stopping at `id` as well splits a way: either it never led on from
/// `id`, or it led to `id` first and on from there through one of the
/// dependencies of `id`.
pub proof fn way_splits_at(
    db: Seq<(Seq<char>, PackageDataEntry)>,
    x: Seq<char>,
    id: Seq<char>,
    from: Seq<char>,
    to: Seq<char>,
    steps: nat,
)
    requires
        reaches_within(db, x, from, to, steps),
    ensures
        reaches_but(db, x, id, from, to) || (reaches_but(db, x, id, from, id) && exists|j: int|
            0 <= j < declared(db, id).len() && reaches_but(
                db,
                x,
                id,
                #[trigger] declared(db, id)[j],
                to,
            )),
    decreases steps,
{
    if from == to {
        assert(reaches_but_within(db, x, id, from, to, 0));
    } else {
        let k = choose|k: int|
            0 <= k < edges(db, x, from).len() && reaches_within(
                db,
                x,
                #[trigger] edges(db, x, from)[k],
                to,
                (steps - 1) as nat,
            );
        let next = edges(db, x, from)[k];
        way_splits_at(db, x, id, next, to, (steps - 1) as nat);
        if from == id {
            assert(reaches_but_within(db, x, id, from, id, 0));
            assert(declared(db, id)[k] == next);
            if reaches_but(db, x, id, next, to) {
                assert(reaches_but(db, x, id, declared(db, id)[k], to));
            }
        } else {
            assert(edges_but(db, x, id, from)[k] == next);
            if reaches_but(db, x, id, next, to) {
                let m = choose|m: nat| reaches_but_within(db, x, id, next, to, m);
                assert(reaches_but_within(db, x, id, from, to, m + 1));
            } else {
                let m = choose|m: nat| reaches_but_within(db, x, id, next, id, m);
                assert(reaches_but_within(db, x, id, from, id, m + 1));
            }
        }
    }
}

/// A record without cycle stays without cycle when a package that closes
/// none is installed: `after` declares what `before` declares, but for `id`,
/// which declares `dependencies`.
pub proof fn installing_keeps_acyclic(
    before: Seq<(Seq<char>, PackageDataEntry)>,
    after: Seq<(Seq<char>, PackageDataEntry)>,
    id: Seq<char>,
    dependencies: Seq<Seq<char>>,
)
    requires
        acyclic(before),
        !closes_cycle(before, id, dependencies),
        declared(after, id) == dependencies,
        forall|name: Seq<char>| name != id ==> #[trigger] declared(after, name) == declared(before, name),
    ensures
        acyclic(after),
{
    assert forall|x: Seq<char>| !closes_cycle(after, x, #[trigger] declared(after, x)) by {
        if closes_cycle(after, x, declared(after, x)) {
            let k = choose|k: int|
                0 <= k < declared(after, x).len() && reaches(
                    after,
                    x,
                    #[trigger] declared(after, x)[k],
                    x,
                );
            let d = declared(after, x)[k];
            let steps = choose|steps: nat| reaches_within(after, x, d, x, steps);
            if x == id {
                way_splits_at(after, id, id, d, id, steps);
                let m = choose|m: nat| reaches_but_within(after, id, id, d, id, m);
                reached_in_like_record(after, before, id, id, d, id, m);
                reached_with_fewer_stops(before, id, id, d, id, m);
                assert(reaches(before, id, dependencies[k], id));
            } else {
                way_splits_at(after, x, id, d, x, steps);
                assert(declared(before, x) == declared(after, x));
                if reaches_but(after, x, id, d, x) {
                    let m = choose|m: nat| reaches_but_within(after, x, id, d, x, m);
                    reached_in_like_record(after, before, x, id, d, x, m);
                    reached_with_fewer_stops(before, x, id, d, x, m);
                    assert(reaches(before, x, declared(before, x)[k], x));
                    assert(closes_cycle(before, x, declared(before, x)));
                } else {
                    let j = choose|j: int|
                        0 <= j < declared(after, id).len() && reaches_but(
                            after,
                            x,
                            id,
                            #[trigger] declared(after, id)[j],
                            x,
                        );
                    let e = dependencies[j];
                    let first = choose|m: nat| reaches_but_within(after, x, id, e, x, m);
                    let last = choose|m: nat| reaches_but_within(after, x, id, d, id, m);
                    reached_in_like_record(after, before, x, id, e, x, first);
                    reached_in_like_record(after, before, x, id, d, id, last);
                    reached_with_fewer_stops(before, x, id, e, x, first);
                    reached_with_fewer_stops(before, x, id, d, id, last);
                    assert(edges(before, id, x)[k] == d);
                    assert(reaches_within(before, id, x, id, last + 1));
                    reached_through(before, id, e, x, id, first, last + 1);
                    assert(reaches(before, id, dependencies[j], id));
                }
            }
        }
    }
}

/// A record without cycle stays without cycle when packages stop
/// declaring dependencies: every package declares in `after` what it declares
/// in `before`, or nothing.
pub proof fn declaring_less_keeps_acyclic(
    before: Seq<(Seq<char>, PackageDataEntry)>,
    after: Seq<(Seq<char>, PackageDataEntry)>,
)
    requires
        acyclic(before),
        forall|name: Seq<char>| #[trigger]
            declared(after, name) == declared(before, name) || declared(after, name).len() == 0,
    ensures
        acyclic(after),
{
    assert forall|x: Seq<char>| !closes_cycle(after, x, #[trigger] declared(after, x)) by {
        if closes_cycle(after, x, declared(after, x)) {
            let k = choose|k: int|
                0 <= k < declared(after, x).len() && reaches(
                    after,
                    x,
                    #[trigger] declared(after, x)[k],
                    x,
                );
            let steps = choose|steps: nat|
                reaches_within(after, x, declared(after, x)[k], x, steps);
            reached_where_more_is_declared(after, before, x, declared(after, x)[k], x, steps);
            assert(reaches(before, x, declared(before, x)[k], x));
        }
    }
}

/// What is reached in one record is reached in another that declares at
/// least as much.
pub proof fn reached_where_more_is_declared(
    db: Seq<(Seq<char>, PackageDataEntry)>,
    other: Seq<(Seq<char>, PackageDataEntry)>,
    id: Seq<char>,
    from: Seq<char>,
    to: Seq<char>,
    steps: nat,
)
    requires
        reaches_within(db, id, from, to, steps),
        forall|name: Seq<char>| #[trigger]
            declared(db, name) == declared(other, name) || declared(db, name).len() == 0,
    ensures
        reaches_within(other, id, from, to, steps),
    decreases steps,
{
    if from != to {
        let k = choose|k: int|
            0 <= k < edges(db, id, from).len() && reaches_within(
                db,
                id,
                #[trigger] edges(db, id, from)[k],
                to,
                (steps - 1) as nat,
            );
        reached_where_more_is_declared(
            db,
            other,
            id,
            edges(db, id, from)[k],
            to,
            (steps - 1) as nat,
        );
        assert(declared(db, from) == declared(other, from));
        assert(edges(other, id, from)[k] == edges(db, id, from)[k]);
    }
}

/// Does the record `after` hold the packages of `before`, each with the
/// manifest it had?
pub open spec fn same_manifests(
    before: Seq<(Seq<char>, PackageDataEntry)>,
    after: Seq<(Seq<char>, PackageDataEntry)>,
) -> bool {
    &&& after.len() == before.len()
    &&& forall|i: int|
        0 <= i < before.len() ==> (#[trigger] after[i]).0 == before[i].0 && match installed_of(
            before[i].1,
        ) {
            Some(b) => installed_of(after[i].1) matches Some(a) && a.manifest == b.manifest,
            None => installed_of(after[i].1) is None,
        }
}

/// Packages that keep their manifests declare what they declared.
pub proof fn same_manifests_declare_the_same(
    before: Seq<(Seq<char>, PackageDataEntry)>,
    after: Seq<(Seq<char>, PackageDataEntry)>,
    name: Seq<char>,
)
    requires
        same_manifests(before, after),
    ensures
        declared(after, name) == declared(before, name),
{
    position_by_keys(before, after, name);
    position_finds(before, name);
    if has_key(before, name) {
        let p = position(before, name);
        assert(after[p].0 == before[p].0);
    }
}

/// A record without cycle stays without cycle while its packages keep
/// their manifests.
pub proof fn same_manifests_stay_acyclic(
    before: Seq<(Seq<char>, PackageDataEntry)>,
    after: Seq<(Seq<char>, PackageDataEntry)>,
)
    requires
        same_manifests(before, after),
        acyclic(before),
    ensures
        acyclic(after),
{
    assert forall|name: Seq<char>| #[trigger]
        declared(after, name) == declared(before, name) || declared(after, name).len() == 0 by {
        same_manifests_declare_the_same(before, after, name);
    }
    declaring_less_keeps_acyclic(before, after);
}

/// A record without cycle stays without cycle when the entry of a package
/// is taken out or gives way to one without installed package.
pub proof fn uninstalling_keeps_acyclic(
    before: Seq<(Seq<char>, PackageDataEntry)>,
    after: Seq<(Seq<char>, PackageDataEntry)>,
    id: Seq<char>,
)
    requires
        acyclic(before),
        installed_at(after, id) is None,
        forall|name: Seq<char>| name != id ==> lookup(after, name) == lookup(before, name),
    ensures
        acyclic(after),
{
    assert forall|name: Seq<char>| #[trigger]
        declared(after, name) == declared(before, name) || declared(after, name).len() == 0 by {
        if name != id {
            assert(lookup(after, name) == lookup(before, name));
        }
    }
    declaring_less_keeps_acyclic(before, after);
}

/// How many of `s` are true.
pub open spec fn count_true(s: Seq<bool>) -> nat
    decreases s.len(),
{
    if s.len() == 0 {
        0
    } else {
        count_true(s.drop_last()) + if s.last() {
            1nat
        } else {
            0nat
        }
    }
}

/// No more are true than there are.
pub proof fn count_true_is_bounded(s: Seq<bool>)
    ensures
        count_true(s) <= s.len(),
    decreases s.len(),
{
    if s.len() > 0 {
        count_true_is_bounded(s.drop_last());
    }
}

/// Setting one that was false makes one more true.
pub proof fn count_true_grows(s: Seq<bool>, i: int)
    requires
        0 <= i < s.len(),
        !s[i],
    ensures
        count_true(s.update(i, true)) == count_true(s) + 1,
    decreases s.len(),
{
    let t = s.update(i, true);
    if i == s.len() - 1 {
        assert(t.drop_last() =~= s.drop_last());
    } else {
        assert(t.drop_last() =~= s.drop_last().update(i, true));
        count_true_grows(s.drop_last(), i);
    }
}

/// Adds `name` to `names` unless it is there.
fn add_name(names: &mut Vec<String>, name: &str)
    ensures
        texts(final(names)@).contains(name@),
        forall|x: Seq<char>| texts(old(names)@).contains(x) ==> texts(final(names)@).contains(x),
        forall|x: Seq<char>|
            texts(final(names)@).contains(x) ==> x == name@ || texts(old(names)@).contains(x),
{
    let ghost before = texts(names@);
    if !contains_text(names, name) {
        names.push(name.to_owned());
        let ghost after = texts(names@);
        assert(after =~= before.push(name@));
        assert(after[after.len() - 1] == name@);
        assert forall|x: Seq<char>| before.contains(x) implies after.contains(x) by {
            let i = choose|i: int| 0 <= i < before.len() && before[i] == x;
            assert(after[i] == x);
        }
        assert forall|x: Seq<char>| after.contains(x) implies x == name@ || before.contains(x) by {
            let i = choose|i: int| 0 <= i < after.len() && after[i] == x;
            if i < before.len() {
                assert(before[i] == x);
            }
        }
    }
}

/// Would package `id` with these dependencies close a cycle? Every name
/// that is reached from the dependencies is gathered, each installed package
/// among them once; a cycle is closed exactly if `id` is among them.
pub fn would_close_cycle(
    db: &AllPackageData,
    id: &PackageId,
    dependencies: &OrderedMap<DepInfo>,
) -> (b: bool)
    ensures
        b == closes_cycle(db.0@, id@, names_in(dependencies@)),
{
    let ghost starts = names_in(dependencies@);
    let n = db.0.len();
    let mut reached: Vec<String> = Vec::new();
    let mut k: usize = 0;
    while k < dependencies.len()
        invariant
            k <= dependencies@.len(),
            starts == names_in(dependencies@),
            forall|j: int| 0 <= j < k ==> texts(reached@).contains(#[trigger] starts[j]),
            forall|x: Seq<char>|
                texts(reached@).contains(x) ==> reached_from(db.0@, id@, starts, x),
        decreases dependencies@.len() - k,
    {
        add_name(&mut reached, dependencies.key_at(k));
        proof {
            assert(reaches_within(db.0@, id@, starts[k as int], starts[k as int], 0));
            assert(reaches(db.0@, id@, starts[k as int], starts[k as int]));
            assert(reached_from(db.0@, id@, starts, starts[k as int]));
        }
        k = k + 1;
    }
    let mut expanded: Vec<bool> = Vec::new();
    let mut e: usize = 0;
    while e < n
        invariant
            e <= n,
            expanded@.len() == e,
            forall|j: int| 0 <= j < e ==> !(#[trigger] expanded@[j]),
            count_true(expanded@) == 0,
        decreases n - e,
    {
        let ghost before = expanded@;
        expanded.push(false);
        assert(expanded@.drop_last() =~= before);
        e = e + 1;
    }
    let mut done: usize = 0;
    let mut open = true;
    while open
        invariant
            n == db.0@.len(),
            expanded@.len() == n,
            done == count_true(expanded@),
            starts == names_in(dependencies@),
            forall|j: int| 0 <= j < starts.len() ==> texts(reached@).contains(#[trigger] starts[j]),
            forall|x: Seq<char>|
                texts(reached@).contains(x) ==> reached_from(db.0@, id@, starts, x),
            forall|i: int, j: int|
                0 <= i < n && expanded@[i] && 0 <= j < edges(db.0@, id@, db.0@[i].0).len()
                    ==> texts(reached@).contains(#[trigger] edges(db.0@, id@, (#[trigger] db.0@[i]).0)[j]),
            !open ==> forall|i: int|
                0 <= i < n && texts(reached@).contains((#[trigger] db.0@[i]).0) ==> expanded@[i]
                    || edges(db.0@, id@, db.0@[i].0).len() == 0,
        decreases
                n - done,
                if open {
                    1nat
                } else {
                    0nat
                },
    {
        proof {
            count_true_is_bounded(expanded@);
        }
        let mut pick: Option<usize> = None;
        let mut i: usize = 0;
        while i < n && pick.is_none()
            invariant
                i <= n,
                n == db.0@.len(),
                expanded@.len() == n,
                forall|j: int|
                    0 <= j < i && pick is None && texts(reached@).contains(
                        (#[trigger] db.0@[j]).0,
                    ) ==> expanded@[j] || edges(db.0@, id@, db.0@[j].0).len() == 0,
                pick matches Some(p) ==> p < n && !expanded@[p as int] && texts(reached@).contains(
                    db.0@[p as int].0,
                ) && db.0@[p as int].0 != id@ && installed_of(db.0@[p as int].1) is Some
                    && installed_at(db.0@, db.0@[p as int].0) == installed_of(db.0@[p as int].1),
            decreases n - i,
        {
            if !expanded[i] && contains_text(&reached, db.0.key_at(i)) {
                let is_id = same_text(db.0.key_at(i), id.as_str());
                let installed = db.0.value_at(i).installed().is_some();
                proof {
                    position_finds(db.0@, db.0@[i as int].0);
                }
                db.0.keys_are_distinct();
                proof {
                    lookup_at(db.0@, i as int);
                }
                if !is_id && installed {
                    pick = Some(i);
                }
            }
            i = i + 1;
        }
        match pick {
            None => {
                open = false;
            },
            Some(p) => {
                let ghost name = db.0@[p as int].0;
                let ghost before = texts(reached@);
                match db.0.value_at(p).installed() {
                    Some(installed) => {
                        let declared = &installed.manifest.dependencies.0;
                        let ghost out = edges(db.0@, id@, name);
                        assert(out == names_in(declared@));
                        let mut d: usize = 0;
                        while d < declared.len()
                            invariant
                                d <= declared@.len(),
                                out == names_in(declared@),
                                out == edges(db.0@, id@, name),
                                before.contains(name),
                                forall|x: Seq<char>|
                                    before.contains(x) ==> texts(reached@).contains(x),
                                forall|j: int|
                                    0 <= j < d ==> texts(reached@).contains(#[trigger] out[j]),
                                forall|x: Seq<char>|
                                    texts(reached@).contains(x) ==> reached_from(
                                        db.0@,
                                        id@,
                                        starts,
                                        x,
                                    ),
                            decreases declared@.len() - d,
                        {
                            proof {
                                let s = choose|s: int|
                                    0 <= s < starts.len() && reaches(
                                        db.0@,
                                        id@,
                                        #[trigger] starts[s],
                                        name,
                                    );
                                let steps = choose|steps: nat|
                                    reaches_within(db.0@, id@, starts[s], name, steps);
                                reach_further(db.0@, id@, starts[s], name, steps, d as int);
                                assert(reaches(db.0@, id@, starts[s], out[d as int]));
                                assert(reached_from(db.0@, id@, starts, out[d as int]));
                            }
                            add_name(&mut reached, declared.key_at(d));
                            d = d + 1;
                        }
                    },
                    None => {},
                }
                proof {
                    count_true_grows(expanded@, p as int);
                    count_true_is_bounded(expanded@.update(p as int, true));
                }
                expanded.set(p, true);
                done = done + 1;
            },
        }
    }
    let b = contains_text(&reached, id.as_str());
    proof {
        let names = texts(reached@);
        assert(closed(db.0@, id@, names)) by {
            assert forall|i: int, k: int|
                0 <= i < names.len() && 0 <= k < edges(db.0@, id@, names[i]).len() implies names.contains(
                #[trigger] edges(db.0@, id@, #[trigger] names[i])[k],
            ) by {
                let x = names[i];
                position_finds(db.0@, x);
                let p = position(db.0@, x);
                assert(has_key(db.0@, x));
                assert(names.contains(db.0@[p].0));
            }
        }
        if b {
            assert(reached_from(db.0@, id@, starts, id@));
        }
        if closes_cycle(db.0@, id@, starts) {
            let s = choose|s: int|
                0 <= s < starts.len() && reaches(db.0@, id@, #[trigger] starts[s], id@);
            let steps = choose|steps: nat| reaches_within(db.0@, id@, starts[s], id@, steps);
            closed_holds_what_is_reached(db.0@, id@, names, starts[s], id@, steps);
        }
    }
    b
}

/// Admits package `id` with these dependencies unless it would close a
/// cycle, which is an error of kind `ValidateS9pk`.
pub fn check_acyclic(db: &AllPackageData, id: &PackageId, dependencies: &OrderedMap<DepInfo>) -> (r:
    Result<(), Error>)
    ensures
        r is Ok <==> !closes_cycle(db.0@, id@, names_in(dependencies@)),
        r matches Err(e) ==> e.kind == ErrorKind::ValidateS9pk,
{
    if would_close_cycle(db, id, dependencies) {
        Err(Error::of(ErrorKind::ValidateS9pk, "Dependencies Lead Back To The Package"))
    } else {
        Ok(())
    }
}

} // verus!
