//! What the cascade reaches: once it has run, every dependent of a package
//! that is marked as broken is marked too.

use vstd::prelude::*;
use vstd::set_lib::{lemma_int_range, lemma_len_subset, lemma_subset_equality, set_int_range};
use crate::config::configure::{mark_round, mark_rounds, mark_row, marked, Breakages};
use crate::db::{installed_of, PackageDataEntry};
use crate::dependencies::DependencyErrorView;
use crate::ordered_map::{has_key, names_in};

verus! {

/// Does the `i`-th package of the record hand its mark on: is it installed
/// and marked?
pub open spec fn spreads(db: Seq<(Seq<char>, PackageDataEntry)>, marks: Breakages, i: int) -> bool {
    0 <= i < db.len() && installed_of(db[i].1) is Some && has_key(marks, db[i].0)
}

/// The dependents of the `i`-th package.
pub open spec fn dependents_at(db: Seq<(Seq<char>, PackageDataEntry)>, i: int) -> Seq<Seq<char>> {
    names_in(installed_of(db[i].1)->0.dependents@)
}

/// Are the marks complete: is every dependent of an installed package
/// that is marked itself marked?
pub open spec fn complete(db: Seq<(Seq<char>, PackageDataEntry)>, marks: Breakages) -> bool {
    forall|i: int, d: int|
        spreads(db, marks, i) && 0 <= d < dependents_at(db, i).len() ==> has_key(
            marks,
            #[trigger] dependents_at(db, i)[d],
        )
}

/// The packages that hand their mark on.
pub open spec fn spreading(db: Seq<(Seq<char>, PackageDataEntry)>, marks: Breakages) -> Set<int> {
    Set::new(|i: int| spreads(db, marks, i))
}

/// Marking a package marks it, and keeps every mark.
pub proof fn marking_keeps_marks(
    marks: Breakages,
    package: Seq<char>,
    dependency: Seq<char>,
    error: DependencyErrorView,
    other: Seq<char>,
)
    ensures
        has_key(marked(marks, package, dependency, error), package),
        has_key(marks, other) ==> has_key(marked(marks, package, dependency, error), other),
        has_key(marks, package) ==> marked(marks, package, dependency, error) == marks,
{
    let after = marked(marks, package, dependency, error);
    if !has_key(marks, package) {
        assert(after[marks.len() as int].0 == package);
        if has_key(marks, other) {
            let k = choose|k: int| 0 <= k < marks.len() && (#[trigger] marks[k]).0 == other;
            assert(after[k].0 == other);
        }
    }
}

/// Marking the dependents of a package keeps every mark.
pub proof fn row_keeps_marks(
    broken: Seq<char>,
    dependents: Seq<Seq<char>>,
    marks: Breakages,
    from: int,
    other: Seq<char>,
)
    requires
        0 <= from,
        has_key(marks, other),
    ensures
        has_key(mark_row(broken, dependents, marks, from), other),
    decreases dependents.len() - from,
{
    if from < dependents.len() {
        marking_keeps_marks(marks, dependents[from], broken, DependencyErrorView::NotRunning, other);
        row_keeps_marks(
            broken,
            dependents,
            marked(marks, dependents[from], broken, DependencyErrorView::NotRunning),
            from + 1,
            other,
        );
    }
}

/// Marking the dependents of a package marks each of them.
pub proof fn row_marks_each(
    broken: Seq<char>,
    dependents: Seq<Seq<char>>,
    marks: Breakages,
    from: int,
    d: int,
)
    requires
        0 <= from <= d < dependents.len(),
    ensures
        has_key(mark_row(broken, dependents, marks, from), dependents[d]),
    decreases d - from,
{
    let next = marked(marks, dependents[from], broken, DependencyErrorView::NotRunning);
    if from == d {
        marking_keeps_marks(marks, dependents[from], broken, DependencyErrorView::NotRunning, broken);
        row_keeps_marks(broken, dependents, next, from + 1, dependents[d]);
    } else {
        row_marks_each(broken, dependents, next, from + 1, d);
    }
}

/// Marking dependents that are all marked changes nothing.
pub proof fn row_of_marked_is_idle(
    broken: Seq<char>,
    dependents: Seq<Seq<char>>,
    marks: Breakages,
    from: int,
)
    requires
        0 <= from,
        forall|d: int| from <= d < dependents.len() ==> has_key(marks, #[trigger] dependents[d]),
    ensures
        mark_row(broken, dependents, marks, from) == marks,
    decreases dependents.len() - from,
{
    if from < dependents.len() {
        marking_keeps_marks(marks, dependents[from], broken, DependencyErrorView::NotRunning, broken);
        row_of_marked_is_idle(broken, dependents, marks, from + 1);
    }
}

/// One pass over the record keeps every mark.
pub proof fn round_keeps_marks(
    db: Seq<(Seq<char>, PackageDataEntry)>,
    marks: Breakages,
    from: int,
    other: Seq<char>,
)
    requires
        0 <= from,
        has_key(marks, other),
    ensures
        has_key(mark_round(db, marks, from), other),
    decreases db.len() - from,
{
    if from < db.len() {
        if spreads(db, marks, from) {
            row_keeps_marks(db[from].0, dependents_at(db, from), marks, 0, other);
        }
        round_keeps_marks(
            db,
            if spreads(db, marks, from) {
                mark_row(db[from].0, dependents_at(db, from), marks, 0)
            } else {
                marks
            },
            from + 1,
            other,
        );
    }
}

/// One pass over the record marks every dependent of a package that
/// handed its mark on when the pass came to it.
pub proof fn round_marks_dependents(
    db: Seq<(Seq<char>, PackageDataEntry)>,
    marks: Breakages,
    from: int,
    i: int,
    d: int,
)
    requires
        0 <= from <= i,
        spreads(db, marks, i),
        0 <= d < dependents_at(db, i).len(),
    ensures
        has_key(mark_round(db, marks, from), dependents_at(db, i)[d]),
    decreases i - from,
{
    let next = if spreads(db, marks, from) {
        mark_row(db[from].0, dependents_at(db, from), marks, 0)
    } else {
        marks
    };
    if from == i {
        row_marks_each(db[i].0, dependents_at(db, i), marks, 0, d);
        round_keeps_marks(db, next, from + 1, dependents_at(db, i)[d]);
    } else {
        if spreads(db, marks, from) {
            row_keeps_marks(db[from].0, dependents_at(db, from), marks, 0, db[i].0);
        }
        round_marks_dependents(db, next, from + 1, i, d);
    }
}

/// One pass over a record whose marks are complete changes nothing.
pub proof fn round_of_complete_is_idle(
    db: Seq<(Seq<char>, PackageDataEntry)>,
    marks: Breakages,
    from: int,
)
    requires
        0 <= from,
        complete(db, marks),
    ensures
        mark_round(db, marks, from) == marks,
    decreases db.len() - from,
{
    if from < db.len() {
        if spreads(db, marks, from) {
            let dependents = dependents_at(db, from);
            assert forall|d: int| 0 <= d < dependents.len() implies has_key(
                marks,
                #[trigger] dependents[d],
            ) by {
                assert(has_key(marks, dependents_at(db, from)[d]));
            }
            row_of_marked_is_idle(db[from].0, dependents, marks, 0);
        }
        round_of_complete_is_idle(db, marks, from + 1);
    }
}

/// Any number of passes over a record whose marks are complete changes
/// nothing.
pub proof fn rounds_of_complete_are_idle(
    db: Seq<(Seq<char>, PackageDataEntry)>,
    marks: Breakages,
    rounds: nat,
)
    requires
        complete(db, marks),
    ensures
        mark_rounds(db, marks, rounds) == marks,
    decreases rounds,
{
    if rounds > 0 {
        round_of_complete_is_idle(db, marks, 0);
        rounds_of_complete_are_idle(db, marks, (rounds - 1) as nat);
    }
}

/// Any number of passes over the record keeps every mark.
pub proof fn rounds_keep_marks(
    db: Seq<(Seq<char>, PackageDataEntry)>,
    marks: Breakages,
    rounds: nat,
    other: Seq<char>,
)
    requires
        has_key(marks, other),
    ensures
        has_key(mark_rounds(db, marks, rounds), other),
    decreases rounds,
{
    if rounds > 0 {
        round_keeps_marks(db, marks, 0, other);
        rounds_keep_marks(db, mark_round(db, marks, 0), (rounds - 1) as nat, other);
    }
}

/// The packages that hand their mark on are packages of the record.
pub proof fn spreading_is_bounded(db: Seq<(Seq<char>, PackageDataEntry)>, marks: Breakages)
    ensures
        spreading(db, marks).finite(),
        spreading(db, marks).len() <= db.len(),
{
    lemma_int_range(0, db.len() as int);
    lemma_len_subset(spreading(db, marks), set_int_range(0, db.len() as int));
}

/// Passes enough make the marks complete: each pass that does not make
/// them complete lets one more package hand its mark on, and there are only
/// so many packages.
pub proof fn enough_rounds_complete(
    db: Seq<(Seq<char>, PackageDataEntry)>,
    marks: Breakages,
    rounds: nat,
)
    requires
        complete(db, marks) || rounds + spreading(db, marks).len() > db.len(),
    ensures
        complete(db, mark_rounds(db, marks, rounds)),
    decreases rounds,
{
    if complete(db, marks) {
        rounds_of_complete_are_idle(db, marks, rounds);
    } else {
        spreading_is_bounded(db, marks);
        let next = mark_round(db, marks, 0);
        spreading_is_bounded(db, next);
        let before = spreading(db, marks);
        let after = spreading(db, next);
        assert(before.subset_of(after)) by {
            assert forall|i: int| before.contains(i) implies after.contains(i) by {
                round_keeps_marks(db, marks, 0, db[i].0);
            }
        }
        if after.subset_of(before) {
            assert(complete(db, next)) by {
                assert forall|i: int, d: int|
                    spreads(db, next, i) && 0 <= d < dependents_at(db, i).len() implies has_key(
                    next,
                    #[trigger] dependents_at(db, i)[d],
                ) by {
                    assert(after.contains(i));
                    assert(before.contains(i));
                    round_marks_dependents(db, marks, 0, i, d);
                }
            }
        } else {
            lemma_len_subset(before, after);
            if before.len() == after.len() {
                lemma_subset_equality(before, after);
            }
        }
        enough_rounds_complete(db, next, (rounds - 1) as nat);
    }
}

/// As many passes over the record as it has packages make the marks
/// complete.
pub proof fn cascade_is_complete(db: Seq<(Seq<char>, PackageDataEntry)>, marks: Breakages)
    ensures
        complete(db, mark_rounds(db, marks, db.len())),
{
    spreading_is_bounded(db, marks);
    if spreading(db, marks).len() == 0 {
        assert(complete(db, marks)) by {
            assert forall|i: int, d: int|
                spreads(db, marks, i) && 0 <= d < dependents_at(db, i).len() implies has_key(
                marks,
                #[trigger] dependents_at(db, i)[d],
            ) by {
                assert(spreading(db, marks).contains(i));
            }
        }
    }
    enough_rounds_complete(db, marks, db.len());
}

} // verus!
