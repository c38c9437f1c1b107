//! Migrations: the actions of a package that carry its data from, or to,
//! other versions of it.

use vstd::prelude::*;
use crate::action::ActionImplementation;
use crate::version::{admits, Version, VersionRange};

verus! {

/// One migration: the versions it is for, and the action that performs it.
pub struct Migration {
    pub range: VersionRange,
    pub action: ActionImplementation,
}

/// The migrations of a package.
pub struct Migrations {
    pub from: Vec<Migration>,
    pub to: Vec<Migration>,
}

/// The place of the first migration among `list` whose range admits `v`,
/// or `list.len()`.
pub open spec fn first_for(list: Seq<Migration>, v: Version, from: int) -> int
    decreases list.len() - from,
{
    if from < 0 || from >= list.len() {
        list.len() as int
    } else if admits(list[from].range, v) {
        from
    } else {
        first_for(list, v, from + 1)
    }
}

/// The first migration among `list` whose range admits `v`.
fn find_for(list: &Vec<Migration>, v: &Version) -> (r: Option<usize>)
    ensures
        r is Some <==> first_for(list@, *v, 0) < list@.len(),
        r matches Some(i) ==> i == first_for(list@, *v, 0),
{
    let mut i: usize = 0;
    while i < list.len()
        invariant
            i <= list@.len(),
            first_for(list@, *v, 0) == first_for(list@, *v, i as int),
        decreases list@.len() - i,
    {
        if list[i].range.admits_version(v) {
            return Some(i);
        }
        i = i + 1;
    }
    None
}

impl Migrations {
    /// The action that carries data over from version `v`: the first
    /// declared one whose range admits `v`.
    pub fn from_version(&self, v: &Version) -> (r: Option<&ActionImplementation>)
        ensures
            r is Some <==> first_for(self.from@, *v, 0) < self.from@.len(),
            r matches Some(a) ==> *a == self.from@[first_for(self.from@, *v, 0)].action,
    {
        match find_for(&self.from, v) {
            Some(i) => Some(&self.from[i].action),
            None => None,
        }
    }

    /// The action that carries data over to version `v`: the first declared
    /// one whose range admits `v`.
    pub fn to_version(&self, v: &Version) -> (r: Option<&ActionImplementation>)
        ensures
            r is Some <==> first_for(self.to@, *v, 0) < self.to@.len(),
            r matches Some(a) ==> *a == self.to@[first_for(self.to@, *v, 0)].action,
    {
        match find_for(&self.to, v) {
            Some(i) => Some(&self.to[i].action),
            None => None,
        }
    }
}

impl Default for Migrations {
    fn default() -> (m: Migrations)
        ensures
            m.from@.len() == 0,
            m.to@.len() == 0,
    {
        Migrations { from: Vec::new(), to: Vec::new() }
    }
}

} // verus!
