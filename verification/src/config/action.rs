//! The two actions by which a package's configuration is read and
//! written.

use vstd::prelude::*;
use crate::action::ActionImplementation;
use crate::action::docker::Failure;
use crate::config::spec::ConfigSpec;
use crate::config::value::Property;
use crate::dependencies::DepInfo;
use crate::error::{Error, ErrorKind};
use crate::ordered_map::{has_key, OrderedMap};

verus! {

/// What the action that reads the configuration hands back: the
/// configuration, where the package has one, and its schema.
pub struct ConfigRes {
    pub config: Option<Vec<Property>>,
    pub spec: ConfigSpec,
}

/// The actions that read and write the configuration.
pub struct ConfigActions {
    pub get: ActionImplementation,
    pub set: ActionImplementation,
}

/// The entries of `found` whose package is a declared dependency, in
/// their order.
pub open spec fn declared_only<V>(found: Seq<(Seq<char>, V)>, dependencies: Seq<(Seq<char>, DepInfo)>)
    -> Seq<(Seq<char>, V)>
    decreases found.len(),
{
    if found.len() == 0 {
        Seq::empty()
    } else if has_key(dependencies, found.last().0) {
        declared_only(found.drop_last(), dependencies).push(found.last())
    } else {
        declared_only(found.drop_last(), dependencies)
    }
}

/// Every entry that is kept was there before.
pub proof fn declared_only_keeps_keys<V>(
    found: Seq<(Seq<char>, V)>,
    dependencies: Seq<(Seq<char>, DepInfo)>,
    key: Seq<char>,
)
    ensures
        has_key(declared_only(found, dependencies), key) ==> has_key(found, key),
    decreases found.len(),
{
    if found.len() > 0 {
        let kept = declared_only(found, dependencies);
        if has_key(kept, key) {
            let i = choose|i: int| 0 <= i < kept.len() && (#[trigger] kept[i]).0 == key;
            let rest = declared_only(found.drop_last(), dependencies);
            if i < rest.len() {
                assert(rest[i].0 == key);
                declared_only_keeps_keys(found.drop_last(), dependencies, key);
                let j = choose|j: int|
                    0 <= j < found.drop_last().len() && (#[trigger] found.drop_last()[j]).0 == key;
                assert(found[j].0 == key);
            } else {
                assert(found[found.len() - 1].0 == key);
            }
        }
    }
}

impl ConfigActions {
    /// What the end of the action that reads the configuration means: a
    /// failed run is an error of kind `ConfigGen` that carries its standard
    /// error.
    pub fn get(&self, outcome: Result<ConfigRes, Failure>) -> (r: Result<ConfigRes, Error>)
        ensures
            r is Ok <==> outcome is Ok,
            r matches Ok(res) ==> res == outcome->Ok_0,
            r matches Err(e) ==> e.kind == ErrorKind::ConfigGen && e.message
                == outcome->Err_0.stderr,
    {
        match outcome {
            Ok(res) => Ok(res),
            Err(f) => Err(Error::new(f.stderr, ErrorKind::ConfigGen)),
        }
    }

    /// What the end of the action that writes the configuration means: a
    /// failed run is an error of kind `ConfigRulesViolation` that carries its
    /// standard error; a successful one names, by package, the interfaces of
    /// dependencies that are now in use, of which only the declared
    /// dependencies are kept.
    pub fn set(
        &self,
        dependencies: &OrderedMap<DepInfo>,
        outcome: Result<OrderedMap<Vec<String>>, Failure>,
    ) -> (r: Result<OrderedMap<Vec<String>>, Error>)
        ensures
            r is Ok <==> outcome is Ok,
            r matches Ok(kept) ==> kept@ == declared_only(outcome->Ok_0@, dependencies@),
            r matches Err(e) ==> e.kind == ErrorKind::ConfigRulesViolation && e.message
                == outcome->Err_0.stderr,
    {
        let found = match outcome {
            Ok(found) => found,
            Err(f) => {
                return Err(Error::new(f.stderr, ErrorKind::ConfigRulesViolation));
            },
        };
        let mut kept: OrderedMap<Vec<String>> = OrderedMap::new();
        let mut found = found;
        let ghost all = found@;
        found.keys_are_distinct();
        let mut i: usize = 0;
        assert(all.take(0) =~= Seq::empty());
        while i < found.len()
            invariant
                i <= found@.len(),
                crate::ordered_map::keys_distinct(all),
                found@.len() == all.len(),
                forall|j: int| 0 <= j < all.len() ==> (#[trigger] found@[j]).0 == all[j].0,
                forall|j: int| i <= j < all.len() ==> (#[trigger] found@[j]) == all[j],
                kept@ == declared_only(all.take(i as int), dependencies@),
            decreases found@.len() - i,
        {
            proof {
                let next = all.take(i as int + 1);
                assert(next.drop_last() =~= all.take(i as int));
                assert(next.last() == all[i as int]);
            }
            if dependencies.contains_key(found.key_at(i)) {
                let key = found.key_at(i).to_owned();
                let value = found.replace_value_at(i, Vec::new());
                proof {
                    declared_only_keeps_keys(all.take(i as int), dependencies@, key@);
                    if has_key(kept@, key@) {
                        let j = choose|j: int|
                            0 <= j < all.take(i as int).len() && (#[trigger] all.take(
                                i as int,
                            )[j]).0 == key@;
                        assert(all[j].0 != all[i as int].0);
                    }
                }
                kept.insert(key, value);
            }
            i = i + 1;
        }
        assert(all.take(i as int) =~= all);
        Ok(kept)
    }
}

} // verus!
