//! A map from text keys to values that keeps its entries in the order in
//! which their keys were first inserted.

use vstd::prelude::*;

verus! {

/// No key occurs twice among `s`.
pub open spec fn keys_distinct<V>(s: Seq<(Seq<char>, V)>) -> bool {
    forall|i: int, j: int| 0 <= i < j < s.len() ==> (#[trigger] s[i]).0 != (#[trigger] s[j]).0
}

/// The keys of `s`, in their order.
pub open spec fn names_in<V>(s: Seq<(Seq<char>, V)>) -> Seq<Seq<char>> {
    Seq::new(s.len(), |i: int| s[i].0)
}

/// The position of `key` among `s`, or `s.len()` where it does not occur.
pub open spec fn position<V>(s: Seq<(Seq<char>, V)>, key: Seq<char>) -> int
    decreases s.len(),
{
    if s.len() == 0 {
        0
    } else if s[0].0 == key {
        0
    } else {
        1 + position(s.drop_first(), key)
    }
}

/// Does `key` occur among `s`?
pub open spec fn has_key<V>(s: Seq<(Seq<char>, V)>, key: Seq<char>) -> bool {
    exists|i: int| 0 <= i < s.len() && (#[trigger] s[i]).0 == key
}

/// The value that `s` holds for `key`.
pub open spec fn lookup<V>(s: Seq<(Seq<char>, V)>, key: Seq<char>) -> Option<V> {
    if has_key(s, key) {
        Some(s[position(s, key)].1)
    } else {
        None
    }
}

/// `s` with `value` at `key`: in place where the key occurs, at the end
/// where it does not.
pub open spec fn upsert<V>(s: Seq<(Seq<char>, V)>, key: Seq<char>, value: V) -> Seq<
    (Seq<char>, V),
> {
    if has_key(s, key) {
        s.update(position(s, key), (key, value))
    } else {
        s.push((key, value))
    }
}

/// `s` without the entry of `key`; the others keep their order.
pub open spec fn without<V>(s: Seq<(Seq<char>, V)>, key: Seq<char>) -> Seq<(Seq<char>, V)> {
    if has_key(s, key) {
        s.remove(position(s, key))
    } else {
        s
    }
}

/// `position` finds the first entry with the key, and with distinct keys
/// the only one.
pub proof fn position_finds<V>(s: Seq<(Seq<char>, V)>, key: Seq<char>)
    ensures
        0 <= position(s, key) <= s.len(),
        has_key(s, key) <==> position(s, key) < s.len(),
        position(s, key) < s.len() ==> s[position(s, key)].0 == key,
        forall|i: int| 0 <= i < position(s, key) ==> (#[trigger] s[i]).0 != key,
    decreases s.len(),
{
    if s.len() == 0 {
    } else if s[0].0 == key {
    } else {
        let t = s.drop_first();
        position_finds(t, key);
        if has_key(s, key) {
            let i = choose|i: int| 0 <= i < s.len() && (#[trigger] s[i]).0 == key;
            assert(t[i - 1].0 == key);
        }
        if position(t, key) < t.len() {
            assert(s[position(t, key) + 1] == t[position(t, key)]);
        }
        assert forall|i: int| 0 <= i < position(s, key) implies (#[trigger] s[i]).0 != key by {
            if i > 0 {
                assert(s[i] == t[i - 1]);
            }
        }
    }
}

/// With distinct keys, the entry at `i` is the one `lookup` finds for its
/// key.
pub proof fn lookup_at<V>(s: Seq<(Seq<char>, V)>, i: int)
    requires
        keys_distinct(s),
        0 <= i < s.len(),
    ensures
        position(s, s[i].0) == i,
        lookup(s, s[i].0) == Some(s[i].1),
{
    position_finds(s, s[i].0);
    let p = position(s, s[i].0);
    if p < i {
        assert(s[p].0 != s[i].0);
    }
}

/// Two lists with the same keys at the same places find every key at the
/// same place.
pub proof fn position_by_keys<A, B>(a: Seq<(Seq<char>, A)>, b: Seq<(Seq<char>, B)>, key: Seq<char>)
    requires
        a.len() == b.len(),
        forall|i: int| 0 <= i < a.len() ==> (#[trigger] a[i]).0 == b[i].0,
    ensures
        position(a, key) == position(b, key),
        has_key(a, key) == has_key(b, key),
{
    position_finds(a, key);
    position_finds(b, key);
    let p = position(a, key);
    let q = position(b, key);
    if p < q {
        assert(a[p].0 == b[p].0);
        assert(b[p].0 != key);
    }
    if q < p {
        assert(a[q].0 == b[q].0);
        assert(a[q].0 != key);
    }
}

/// Putting a value at one key finds it there, and leaves what stands at
/// every other key.
pub proof fn upsert_keeps_others<V>(
    s: Seq<(Seq<char>, V)>,
    key: Seq<char>,
    value: V,
    other: Seq<char>,
)
    ensures
        has_key(upsert(s, key, value), key),
        lookup(upsert(s, key, value), key) == Some(value),
        other != key ==> has_key(upsert(s, key, value), other) == has_key(s, other) && lookup(
            upsert(s, key, value),
            other,
        ) == lookup(s, other),
{
    let after = upsert(s, key, value);
    position_finds(s, key);
    position_finds(s, other);
    position_finds(after, key);
    position_finds(after, other);
    let p = position(s, key);
    if has_key(s, key) {
        assert(after[p].0 == key);
        let a = position(after, key);
        if a < p {
            assert(after[a] == s[a]);
        }
        if other != key {
            let q = position(s, other);
            let r = position(after, other);
            if q < s.len() {
                assert(after[q].0 == other);
                if r < q {
                    assert(after[r].0 == s[r].0);
                }
            } else if r < after.len() {
                assert(after[r].0 == s[r].0);
            }
            if r < after.len() && q < s.len() {
                if q < r {
                    assert(after[q].0 == other);
                }
                assert(after[r] == s[r]);
            }
        }
    } else {
        assert(after[s.len() as int].0 == key);
        let a = position(after, key);
        if a < s.len() {
            assert(after[a] == s[a]);
        }
        if other != key {
            let q = position(s, other);
            let r = position(after, other);
            if q < s.len() {
                assert(after[q] == s[q]);
                if r < q {
                    assert(after[r] == s[r]);
                }
            } else if r < after.len() {
                if r < s.len() {
                    assert(after[r] == s[r]);
                }
            }
        }
    }
}

/// Taking the entry of one key out leaves what stands at every other key;
/// and where no key occurs twice, the key is gone.
pub proof fn without_keeps_others<V>(s: Seq<(Seq<char>, V)>, key: Seq<char>, other: Seq<char>)
    ensures
        other != key ==> has_key(without(s, key), other) == has_key(s, other) && lookup(
            without(s, key),
            other,
        ) == lookup(s, other),
        keys_distinct(s) ==> !has_key(without(s, key), key),
{
    let after = without(s, key);
    position_finds(s, key);
    position_finds(s, other);
    position_finds(after, key);
    position_finds(after, other);
    if has_key(s, key) {
        let p = position(s, key);
        if other != key {
            let q = position(s, other);
            let r = position(after, other);
            if q < s.len() {
                let q2 = if q < p {
                    q
                } else {
                    q - 1
                };
                assert(after[q2] == s[q]);
                if r < q2 {
                    let r0 = if r < p {
                        r
                    } else {
                        r + 1
                    };
                    assert(after[r] == s[r0]);
                }
            } else if r < after.len() {
                let r0 = if r < p {
                    r
                } else {
                    r + 1
                };
                assert(after[r] == s[r0]);
            }
        }
        if keys_distinct(s) {
            let r = position(after, key);
            if r < after.len() {
                let r0 = if r < p {
                    r
                } else {
                    r + 1
                };
                assert(after[r] == s[r0]);
                if r0 < p {
                    assert(s[r0].0 != s[p].0);
                } else {
                    assert(s[p].0 != s[r0].0);
                }
            }
        }
    }
}

/// One entry of an ordered map.
#[derive(Debug)]
pub struct Entry<V> {
    pub key: String,
    pub value: V,
}

/// An insertion-ordered map from text to `V`.
#[derive(Debug)]
pub struct OrderedMap<V> {
    entries: Vec<Entry<V>>,
}

impl<V> View for OrderedMap<V> {
    type V = Seq<(Seq<char>, V)>;

    closed spec fn view(&self) -> Seq<(Seq<char>, V)> {
        Seq::new(self.entries@.len(), |i: int| (self.entries@[i].key@, self.entries@[i].value))
    }
}

impl<V> OrderedMap<V> {
    #[verifier::type_invariant]
    closed spec fn distinct(self) -> bool {
        keys_distinct(self@)
    }

    /// The empty map.
    pub fn new() -> (m: OrderedMap<V>)
        ensures
            m@ == Seq::<(Seq<char>, V)>::empty(),
    {
        let m = OrderedMap { entries: Vec::new() };
        assert(m@ =~= Seq::<(Seq<char>, V)>::empty());
        m
    }

    /// Calls to mind that the keys of a map are distinct. Does nothing when
    /// run.
    pub fn keys_are_distinct(&self)
        ensures
            keys_distinct(self@),
    {
        proof {
            use_type_invariant(self);
        }
    }

    /// The number of entries.
    pub fn len(&self) -> (n: usize)
        ensures
            n == self@.len(),
    {
        self.entries.len()
    }

    /// The key of the `i`-th entry.
    pub fn key_at(&self, i: usize) -> (k: &str)
        requires
            i < self@.len(),
        ensures
            k@ == self@[i as int].0,
    {
        self.entries[i].key.as_str()
    }

    /// The value of the `i`-th entry.
    pub fn value_at(&self, i: usize) -> (v: &V)
        requires
            i < self@.len(),
        ensures
            *v == self@[i as int].1,
    {
        &self.entries[i].value
    }

    /// Where `key` stands, if it does.
    pub fn find(&self, key: &str) -> (r: Option<usize>)
        ensures
            r is Some <==> has_key(self@, key@),
            r matches Some(i) ==> i == position(self@, key@) && i < self@.len(),
    {
        proof {
            position_finds(self@, key@);
        }
        let mut i: usize = 0;
        while i < self.entries.len()
            invariant
                i <= self.entries.len(),
                self@.len() == self.entries@.len(),
                forall|j: int| 0 <= j < i ==> (#[trigger] self@[j]).0 != key@,
                0 <= position(self@, key@) <= self@.len(),
                has_key(self@, key@) <==> position(self@, key@) < self@.len(),
                position(self@, key@) < self@.len() ==> self@[position(self@, key@)].0 == key@,
                forall|j: int| 0 <= j < position(self@, key@) ==> (#[trigger] self@[j]).0 != key@,
            decreases self.entries.len() - i,
        {
            let k = self.entries[i].key.as_str();
            if same_text(k, key) {
                assert(self@[i as int].0 == key@);
                return Some(i);
            }
            i = i + 1;
        }
        None
    }

    /// Does the map hold `key`?
    pub fn contains_key(&self, key: &str) -> (b: bool)
        ensures
            b == has_key(self@, key@),
    {
        self.find(key).is_some()
    }

    /// The value at `key`.
    pub fn get(&self, key: &str) -> (r: Option<&V>)
        ensures
            r is Some <==> has_key(self@, key@),
            r matches Some(v) ==> Some(*v) == lookup(self@, key@),
    {
        match self.find(key) {
            Some(i) => Some(&self.entries[i].value),
            None => None,
        }
    }

    /// Takes the entries out and leaves the map empty.
    fn take_entries(&mut self) -> (entries: Vec<Entry<V>>)
        ensures
            final(self)@.len() == 0,
            entries@.len() == old(self)@.len(),
            forall|i: int|
                0 <= i < entries@.len() ==> (#[trigger] entries@[i]).key@ == old(self)@[i].0
                    && entries@[i].value == old(self)@[i].1,
            keys_distinct(old(self)@),
    {
        proof {
            use_type_invariant(&*self);
        }
        let mut other = OrderedMap { entries: Vec::new() };
        core::mem::swap(self, &mut other);
        other.entries
    }

    /// Puts `value` at `key`. An existing key keeps its place and hands back
    /// the value it had; a new key goes to the end.
    pub fn insert(&mut self, key: String, value: V) -> (previous: Option<V>)
        ensures
            final(self)@ == upsert(old(self)@, key@, value),
            previous == lookup(old(self)@, key@),
    {
        proof {
            position_finds(self@, key@);
        }
        let ghost before = self@;
        let found = self.find(key.as_str());
        let mut entries = self.take_entries();
        match found {
            Some(i) => {
                let taken = entries.remove(i);
                entries.insert(i, Entry { key, value });
                proof {
                    let after = OrderedMap { entries };
                    assert(after@ =~= before.update(i as int, (key@, value)));
                    assert forall|a: int, b: int| 0 <= a < b < after@.len() implies (
                    #[trigger] after@[a]).0 != (#[trigger] after@[b]).0 by {
                        assert(before[a].0 != before[b].0);
                    }
                }
                *self = OrderedMap { entries };
                Some(taken.value)
            },
            None => {
                entries.push(Entry { key, value });
                proof {
                    let after = OrderedMap { entries };
                    assert(after@ =~= before.push((key@, value)));
                    assert forall|a: int, b: int| 0 <= a < b < after@.len() implies (
                    #[trigger] after@[a]).0 != (#[trigger] after@[b]).0 by {
                        if b < before.len() {
                            assert(before[a].0 != before[b].0);
                        } else {
                            assert(before[a].0 != key@);
                        }
                    }
                }
                *self = OrderedMap { entries };
                None
            },
        }
    }

    /// Takes the entry of `key` out; the others keep their order.
    pub fn remove(&mut self, key: &str) -> (previous: Option<V>)
        ensures
            final(self)@ == without(old(self)@, key@),
            previous == lookup(old(self)@, key@),
    {
        let ghost before = self@;
        let found = self.find(key);
        match found {
            Some(i) => {
                let mut entries = self.take_entries();
                let taken = entries.remove(i);
                proof {
                    let after = OrderedMap { entries };
                    assert(after@ =~= before.remove(i as int));
                    assert forall|a: int, b: int| 0 <= a < b < after@.len() implies (
                    #[trigger] after@[a]).0 != (#[trigger] after@[b]).0 by {
                        let a0 = if a < i { a } else { a + 1 };
                        let b0 = if b < i { b } else { b + 1 };
                        assert(before[a0].0 != before[b0].0);
                    }
                }
                *self = OrderedMap { entries };
                Some(taken.value)
            },
            None => None,
        }
    }

    /// Puts `value` in place of the value of the `i`-th entry, and hands the
    /// old value back.
    pub fn replace_value_at(&mut self, i: usize, value: V) -> (previous: V)
        requires
            i < old(self)@.len(),
        ensures
            final(self)@ == old(self)@.update(i as int, (old(self)@[i as int].0, value)),
            previous == old(self)@[i as int].1,
    {
        let ghost before = self@;
        let mut entries = self.take_entries();
        let taken = entries.remove(i);
        entries.insert(i, Entry { key: taken.key, value });
        proof {
            let after = OrderedMap { entries };
            assert(after@ =~= before.update(i as int, (before[i as int].0, value)));
            assert forall|a: int, b: int| 0 <= a < b < after@.len() implies (#[trigger] after@[a]).0
                != (#[trigger] after@[b]).0 by {
                assert(before[a].0 != before[b].0);
            }
        }
        *self = OrderedMap { entries };
        taken.value
    }

    /// Replaces the value of the `i`-th entry.
    pub fn set_value_at(&mut self, i: usize, value: V)
        requires
            i < old(self)@.len(),
        ensures
            final(self)@ == old(self)@.update(i as int, (old(self)@[i as int].0, value)),
    {
        let ghost before = self@;
        let mut entries = self.take_entries();
        let taken = entries.remove(i);
        entries.insert(i, Entry { key: taken.key, value });
        proof {
            let after = OrderedMap { entries };
            assert(after@ =~= before.update(i as int, (before[i as int].0, value)));
            assert forall|a: int, b: int| 0 <= a < b < after@.len() implies (#[trigger] after@[a]).0
                != (#[trigger] after@[b]).0 by {
                assert(before[a].0 != before[b].0);
            }
        }
        *self = OrderedMap { entries };
    }
}

/// Puts `value` at `key` in the map that `all` holds at `outer`; where it
/// holds none there, one is made.
pub fn insert_under<V>(all: &mut OrderedMap<OrderedMap<V>>, outer: &str, key: String, value: V)
    ensures
        lookup(final(all)@, outer@) matches Some(inner) && inner@ == upsert(
            match lookup(old(all)@, outer@) {
                Some(before) => before@,
                None => Seq::empty(),
            },
            key@,
            value,
        ) && final(all)@ == upsert(old(all)@, outer@, inner),
{
    proof {
        position_finds(all@, outer@);
    }
    match all.find(outer) {
        Some(i) => {
            let mut inner = all.replace_value_at(i, OrderedMap::new());
            inner.insert(key, value);
            proof {
                upsert_keeps_others(old(all)@, outer@, inner, outer@);
            }
            all.set_value_at(i, inner);
            assert(all@ =~= upsert(old(all)@, outer@, inner));
        },
        None => {
            let mut inner: OrderedMap<V> = OrderedMap::new();
            inner.insert(key, value);
            proof {
                upsert_keeps_others(old(all)@, outer@, inner, outer@);
            }
            all.insert(outer.to_owned(), inner);
        },
    }
}

impl<V: Clone> Clone for OrderedMap<V> {
    /// The same keys in the same order, each with a clone of its value.
    fn clone(&self) -> (r: OrderedMap<V>)
        ensures
            r@.len() == self@.len(),
            forall|i: int|
                0 <= i < self@.len() ==> (#[trigger] r@[i]).0 == self@[i].0 && cloned::<V>(
                    self@[i].1,
                    r@[i].1,
                ),
    {
        proof {
            use_type_invariant(self);
        }
        let mut entries: Vec<Entry<V>> = Vec::new();
        let mut i: usize = 0;
        while i < self.entries.len()
            invariant
                i <= self.entries@.len(),
                entries@.len() == i,
                forall|j: int|
                    0 <= j < i ==> (#[trigger] entries@[j]).key@ == self.entries@[j].key@
                        && cloned::<V>(self.entries@[j].value, entries@[j].value),
            decreases self.entries@.len() - i,
        {
            let key = self.entries[i].key.clone();
            let value = self.entries[i].value.clone();
            entries.push(Entry { key, value });
            i = i + 1;
        }
        proof {
            let r = OrderedMap { entries };
            assert forall|a: int, b: int| 0 <= a < b < r@.len() implies (#[trigger] r@[a]).0 != (
            #[trigger] r@[b]).0 by {
                assert(self@[a].0 != self@[b].0);
            }
        }
        OrderedMap { entries }
    }
}

/// Are the two texts the same?
pub fn same_text(a: &str, b: &str) -> (r: bool)
    ensures
        r == (a@ == b@),
{
    let x = a.to_owned();
    let y = b.to_owned();
    x == y
}

} // verus!
