//! Character sequences: conversion from and to `String`, and the small
//! text operations the rest of the library is stated over.

use vstd::prelude::*;
use vstd::string::*;

verus! {

/// `String::push` appends exactly one character.
#[verifier::external_body]
fn string_push(s: &mut String, c: char)
    ensures
        final(s)@ == old(s)@.push(c),
{
    s.push(c);
}

/// `String::from_utf8`: the text that `bytes` encode, or `None` where they
/// are no UTF-8.
#[verifier::external_body]
pub(crate) fn string_from_utf8(bytes: Vec<u8>) -> (r: Option<String>)
    ensures
        r is Some <==> vstd::utf8::valid_utf8(bytes@),
        r matches Some(s) ==> s@ == vstd::utf8::decode_utf8(bytes@),
{
    String::from_utf8(bytes).ok()
}

/// The characters of `s`, in order.
pub fn chars_of(s: &str) -> (v: Vec<char>)
    ensures
        v@ == s@,
{
    let n = s.unicode_len();
    let mut v: Vec<char> = Vec::new();
    let mut i: usize = 0;
    while i < n
        invariant
            n == s@.len(),
            i <= n,
            v@ == s@.subrange(0, i as int),
        decreases n - i,
    {
        let c = s.get_char(i);
        v.push(c);
        i = i + 1;
    }
    v
}

/// The string that holds exactly the characters of `v`.
pub fn string_of(v: &Vec<char>) -> (s: String)
    ensures
        s@ == v@,
{
    let mut s = String::new();
    let mut i: usize = 0;
    while i < v.len()
        invariant
            i <= v.len(),
            s@ == v@.subrange(0, i as int),
        decreases v.len() - i,
    {
        string_push(&mut s, v[i]);
        i = i + 1;
    }
    s
}

/// Is `c` one of `0-9`, `a-z`, `A-Z`?
pub open spec fn is_alphanumeric(c: char) -> bool {
    ('0' <= c && c <= '9') || ('a' <= c && c <= 'z') || ('A' <= c && c <= 'Z')
}

pub fn alphanumeric(c: char) -> (b: bool)
    ensures
        b == is_alphanumeric(c),
{
    (c >= '0' && c <= '9') || (c >= 'a' && c <= 'z') || (c >= 'A' && c <= 'Z')
}

/// Does `s` begin with `prefix`?
pub open spec fn has_prefix(s: Seq<char>, prefix: Seq<char>) -> bool {
    prefix.len() <= s.len() && s.subrange(0, prefix.len() as int) == prefix
}

pub fn starts_with(s: &Vec<char>, prefix: &Vec<char>) -> (b: bool)
    ensures
        b == has_prefix(s@, prefix@),
{
    if prefix.len() > s.len() {
        return false;
    }
    let mut i: usize = 0;
    while i < prefix.len()
        invariant
            i <= prefix.len(),
            prefix.len() <= s.len(),
            forall|j: int| 0 <= j < i ==> s@[j] == prefix@[j],
        decreases prefix.len() - i,
    {
        if s[i] != prefix[i] {
            assert(s@.subrange(0, prefix@.len() as int)[i as int] != prefix@[i as int]);
            return false;
        }
        i = i + 1;
    }
    assert(s@.subrange(0, prefix@.len() as int) =~= prefix@);
    true
}

/// The first place at or after `from` where `c` stands in `s`, or `s.len()`
/// where it stands nowhere from there on.
pub open spec fn first_index_from(s: Seq<char>, c: char, from: int) -> int
    decreases s.len() - from,
{
    if from >= s.len() {
        s.len() as int
    } else if s[from] == c {
        from
    } else {
        first_index_from(s, c, from + 1)
    }
}

/// The first place where `c` stands in `s`, or `s.len()`.
pub open spec fn first_index(s: Seq<char>, c: char) -> int {
    first_index_from(s, c, 0)
}

/// What `first_index_from` finds: the place holds `c`, and no place between
/// `from` and it does.
pub proof fn first_index_finds(s: Seq<char>, c: char, from: int)
    requires
        0 <= from <= s.len(),
    ensures
        from <= first_index_from(s, c, from) <= s.len(),
        first_index_from(s, c, from) < s.len() ==> s[first_index_from(s, c, from)] == c,
        forall|i: int| from <= i < first_index_from(s, c, from) ==> s[i] != c,
    decreases s.len() - from,
{
    if from >= s.len() {
    } else if s[from] == c {
    } else {
        first_index_finds(s, c, from + 1);
    }
}

/// A place that holds `c`, with none before it from `from` on, is the first.
pub proof fn first_index_is(s: Seq<char>, c: char, from: int, at: int)
    requires
        0 <= from <= at <= s.len(),
        at < s.len() ==> s[at] == c,
        forall|i: int| from <= i < at ==> s[i] != c,
    ensures
        first_index_from(s, c, from) == at,
    decreases at - from,
{
    if from < at {
        first_index_is(s, c, from + 1, at);
    }
}

/// The first place at or after `from` where `c` stands in `s`.
pub fn find_char(s: &Vec<char>, c: char, from: usize) -> (at: usize)
    requires
        from <= s.len(),
    ensures
        at == first_index_from(s@, c, from as int),
        from <= at <= s.len(),
{
    let mut i: usize = from;
    while i < s.len()
        invariant
            from <= i <= s.len(),
            forall|j: int| from <= j < i ==> s@[j] != c,
        decreases s.len() - i,
    {
        if s[i] == c {
            proof {
                first_index_is(s@, c, from as int, i as int);
            }
            return i;
        }
        i = i + 1;
    }
    proof {
        first_index_is(s@, c, from as int, i as int);
    }
    i
}

/// The parts of `s` between occurrences of `sep`, read from place `from`
/// on, where the part being read began at `start`.
pub open spec fn split_from(s: Seq<char>, sep: char, from: int, start: int) -> Seq<Seq<char>>
    decreases s.len() - from,
{
    if from < 0 || from >= s.len() {
        seq![s.subrange(start, s.len() as int)]
    } else if s[from] == sep {
        seq![s.subrange(start, from)] + split_from(s, sep, from + 1, from + 1)
    } else {
        split_from(s, sep, from + 1, start)
    }
}

/// The parts of `s` between occurrences of `sep`; a text without `sep` is
/// one part.
pub open spec fn split(s: Seq<char>, sep: char) -> Seq<Seq<char>> {
    split_from(s, sep, 0, 0)
}

/// The characters of `v` from `from` up to `to`.
pub fn slice_of(v: &Vec<char>, from: usize, to: usize) -> (r: Vec<char>)
    requires
        from <= to <= v@.len(),
    ensures
        r@ == v@.subrange(from as int, to as int),
{
    let mut r: Vec<char> = Vec::new();
    let mut i: usize = from;
    while i < to
        invariant
            from <= i <= to <= v@.len(),
            r@ == v@.subrange(from as int, i as int),
        decreases to - i,
    {
        r.push(v[i]);
        assert(r@ =~= v@.subrange(from as int, i as int + 1));
        i = i + 1;
    }
    r
}

/// The parts of `s` between occurrences of `sep`.
pub fn split_chars(s: &Vec<char>, sep: char) -> (parts: Vec<Vec<char>>)
    ensures
        parts@.len() == split(s@, sep).len(),
        forall|i: int| 0 <= i < parts@.len() ==> (#[trigger] parts@[i])@ == split(s@, sep)[i],
        parts@.len() >= 1,
{
    let mut parts: Vec<Vec<char>> = Vec::new();
    let mut start: usize = 0;
    let mut i: usize = 0;
    let ghost all = split(s@, sep);
    while i < s.len()
        invariant
            start <= i <= s@.len(),
            all == split(s@, sep),
            all.len() == parts@.len() + split_from(s@, sep, i as int, start as int).len(),
            forall|k: int|
                0 <= k < split_from(s@, sep, i as int, start as int).len() ==> all[parts@.len() + k]
                    == split_from(s@, sep, i as int, start as int)[k],
            forall|k: int| 0 <= k < parts@.len() ==> (#[trigger] parts@[k])@ == all[k],
        decreases s@.len() - i,
    {
        let ghost rest = split_from(s@, sep, i as int, start as int);
        if s[i] == sep {
            parts.push(slice_of(s, start, i));
            proof {
                let next = split_from(s@, sep, i as int + 1, i as int + 1);
                assert(rest =~= seq![s@.subrange(start as int, i as int)] + next);
                assert(all[parts@.len() - 1] == rest[0]);
                assert forall|k: int| 0 <= k < next.len() implies all[parts@.len() + k]
                    == next[k] by {
                    assert(rest[k + 1] == next[k]);
                }
            }
            start = i + 1;
        }
        i = i + 1;
    }
    proof {
        let rest = split_from(s@, sep, i as int, start as int);
        assert(rest.len() == 1);
        assert(all[parts@.len() as int] == rest[0]);
    }
    parts.push(slice_of(s, start, s.len()));
    parts
}

/// Does `c` stand nowhere in `s`?
pub open spec fn lacks(s: Seq<char>, c: char) -> bool {
    forall|i: int| 0 <= i < s.len() ==> s[i] != c
}

/// The texts of `v`.
pub open spec fn texts(v: Seq<String>) -> Seq<Seq<char>> {
    Seq::new(v.len(), |i: int| v[i]@)
}

/// Appends `s` to `v`.
pub fn push_text(v: &mut Vec<String>, s: String)
    ensures
        texts(final(v)@) == texts(old(v)@).push(s@),
{
    v.push(s);
    assert(texts(v@) =~= texts(old(v)@).push(s@));
}

/// A copy of `v`.
pub fn clone_strings(v: &Vec<String>) -> (copy: Vec<String>)
    ensures
        texts(copy@) == texts(v@),
{
    let mut copy: Vec<String> = Vec::new();
    let mut i: usize = 0;
    while i < v.len()
        invariant
            i <= v@.len(),
            copy@.len() == i,
            forall|j: int| 0 <= j < i ==> (#[trigger] copy@[j])@ == v@[j]@,
        decreases v@.len() - i,
    {
        copy.push(v[i].clone());
        i = i + 1;
    }
    assert(texts(copy@) =~= texts(v@));
    copy
}

/// Is `s` one of `v`?
pub fn contains_text(v: &Vec<String>, s: &str) -> (b: bool)
    ensures
        b == texts(v@).contains(s@),
{
    let mut i: usize = 0;
    while i < v.len()
        invariant
            i <= v@.len(),
            forall|j: int| 0 <= j < i ==> (#[trigger] texts(v@)[j]) != s@,
        decreases v@.len() - i,
    {
        if crate::ordered_map::same_text(v[i].as_str(), s) {
            assert(texts(v@)[i as int] == s@);
            return true;
        }
        i = i + 1;
    }
    false
}

} // verus!
