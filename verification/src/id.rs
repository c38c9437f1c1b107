//! Identifiers: constrained strings that serve as keys and as path
//! segments.

use vstd::prelude::*;
use crate::text::{alphanumeric, chars_of, has_prefix, is_alphanumeric, starts_with};

verus! {

/// May `c` occur in an identifier?
pub open spec fn is_id_char(c: char) -> bool {
    is_alphanumeric(c) || c == '-'
}

/// The prefix of the names that are set aside for the system.
pub open spec fn reserved_prefix() -> Seq<char> {
    seq!['s', 't', 'a', 'r', 't', '9']
}

/// An identifier is a non-empty run of letters, digits and hyphens.
pub open spec fn is_id(s: Seq<char>) -> bool {
    s.len() > 0 && forall|i: int| 0 <= i < s.len() ==> is_id_char(#[trigger] s[i])
}

/// A package identifier is an identifier outside the reserved namespace.
pub open spec fn is_package_id(s: Seq<char>) -> bool {
    is_id(s) && !has_prefix(s, reserved_prefix())
}

/// The reason an identifier was refused.
#[derive(Clone, Copy, Debug, PartialEq, Eq, Structural)]
pub enum InvalidId {
    /// The text is empty.
    Empty,
    /// The text holds a character other than a letter, a digit or a hyphen.
    Character,
    /// The text starts with the reserved prefix.
    Reserved,
}

/// Decides whether `s` is an identifier.
pub fn check_id(s: &Vec<char>) -> (r: Result<(), InvalidId>)
    ensures
        r is Ok <==> is_id(s@),
        r == Err::<(), InvalidId>(InvalidId::Empty) <==> s@.len() == 0,
        r is Err ==> r == Err::<(), InvalidId>(InvalidId::Empty) || r == Err::<(), InvalidId>(
            InvalidId::Character,
        ),
{
    if s.len() == 0 {
        return Err(InvalidId::Empty);
    }
    let mut i: usize = 0;
    while i < s.len()
        invariant
            i <= s.len(),
            forall|j: int| 0 <= j < i ==> is_id_char(#[trigger] s@[j]),
        decreases s.len() - i,
    {
        let c = s[i];
        if !(alphanumeric(c) || c == '-') {
            return Err(InvalidId::Character);
        }
        i = i + 1;
    }
    Ok(())
}

/// The reserved prefix, as characters.
pub fn reserved() -> (v: Vec<char>)
    ensures
        v@ == reserved_prefix(),
{
    let mut v: Vec<char> = Vec::new();
    v.push('s');
    v.push('t');
    v.push('a');
    v.push('r');
    v.push('t');
    v.push('9');
    assert(v@ =~= reserved_prefix());
    v
}

/// A generic identifier: interfaces, health checks, images, actions and
/// custom volumes are named by one.
#[derive(Debug)]
pub struct Id {
    text: String,
}

impl View for Id {
    type V = Seq<char>;

    closed spec fn view(&self) -> Seq<char> {
        self.text@
    }
}

impl Id {
    #[verifier::type_invariant]
    closed spec fn valid(self) -> bool {
        is_id(self.text@)
    }

    /// Accepts `s` if and only if it is an identifier.
    pub fn new(s: &str) -> (r: Result<Id, InvalidId>)
        ensures
            r is Ok <==> is_id(s@),
            r matches Ok(id) ==> id@ == s@,
            r matches Err(e) ==> (e == InvalidId::Empty <==> s@.len() == 0) && e
                != InvalidId::Reserved,
    {
        let v = chars_of(s);
        match check_id(&v) {
            Ok(()) => Ok(Id { text: s.to_owned() }),
            Err(e) => Err(e),
        }
    }

    pub fn as_str(&self) -> (s: &str)
        ensures
            s@ == self@,
            is_id(s@),
    {
        proof {
            use_type_invariant(self);
        }
        self.text.as_str()
    }

    pub fn same(&self, other: &Id) -> (b: bool)
        ensures
            b == (self@ == other@),
    {
        self.text == other.text
    }
}

impl Clone for Id {
    fn clone(&self) -> (r: Id)
        ensures
            r == *self,
    {
        proof {
            use_type_invariant(self);
        }
        Id { text: self.text.clone() }
    }
}

/// The identifier of a package: primary key of the installed set, and a
/// path segment.
#[derive(Debug)]
pub struct PackageId {
    text: String,
}

impl View for PackageId {
    type V = Seq<char>;

    closed spec fn view(&self) -> Seq<char> {
        self.text@
    }
}

impl PackageId {
    #[verifier::type_invariant]
    closed spec fn valid(self) -> bool {
        is_package_id(self.text@)
    }

    /// Accepts `s` if and only if it is a package identifier.
    pub fn new(s: &str) -> (r: Result<PackageId, InvalidId>)
        ensures
            r is Ok <==> is_package_id(s@),
            r matches Ok(id) ==> id@ == s@,
            r matches Err(e) ==> {
                &&& e == InvalidId::Empty <==> s@.len() == 0
                &&& e == InvalidId::Reserved <==> is_id(s@)
            },
    {
        let v = chars_of(s);
        match check_id(&v) {
            Ok(()) => {
                let prefix = reserved();
                if starts_with(&v, &prefix) {
                    Err(InvalidId::Reserved)
                } else {
                    Ok(PackageId { text: s.to_owned() })
                }
            },
            Err(e) => Err(e),
        }
    }

    pub fn as_str(&self) -> (s: &str)
        ensures
            s@ == self@,
            is_package_id(s@),
    {
        proof {
            use_type_invariant(self);
        }
        self.text.as_str()
    }

    pub fn same(&self, other: &PackageId) -> (b: bool)
        ensures
            b == (self@ == other@),
    {
        self.text == other.text
    }
}

impl Clone for PackageId {
    fn clone(&self) -> (r: PackageId)
        ensures
            r == *self,
    {
        proof {
            use_type_invariant(self);
        }
        PackageId { text: self.text.clone() }
    }
}

} // verus!
