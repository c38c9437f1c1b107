//! Four-part versions and boolean version ranges.

use vstd::prelude::*;
use crate::text::string_of;

verus! {

/// A version `major.minor.patch.revision`, ordered lexicographically.
#[derive(Clone, Copy, Debug, PartialEq, Eq, Structural, Hash)]
pub struct Version {
    pub major: u64,
    pub minor: u64,
    pub patch: u64,
    pub revision: u64,
}

/// How two versions compare.
#[derive(Clone, Copy, Debug, PartialEq, Eq, Structural)]
pub enum Order {
    Less,
    Equal,
    Greater,
}

/// The lexicographic order of two four-tuples.
pub open spec fn order_of(a: Version, b: Version) -> Order {
    if a.major != b.major {
        if a.major < b.major { Order::Less } else { Order::Greater }
    } else if a.minor != b.minor {
        if a.minor < b.minor { Order::Less } else { Order::Greater }
    } else if a.patch != b.patch {
        if a.patch < b.patch { Order::Less } else { Order::Greater }
    } else if a.revision != b.revision {
        if a.revision < b.revision { Order::Less } else { Order::Greater }
    } else {
        Order::Equal
    }
}

impl Version {
    pub fn new(major: u64, minor: u64, patch: u64, revision: u64) -> (v: Version)
        ensures
            v == (Version { major, minor, patch, revision }),
    {
        Version { major, minor, patch, revision }
    }

    /// Compares `self` with `other` part by part, most significant first.
    pub fn compare(&self, other: &Version) -> (o: Order)
        ensures
            o == order_of(*self, *other),
    {
        if self.major != other.major {
            if self.major < other.major { Order::Less } else { Order::Greater }
        } else if self.minor != other.minor {
            if self.minor < other.minor { Order::Less } else { Order::Greater }
        } else if self.patch != other.patch {
            if self.patch < other.patch { Order::Less } else { Order::Greater }
        } else if self.revision != other.revision {
            if self.revision < other.revision { Order::Less } else { Order::Greater }
        } else {
            Order::Equal
        }
    }
}

/// The character of one decimal digit.
pub open spec fn digit_of(d: int) -> char {
    if d == 0 {
        '0'
    } else if d == 1 {
        '1'
    } else if d == 2 {
        '2'
    } else if d == 3 {
        '3'
    } else if d == 4 {
        '4'
    } else if d == 5 {
        '5'
    } else if d == 6 {
        '6'
    } else if d == 7 {
        '7'
    } else if d == 8 {
        '8'
    } else {
        '9'
    }
}

/// The decimal numeral of `n`, without leading zeros.
pub open spec fn decimal(n: nat) -> Seq<char>
    decreases n,
{
    if n < 10 {
        seq![digit_of(n as int)]
    } else {
        decimal(n / 10).push(digit_of((n % 10) as int))
    }
}

fn digit(d: u64) -> (c: char)
    requires
        d < 10,
    ensures
        c == digit_of(d as int),
{
    if d == 0 {
        '0'
    } else if d == 1 {
        '1'
    } else if d == 2 {
        '2'
    } else if d == 3 {
        '3'
    } else if d == 4 {
        '4'
    } else if d == 5 {
        '5'
    } else if d == 6 {
        '6'
    } else if d == 7 {
        '7'
    } else if d == 8 {
        '8'
    } else {
        '9'
    }
}

/// Appends the decimal numeral of `n` to `out`.
pub fn push_decimal(n: u64, out: &mut Vec<char>)
    ensures
        final(out)@ == old(out)@ + decimal(n as nat),
    decreases n,
{
    if n >= 10 {
        push_decimal(n / 10, out);
    }
    out.push(digit(n % 10));
    assert(out@ =~= old(out)@ + decimal(n as nat));
}

/// The canonical text of a version: three parts joined by dots, and the
/// revision as a fourth part unless it is zero.
pub open spec fn version_text(v: Version) -> Seq<char> {
    let three = decimal(v.major as nat) + seq!['.'] + decimal(v.minor as nat) + seq!['.']
        + decimal(v.patch as nat);
    if v.revision == 0 {
        three
    } else {
        three + seq!['.'] + decimal(v.revision as nat)
    }
}

impl Version {
    /// Appends the canonical text of `self` to `out`.
    pub fn push_text(&self, out: &mut Vec<char>)
        ensures
            final(out)@ == old(out)@ + version_text(*self),
    {
        push_decimal(self.major, out);
        out.push('.');
        push_decimal(self.minor, out);
        out.push('.');
        push_decimal(self.patch, out);
        if self.revision != 0 {
            out.push('.');
            push_decimal(self.revision, out);
        }
        assert(out@ =~= old(out)@ + version_text(*self));
    }

    /// The canonical text of `self`.
    pub fn to_string(&self) -> (s: String)
        ensures
            s@ == version_text(*self),
    {
        let mut out: Vec<char> = Vec::new();
        self.push_text(&mut out);
        assert(out@ =~= version_text(*self));
        string_of(&out)
    }

    /// Is `self` admitted by `range`?
    pub fn satisfies(&self, range: &VersionRange) -> (b: bool)
        ensures
            b == admits(*range, *self),
    {
        range.admits_version(self)
    }
}

/// A comparison against an anchor version.
#[derive(Clone, Copy, Debug, PartialEq, Eq, Structural)]
pub enum Operator {
    Gte,
    Lt,
    Neq,
    Eq,
    Lte,
    Gt,
}

/// Does `o`, the order of a version relative to an anchor, meet `op`?
pub open spec fn meets(op: Operator, o: Order) -> bool {
    match op {
        Operator::Gte => o != Order::Less,
        Operator::Lt => o == Order::Less,
        Operator::Neq => o != Order::Equal,
        Operator::Eq => o == Order::Equal,
        Operator::Lte => o != Order::Greater,
        Operator::Gt => o == Order::Greater,
    }
}

/// A boolean expression over versions.
#[derive(Debug)]
pub enum VersionRange {
    /// The versions that compare as stated with the anchor.
    Anchor(Operator, Version),
    /// The versions in both ranges.
    Conj(Box<VersionRange>, Box<VersionRange>),
    /// The versions in either range.
    Disj(Box<VersionRange>, Box<VersionRange>),
    /// Every version.
    Any,
    /// No version.
    Nothing,
}

/// The meaning of a range: the versions it admits.
pub open spec fn admits(range: VersionRange, v: Version) -> bool
    decreases range,
{
    match range {
        VersionRange::Anchor(op, anchor) => meets(op, order_of(v, anchor)),
        VersionRange::Conj(a, b) => admits(*a, v) && admits(*b, v),
        VersionRange::Disj(a, b) => admits(*a, v) || admits(*b, v),
        VersionRange::Any => true,
        VersionRange::Nothing => false,
    }
}

/// The text of an operator.
pub open spec fn operator_text(op: Operator) -> Seq<char> {
    match op {
        Operator::Gte => seq!['>', '='],
        Operator::Lt => seq!['<'],
        Operator::Neq => seq!['!', '='],
        Operator::Eq => seq!['='],
        Operator::Lte => seq!['<', '='],
        Operator::Gt => seq!['>'],
    }
}

/// The text of a range inside a conjunction: a disjunction is bracketed.
pub open spec fn factor_text(range: VersionRange) -> Seq<char>
    decreases range, 1nat,
{
    if range is Disj {
        seq!['('] + range_text(range) + seq![')']
    } else {
        range_text(range)
    }
}

/// The text of a range.
pub open spec fn range_text(range: VersionRange) -> Seq<char>
    decreases range, 0nat,
{
    match range {
        VersionRange::Anchor(op, anchor) => operator_text(op) + version_text(anchor),
        VersionRange::Conj(a, b) => factor_text(*a) + seq![' '] + factor_text(*b),
        VersionRange::Disj(a, b) => range_text(*a) + seq![' ', '|', '|', ' '] + range_text(*b),
        VersionRange::Any => seq!['*'],
        VersionRange::Nothing => seq!['!'],
    }
}

impl Operator {
    fn holds(&self, o: Order) -> (b: bool)
        ensures
            b == meets(*self, o),
    {
        match self {
            Operator::Gte => o != Order::Less,
            Operator::Lt => o == Order::Less,
            Operator::Neq => o != Order::Equal,
            Operator::Eq => o == Order::Equal,
            Operator::Lte => o != Order::Greater,
            Operator::Gt => o == Order::Greater,
        }
    }

    fn push_text(&self, out: &mut Vec<char>)
        ensures
            final(out)@ == old(out)@ + operator_text(*self),
    {
        match self {
            Operator::Gte => {
                out.push('>');
                out.push('=');
            },
            Operator::Lt => {
                out.push('<');
            },
            Operator::Neq => {
                out.push('!');
                out.push('=');
            },
            Operator::Eq => {
                out.push('=');
            },
            Operator::Lte => {
                out.push('<');
                out.push('=');
            },
            Operator::Gt => {
                out.push('>');
            },
        }
        assert(out@ =~= old(out)@ + operator_text(*self));
    }
}

impl VersionRange {
    /// The range of the versions that equal `v`.
    pub fn exactly(v: Version) -> (r: VersionRange)
        ensures
            r == VersionRange::Anchor(Operator::Eq, v),
            forall|w: Version| admits(r, w) <==> w == v,
    {
        VersionRange::Anchor(Operator::Eq, v)
    }

    /// The range of the versions that both `a` and `b` admit.
    pub fn conj(a: VersionRange, b: VersionRange) -> (r: VersionRange)
        ensures
            r == VersionRange::Conj(Box::new(a), Box::new(b)),
            forall|v: Version| admits(r, v) <==> admits(a, v) && admits(b, v),
    {
        VersionRange::Conj(Box::new(a), Box::new(b))
    }

    /// The range of the versions that `a` or `b` admits.
    pub fn disj(a: VersionRange, b: VersionRange) -> (r: VersionRange)
        ensures
            r == VersionRange::Disj(Box::new(a), Box::new(b)),
            forall|v: Version| admits(r, v) <==> admits(a, v) || admits(b, v),
    {
        VersionRange::Disj(Box::new(a), Box::new(b))
    }

    /// Does the range admit `v`?
    pub fn admits_version(&self, v: &Version) -> (b: bool)
        ensures
            b == admits(*self, *v),
        decreases self,
    {
        match self {
            VersionRange::Anchor(op, anchor) => op.holds(v.compare(anchor)),
            VersionRange::Conj(a, b) => a.admits_version(v) && b.admits_version(v),
            VersionRange::Disj(a, b) => a.admits_version(v) || b.admits_version(v),
            VersionRange::Any => true,
            VersionRange::Nothing => false,
        }
    }

    fn push_factor(&self, out: &mut Vec<char>)
        ensures
            final(out)@ == old(out)@ + factor_text(*self),
        decreases self, 1nat,
    {
        match self {
            VersionRange::Disj(_, _) => {
                out.push('(');
                self.push_text(out);
                out.push(')');
            },
            _ => {
                self.push_text(out);
            },
        }
        assert(out@ =~= old(out)@ + factor_text(*self));
    }

    /// Appends the text of the range to `out`.
    pub fn push_text(&self, out: &mut Vec<char>)
        ensures
            final(out)@ == old(out)@ + range_text(*self),
        decreases self, 0nat,
    {
        match self {
            VersionRange::Anchor(op, anchor) => {
                op.push_text(out);
                anchor.push_text(out);
            },
            VersionRange::Conj(a, b) => {
                a.push_factor(out);
                out.push(' ');
                b.push_factor(out);
            },
            VersionRange::Disj(a, b) => {
                a.push_text(out);
                out.push(' ');
                out.push('|');
                out.push('|');
                out.push(' ');
                b.push_text(out);
            },
            VersionRange::Any => {
                out.push('*');
            },
            VersionRange::Nothing => {
                out.push('!');
            },
        }
        assert(out@ =~= old(out)@ + range_text(*self));
    }

    /// The text of the range.
    pub fn to_string(&self) -> (s: String)
        ensures
            s@ == range_text(*self),
    {
        let mut out: Vec<char> = Vec::new();
        self.push_text(&mut out);
        assert(out@ =~= range_text(*self));
        string_of(&out)
    }
}

impl Clone for VersionRange {
    fn clone(&self) -> (r: VersionRange)
        ensures
            r == *self,
        decreases self,
    {
        match self {
            VersionRange::Anchor(op, anchor) => VersionRange::Anchor(*op, *anchor),
            VersionRange::Conj(a, b) => VersionRange::Conj(
                Box::new((&**a).clone()),
                Box::new((&**b).clone()),
            ),
            VersionRange::Disj(a, b) => VersionRange::Disj(
                Box::new((&**a).clone()),
                Box::new((&**b).clone()),
            ),
            VersionRange::Any => VersionRange::Any,
            VersionRange::Nothing => VersionRange::Nothing,
        }
    }
}

/// One step of a migration of the host from one of its versions to
/// another.
#[derive(Clone, Copy, Debug, PartialEq, Eq, Structural)]
pub enum MigrationStep {
    /// Carry the record over to this version, from the one before it.
    Up(Version),
    /// Carry the record back from this version, to the one before it.
    Down(Version),
    /// Record that the host is at this version now.
    Commit(Version),
}

/// The place of `v` among `chain`, from place `from` on, or `chain.len()`.
pub open spec fn index_in(chain: Seq<Version>, v: Version, from: int) -> int
    decreases chain.len() - from,
{
    if from < 0 || from >= chain.len() {
        chain.len() as int
    } else if chain[from] == v {
        from
    } else {
        index_in(chain, v, from + 1)
    }
}

/// The steps that carry the record from the version at place `a` up to the
/// one at place `b`: each version after `a`, in order, is migrated to and
/// committed.
pub open spec fn steps_up(chain: Seq<Version>, a: int, b: int) -> Seq<MigrationStep>
    decreases b - a,
{
    if b <= a {
        Seq::empty()
    } else {
        steps_up(chain, a, b - 1).push(MigrationStep::Up(chain[b])).push(
            MigrationStep::Commit(chain[b]),
        )
    }
}

/// The steps that carry the record from the version at place `a` down to
/// the one at place `b`: each version down to the one after `b` is rolled
/// back, and the one before it committed.
pub open spec fn steps_down(chain: Seq<Version>, a: int, b: int) -> Seq<MigrationStep>
    decreases a - b,
{
    if a <= b {
        Seq::empty()
    } else {
        seq![MigrationStep::Down(chain[a]), MigrationStep::Commit(chain[a - 1])] + steps_down(
            chain,
            a - 1,
            b,
        )
    }
}

/// The steps that carry the record from `current` to `target`, where
/// `chain` holds the versions of the host in their order: none where the two
/// are the same, upwards where `target` comes later, downwards where it
/// comes earlier. `None` where one of the two is not in the chain.
pub open spec fn migration(chain: Seq<Version>, current: Version, target: Version) -> Option<
    Seq<MigrationStep>,
> {
    let a = index_in(chain, current, 0);
    let b = index_in(chain, target, 0);
    if a >= chain.len() || b >= chain.len() {
        None
    } else if a <= b {
        Some(steps_up(chain, a, b))
    } else {
        Some(steps_down(chain, a, b))
    }
}

fn find_version(chain: &Vec<Version>, v: &Version) -> (r: usize)
    ensures
        r == index_in(chain@, *v, 0),
        r <= chain@.len(),
{
    let mut i: usize = 0;
    while i < chain.len()
        invariant
            i <= chain@.len(),
            index_in(chain@, *v, 0) == index_in(chain@, *v, i as int),
        decreases chain@.len() - i,
    {
        if chain[i] == *v {
            return i;
        }
        i = i + 1;
    }
    i
}

/// The steps that carry the record of the host from `current` to `target`.
pub fn migrate_to(chain: &Vec<Version>, current: &Version, target: &Version) -> (r: Option<
    Vec<MigrationStep>,
>)
    ensures
        r is Some <==> migration(chain@, *current, *target) is Some,
        r matches Some(steps) ==> Some(steps@) == migration(chain@, *current, *target),
{
    let a = find_version(chain, current);
    let b = find_version(chain, target);
    if a >= chain.len() || b >= chain.len() {
        return None;
    }
    let mut steps: Vec<MigrationStep> = Vec::new();
    if a <= b {
        let mut k: usize = a;
        assert(steps@ =~= steps_up(chain@, a as int, a as int));
        while k < b
            invariant
                a <= k <= b < chain@.len(),
                steps@ == steps_up(chain@, a as int, k as int),
            decreases b - k,
        {
            k = k + 1;
            steps.push(MigrationStep::Up(chain[k]));
            steps.push(MigrationStep::Commit(chain[k]));
        }
    } else {
        let mut k: usize = a;
        assert(steps_down(chain@, a as int, a as int) =~= Seq::empty());
        while k > b
            invariant
                b <= k <= a < chain@.len(),
                steps_down(chain@, a as int, b as int) == steps@ + steps_down(
                    chain@,
                    k as int,
                    b as int,
                ),
            decreases k - b,
        {
            let ghost before = steps@;
            steps.push(MigrationStep::Down(chain[k]));
            steps.push(MigrationStep::Commit(chain[k - 1]));
            assert(steps@ =~= before + seq![
                MigrationStep::Down(chain@[k as int]),
                MigrationStep::Commit(chain@[k - 1]),
            ]);
            k = k - 1;
        }
    }
    Some(steps)
}

/// The order of versions is total: exactly one of less, equal and greater
/// holds, equal means the same four parts, and less is transitive.
pub proof fn version_order_is_total(a: Version, b: Version, c: Version)
    ensures
        order_of(a, b) == Order::Equal <==> a == b,
        order_of(a, b) == Order::Less <==> order_of(b, a) == Order::Greater,
        order_of(a, b) == Order::Less && order_of(b, c) == Order::Less ==> order_of(a, c)
            == Order::Less,
{
}

} // verus!
