//! Addresses on the private bridge: each installed package owns one, taken
//! from a pool and handed back on removal.

use vstd::multiset::Multiset;
use vstd::prelude::*;
use crate::text::string_of;
use crate::version::{decimal, push_decimal};

verus! {

/// `id_pool::IdPool`: a pool of numbers that are handed out and taken
/// back.
#[verifier::external_type_specification]
#[verifier::external_body]
pub struct ExIdPool(id_pool::IdPool);

/// The ids that a pool can still hand out.
pub uninterp spec fn pool_free(pool: id_pool::IdPool) -> Multiset<u16>;

/// The number of ids that a pool counts as handed out.
pub uninterp spec fn pool_used(pool: id_pool::IdPool) -> nat;

/// `IdPool::new_ranged`: a pool in which exactly the ids from `start` up to,
/// not including, `end` are free, each once, and none is handed out.
#[verifier::external_body]
fn pool_new_ranged(start: u16, end: u16) -> (pool: id_pool::IdPool)
    requires
        start < end,
    ensures
        forall|id: u16| pool_free(pool).count(id) == (if start <= id < end { 1nat } else { 0nat }),
        pool_used(pool) == 0,
{
    id_pool::IdPool::new_ranged(start..end)
}

/// `IdPool::request_id`: hands out one free id and counts it, or `None`
/// where no id is free.
#[verifier::external_body]
fn pool_request_id(pool: &mut id_pool::IdPool) -> (r: Option<u16>)
    ensures
        r is None <==> pool_free(*old(pool)).len() == 0,
        r is None ==> *final(pool) == *old(pool),
        r matches Some(id) ==> pool_free(*old(pool)).count(id) > 0 && pool_free(*final(pool))
            == pool_free(*old(pool)).remove(id) && pool_used(*final(pool)) == pool_used(
            *old(pool),
        ) + 1,
{
    pool.request_id()
}

/// `IdPool::return_id`: takes `id` back as free and counts one id less; it
/// refuses, by `Err(id)`, only an id that is free already, and then changes
/// nothing.
#[verifier::external_body]
fn pool_return_id(pool: &mut id_pool::IdPool, id: u16) -> (r: Result<(), u16>)
    requires
        pool_used(*old(pool)) > 0,
        id < u16::MAX,
    ensures
        r is Ok ==> pool_free(*final(pool)) == pool_free(*old(pool)).insert(id) && pool_used(
            *final(pool),
        ) + 1 == pool_used(*old(pool)),
        r matches Err(e) ==> e == id && pool_free(*old(pool)).count(id) > 0 && *final(pool)
            == *old(pool),
{
    pool.return_id(id)
}

/// The address of the host on the private bridge: `172.18.0.1`. The address
/// with number `n` in the pool lies `n` above it.
pub const HOST_IP: u32 = 0xac12_0001;

/// The text of an address: its four bytes in decimal, most significant
/// first, with dots between.
pub open spec fn ip_text(ip: u32) -> Seq<char> {
    decimal((ip / 0x100_0000) as nat) + seq!['.'] + decimal((ip / 0x1_0000 % 0x100) as nat)
        + seq!['.'] + decimal((ip / 0x100 % 0x100) as nat) + seq!['.'] + decimal(
        (ip % 0x100) as nat,
    )
}

/// The text of an address.
pub fn ip_to_string(ip: u32) -> (s: String)
    ensures
        s@ == ip_text(ip),
{
    let mut out: Vec<char> = Vec::new();
    push_decimal((ip / 0x100_0000) as u64, &mut out);
    out.push('.');
    push_decimal((ip / 0x1_0000 % 0x100) as u64, &mut out);
    out.push('.');
    push_decimal((ip / 0x100 % 0x100) as u64, &mut out);
    out.push('.');
    push_decimal((ip % 0x100) as u64, &mut out);
    assert(out@ =~= ip_text(ip));
    string_of(&out)
}

/// The pool of addresses for package containers.
pub struct IpPool {
    pool: id_pool::IdPool,
    leased: Vec<u16>,
}

/// Does `id` occur in `s`?
pub open spec fn occurs(s: Seq<u16>, id: u16) -> bool {
    exists|i: int| 0 <= i < s.len() && s[i] == id
}

impl IpPool {
    #[verifier::type_invariant]
    closed spec fn consistent(self) -> bool {
        &&& pool_used(self.pool) == self.leased@.len()
        &&& forall|id: u16| #[trigger] pool_free(self.pool).count(id) <= 1
        &&& forall|i: int|
            0 <= i < self.leased@.len() ==> pool_free(self.pool).count(#[trigger] self.leased@[i])
                == 0 && 0 < self.leased@[i] < u16::MAX
        &&& forall|i: int, j: int|
            0 <= i < j < self.leased@.len() ==> self.leased@[i] != self.leased@[j]
        &&& forall|id: u16| #[trigger]
            pool_free(self.pool).count(id) > 0 ==> 0 < id < u16::MAX
    }

    /// The addresses that are handed out, by their distance from the host's.
    pub closed spec fn leased(self) -> Seq<u16> {
        self.leased@
    }

    /// Are addresses left to hand out?
    pub closed spec fn has_free(self) -> bool {
        pool_free(self.pool).len() > 0
    }

    /// Is the address that lies `id` above the host's free?
    pub closed spec fn is_free(self, id: u16) -> bool {
        pool_free(self.pool).count(id) > 0
    }

    /// Handing out `ip` leads from `self` to `after`: the address was free
    /// and not leased, is leased now and no longer free, and nothing else
    /// about the pool has changed.
    pub open spec fn leases(self, after: IpPool, ip: u32) -> bool {
        &&& HOST_IP < ip < HOST_IP + u16::MAX
        &&& HOST_IP < ip < HOST_IP + u16::MAX ==> {
            let id = (ip - HOST_IP) as u16;
            &&& self.is_free(id)
            &&& !occurs(self.leased(), id)
            &&& after.leased() == self.leased().push(id)
            &&& !after.is_free(id)
            &&& forall|other: u16| other != id ==> after.is_free(other) == self.is_free(other)
        }
    }

    /// A pool in which every address from one above the host's on is free.
    pub fn new() -> (p: IpPool)
        ensures
            p.leased().len() == 0,
            forall|id: u16| p.is_free(id) <==> 0 < id < u16::MAX,
    {
        let pool = pool_new_ranged(1, u16::MAX);
        IpPool { pool, leased: Vec::new() }
    }

    /// Hands out a free address, which from then on is leased; `None` where
    /// none is free, and then nothing changes.
    pub fn get(&mut self) -> (r: Option<u32>)
        ensures
            r is None <==> !old(self).has_free(),
            r is None ==> *final(self) == *old(self),
            r matches Some(ip) ==> old(self).leases(*final(self), ip),
    {
        proof {
            use_type_invariant(&*self);
        }
        let mut taken = IpPool { pool: pool_new_ranged(1, u16::MAX), leased: Vec::new() };
        core::mem::swap(self, &mut taken);
        let IpPool { mut pool, mut leased } = taken;
        let ghost old_pool = pool;
        let ghost old_leased = leased@;
        match pool_request_id(&mut pool) {
            Some(id) => {
                leased.push(id);
                proof {
                    assert(!occurs(old_leased, id)) by {
                        if occurs(old_leased, id) {
                            let i = choose|i: int| 0 <= i < old_leased.len() && old_leased[i] == id;
                            assert(pool_free(old_pool).count(old_leased[i]) == 0);
                        }
                    }
                    assert(pool_free(old_pool).count(id) <= 1);
                    assert forall|other: u16| #[trigger]
                        pool_free(pool).count(other) <= 1 by {
                        assert(pool_free(old_pool).count(other) <= 1);
                    }
                    assert forall|i: int| 0 <= i < leased@.len() implies pool_free(pool).count(
                        #[trigger] leased@[i],
                    ) == 0 && 0 < leased@[i] < u16::MAX by {
                        if i < old_leased.len() {
                            assert(leased@[i] == old_leased[i]);
                            assert(pool_free(old_pool).count(old_leased[i]) == 0);
                        }
                    }
                    assert forall|i: int, j: int| 0 <= i < j < leased@.len() implies leased@[i]
                        != leased@[j] by {
                        if j == old_leased.len() {
                            assert(old_leased[i] == leased@[i]);
                        } else {
                            assert(old_leased[i] != old_leased[j]);
                        }
                    }
                    assert forall|other: u16| #[trigger]
                        pool_free(pool).count(other) > 0 implies 0 < other < u16::MAX by {
                        assert(pool_free(old_pool).count(other) > 0);
                    }
                }
                *self = IpPool { pool, leased };
                Some(HOST_IP + id as u32)
            },
            None => {
                *self = IpPool { pool, leased };
                None
            },
        }
    }

    /// Takes a leased address back, after which it is free again. An address
    /// that is not leased is ignored.
    pub fn put(&mut self, ip: u32)
        ensures
            ({
                let id = if HOST_IP < ip < HOST_IP + u16::MAX {
                    (ip - HOST_IP) as u16
                } else {
                    0u16
                };
                if HOST_IP < ip < HOST_IP + u16::MAX && occurs(old(self).leased(), id) {
                    &&& final(self).is_free(id)
                    &&& !occurs(final(self).leased(), id)
                    &&& final(self).leased().len() + 1 == old(self).leased().len()
                    &&& forall|other: u16|
                        other != id ==> final(self).is_free(other) == old(self).is_free(other)
                            && occurs(final(self).leased(), other) == occurs(
                            old(self).leased(),
                            other,
                        )
                } else {
                    *final(self) == *old(self)
                }
            }),
    {
        proof {
            use_type_invariant(&*self);
        }
        if ip <= HOST_IP || ip - HOST_IP >= u16::MAX as u32 {
            return ;
        }
        let id = (ip - HOST_IP) as u16;
        let mut at: usize = 0;
        let mut found = false;
        while at < self.leased.len() && !found
            invariant
                at <= self.leased@.len(),
                forall|i: int| 0 <= i < at ==> self.leased@[i] != id,
                found ==> at < self.leased@.len() && self.leased@[at as int] == id,
            decreases self.leased@.len() - at + (if found { 0int } else { 1int }),
        {
            if self.leased[at] == id {
                found = true;
            } else {
                at = at + 1;
            }
        }
        if !found {
            assert(!occurs(self.leased@, id));
            return ;
        }
        assert(self.leased@[at as int] == id);
        let mut taken = IpPool { pool: pool_new_ranged(1, u16::MAX), leased: Vec::new() };
        core::mem::swap(self, &mut taken);
        let IpPool { mut pool, mut leased } = taken;
        let ghost old_pool = pool;
        let ghost old_leased = leased@;
        assert(pool_free(old_pool).count(old_leased[at as int]) == 0);
        let r = pool_return_id(&mut pool, id);
        leased.remove(at);
        proof {
            assert(r is Ok);
            assert(leased@ =~= old_leased.remove(at as int));
            assert forall|other: u16| #[trigger] pool_free(pool).count(other) <= 1 by {
                assert(pool_free(old_pool).count(other) <= 1);
            }
            assert forall|i: int| 0 <= i < leased@.len() implies pool_free(pool).count(
                #[trigger] leased@[i],
            ) == 0 && 0 < leased@[i] < u16::MAX by {
                let i0 = if i < at { i } else { i + 1 };
                assert(leased@[i] == old_leased[i0]);
                assert(old_leased[i0] != old_leased[at as int]);
                assert(pool_free(old_pool).count(old_leased[i0]) == 0);
            }
            assert forall|i: int, j: int| 0 <= i < j < leased@.len() implies leased@[i]
                != leased@[j] by {
                let i0 = if i < at { i } else { i + 1 };
                let j0 = if j < at { j } else { j + 1 };
                assert(old_leased[i0] != old_leased[j0]);
            }
            assert forall|other: u16| #[trigger]
                pool_free(pool).count(other) > 0 implies 0 < other < u16::MAX by {
                if other != id {
                    assert(pool_free(old_pool).count(other) > 0);
                }
            }
            assert(!occurs(leased@, id)) by {
                if occurs(leased@, id) {
                    let i = choose|i: int| 0 <= i < leased@.len() && leased@[i] == id;
                    let i0 = if i < at { i } else { i + 1 };
                    assert(leased@[i] == old_leased[i0]);
                    assert(old_leased[i0] != old_leased[at as int]);
                }
            }
            assert forall|other: u16| other != id implies occurs(leased@, other) == occurs(
                old_leased,
                other,
            ) by {
                if occurs(leased@, other) {
                    let i = choose|i: int| 0 <= i < leased@.len() && leased@[i] == other;
                    let i0 = if i < at { i } else { i + 1 };
                    assert(old_leased[i0] == other);
                }
                if occurs(old_leased, other) {
                    let i = choose|i: int| 0 <= i < old_leased.len() && old_leased[i] == other;
                    let i1 = if i < at { i } else { i - 1 };
                    assert(leased@[i1] == other);
                }
            }
        }
        *self = IpPool { pool, leased };
    }
}

} // verus!
