//! The address pool: leases client addresses from a subnet, or hands out one
//! fixed address in host mode.

use crate::addr::{
    block_size, block_size_of, broadcast_address, cidr_value, dotted, format_ipv4, host_address,
    host_count, lemma_block_bounds, lemma_dotted_injective, network_address, parse_cidr, Cidr,
};
use crate::error::TunnelError;
use std::collections::VecDeque;
use vstd::arithmetic::power2::{lemma2_to64, lemma_pow2_strictly_increases, pow2};
use vstd::prelude::*;
use vstd::string::*;

verus! {

/// What a pool is, to its callers: its mode and the addresses it can still
/// hand out, the next one first.
pub struct PoolModel {
    pub host: bool,
    pub available: Seq<Seq<char>>,
}

impl PoolModel {
    /// Host mode always holds exactly its one address.
    pub open spec fn wf(self) -> bool {
        self.host ==> self.available.len() == 1
    }

    /// No address is available twice.
    pub open spec fn distinct(self) -> bool {
        forall|i: int, j: int|
            0 <= i < j < self.available.len() ==> self.available[i] != self.available[j]
    }

    /// The address that the next allocation hands out, if there is one.
    pub open spec fn allocated(self) -> Option<Seq<char>> {
        if self.available.len() > 0 {
            Some(self.available[0])
        } else {
            None
        }
    }

    /// The pool after an allocation. Host mode keeps its address; network
    /// mode gives its first address away.
    pub open spec fn after_allocate(self) -> PoolModel {
        if self.host || self.available.len() == 0 {
            self
        } else {
            PoolModel { host: false, available: self.available.skip(1) }
        }
    }

    /// The pool after `ip` is given back. Host mode ignores it; network mode
    /// queues it behind the addresses it still has.
    pub open spec fn after_release(self, ip: Seq<char>) -> PoolModel {
        if self.host {
            self
        } else {
            PoolModel { host: false, available: self.available.push(ip) }
        }
    }
}

/// The pool that configuration `c`, read from `text`, starts out as.
pub open spec fn fresh_pool(c: Cidr, text: Seq<char>) -> PoolModel {
    match c {
        Cidr::Host => PoolModel { host: true, available: seq![text] },
        Cidr::Network { base, mask } => PoolModel {
            host: false,
            available: Seq::new(host_count(mask), |i: int| dotted(host_address(base, mask, i))),
        },
    }
}

/// The pool that validating configuration `c` gives: right in mode, with
/// nothing to lease from a network yet.
pub open spec fn probe_pool(c: Cidr, text: Seq<char>) -> PoolModel {
    match c {
        Cidr::Host => fresh_pool(c, text),
        Cidr::Network { .. } => PoolModel { host: false, available: Seq::empty() },
    }
}

/// What a pool holds: its one fixed address, or the addresses it can lease.
enum Leases {
    Host(String),
    Network(VecDeque<String>),
}

pub struct IpPool {
    name: String,
    leases: Leases,
}

impl View for IpPool {
    type V = PoolModel;

    closed spec fn view(&self) -> PoolModel {
        match self.leases {
            Leases::Host(ip) => PoolModel { host: true, available: seq![ip@] },
            Leases::Network(list) => PoolModel {
                host: false,
                available: Seq::new(list@.len(), |i: int| list@[i]@),
            },
        }
    }
}

impl IpPool {
    /// The name that the pool was made with.
    pub closed spec fn name_view(&self) -> Seq<char> {
        self.name@
    }

    /// Makes a pool from configuration text: a single address for host
    /// mode, or `address/mask` for every host address of that block.
    pub fn new(name: &str, ips: &str) -> (r: Result<IpPool, TunnelError>)
        ensures
            match cidr_value(ips.spec_bytes()) {
                Ok(c) => r is Ok && r->Ok_0@ == fresh_pool(c, ips@) && r->Ok_0.name_view()
                    == name@,
                Err(f) => r is Err && r->Err_0 == TunnelError::ConfigError(f),
            },
    {
        match parse_cidr(ips.as_bytes()) {
            Err(f) => Err(TunnelError::ConfigError(f)),
            Ok(Cidr::Host) => {
                Ok(IpPool { name: String::from_str(name), leases: Leases::Host(String::from_str(ips)) })
            },
            Ok(Cidr::Network { base, mask }) => {
                let block = block_size_of(mask);
                proof {
                    lemma_block_bounds(base, mask);
                    lemma2_to64();
                    if 2 < 32 - mask {
                        lemma_pow2_strictly_increases(2, (32 - mask) as nat);
                    }
                }
                let network: u64 = base as u64 - (base as u64 % block);
                let count: u64 = block - 2;
                let mut list: VecDeque<String> = VecDeque::new();
                let mut i: u64 = 0;
                while i < count
                    invariant
                        i <= count,
                        count == host_count(mask),
                        network == network_address(base, mask),
                        network + count + 1 <= u32::MAX,
                        list@.len() == i,
                        forall|j: int|
                            0 <= j < i ==> (#[trigger] list@[j])@ == dotted(
                                host_address(base, mask, j),
                            ),
                    decreases count - i,
                {
                    let a: u32 = (network + 1 + i) as u32;
                    list.push_back(format_ipv4(a));
                    i += 1;
                }
                let pool = IpPool { name: String::from_str(name), leases: Leases::Network(list) };
                assert(pool@.available =~= fresh_pool(Cidr::Network { base, mask }, ips@).available);
                Ok(pool)
            },
        }
    }

    /// Checks configuration text as `new` does, without listing a network's
    /// addresses. The pool that comes back has the mode that `new` would
    /// give it.
    pub fn test_new(name: &str, ips: &str) -> (r: Result<IpPool, TunnelError>)
        ensures
            match cidr_value(ips.spec_bytes()) {
                Ok(c) => r is Ok && r->Ok_0@ == probe_pool(c, ips@) && r->Ok_0.name_view()
                    == name@,
                Err(f) => r is Err && r->Err_0 == TunnelError::ConfigError(f),
            },
    {
        match parse_cidr(ips.as_bytes()) {
            Err(f) => Err(TunnelError::ConfigError(f)),
            Ok(Cidr::Host) => {
                Ok(IpPool { name: String::from_str(name), leases: Leases::Host(String::from_str(ips)) })
            },
            Ok(Cidr::Network { .. }) => {
                let pool = IpPool {
                    name: String::from_str(name),
                    leases: Leases::Network(VecDeque::new()),
                };
                assert(pool@.available =~= Seq::<Seq<char>>::empty());
                Ok(pool)
            },
        }
    }

    /// Hands out an address. Host mode gives its one address every time.
    /// Network mode gives the address that has waited longest, and fails
    /// when none is left.
    pub fn get_ip(&mut self) -> (r: Result<String, TunnelError>)
        ensures
            final(self)@.wf(),
            final(self)@ == old(self)@.after_allocate(),
            final(self).name_view() == old(self).name_view(),
            match old(self)@.allocated() {
                Some(ip) => r is Ok && r->Ok_0@ == ip,
                None => r is Err && r->Err_0 == TunnelError::PoolExhausted,
            },
    {
        let ghost before = self@;
        match &mut self.leases {
            Leases::Host(ip) => Ok(ip.clone()),
            Leases::Network(list) => {
                match list.pop_front() {
                    Some(ip) => {
                        assert(self@.available =~= before.available.skip(1));
                        Ok(ip)
                    },
                    None => {
                        assert(self@.available =~= before.available);
                        Err(TunnelError::PoolExhausted)
                    },
                }
            },
        }
    }

    /// Takes an address back. Host mode has nothing to take back.
    pub fn free_ip(&mut self, ip: &str) -> (r: Result<(), TunnelError>)
        ensures
            r is Ok,
            final(self)@.wf(),
            final(self)@ == old(self)@.after_release(ip@),
            final(self).name_view() == old(self).name_view(),
    {
        let ghost before = self@;
        match &mut self.leases {
            Leases::Host(_) => {},
            Leases::Network(list) => {
                list.push_back(String::from_str(ip));
                assert(self@.available =~= before.available.push(ip@));
            },
        }
        Ok(())
    }

    pub fn is_host_mode(&self) -> (r: bool)
        ensures
            r == self@.host,
            self@.wf(),
    {
        match self.leases {
            Leases::Host(_) => true,
            Leases::Network(_) => false,
        }
    }

    /// How many addresses the pool can hand out right now.
    pub fn available(&self) -> (n: usize)
        ensures
            n == self@.available.len(),
    {
        match &self.leases {
            Leases::Host(_) => 1,
            Leases::Network(list) => list.len(),
        }
    }

    /// The pool's name.
    pub fn name(&self) -> (r: &str)
        ensures
            r@ == self.name_view(),
    {
        self.name.as_str()
    }
}

/// A network pool starts with every address of its block but the first and
/// the last: two fewer than the block spans, each strictly between the
/// network and the broadcast address, and no address twice.
pub proof fn lemma_network_pool(base: u32, mask: u8, text: Seq<char>)
    requires
        mask <= 30,
    ensures
        ({
            let p = fresh_pool(Cidr::Network { base, mask }, text);
            &&& p.available.len() == pow2((32 - mask) as nat) - 2
            &&& p.available.len() >= 2
            &&& forall|i: int|
                0 <= i < p.available.len() ==> {
                    &&& #[trigger] p.available[i] == dotted(host_address(base, mask, i))
                    &&& network_address(base, mask) < host_address(base, mask, i)
                        < broadcast_address(base, mask)
                }
            &&& p.distinct()
        }),
{
    let p = fresh_pool(Cidr::Network { base, mask }, text);
    lemma_block_bounds(base, mask);
    lemma2_to64();
    if 2 < 32 - mask {
        lemma_pow2_strictly_increases(2, (32 - mask) as nat);
    }
    assert(block_size(mask) >= 4);
    assert forall|i: int, j: int| 0 <= i < j < p.available.len() implies p.available[i]
        != p.available[j] by {
        if p.available[i] == p.available[j] {
            lemma_dotted_injective(host_address(base, mask, i), host_address(base, mask, j));
        }
    }
}

/// An address that was handed out is not available again until it is given
/// back: from a pool without duplicates, what an allocation returns is
/// absent from what is left, and what is left has no duplicates.
pub proof fn lemma_allocated_is_absent(p: PoolModel)
    requires
        !p.host,
        p.distinct(),
        p.allocated() is Some,
    ensures
        !p.after_allocate().available.contains(p.allocated()->0),
        p.after_allocate().distinct(),
{
    let rest = p.after_allocate().available;
    assert forall|k: int| 0 <= k < rest.len() implies rest[k] != p.available[0] by {
        assert(rest[k] == p.available[k + 1]);
    }
    assert forall|i: int, j: int| 0 <= i < j < rest.len() implies rest[i] != rest[j] by {
        assert(rest[i] == p.available[i + 1]);
        assert(rest[j] == p.available[j + 1]);
    }
}

/// Giving back an address that is not available keeps the pool free of
/// duplicates.
pub proof fn lemma_release_keeps_distinct(p: PoolModel, ip: Seq<char>)
    requires
        p.distinct(),
        !p.available.contains(ip),
    ensures
        p.after_release(ip).distinct(),
{
    let q = p.after_release(ip).available;
    if !p.host {
        assert forall|i: int, j: int| 0 <= i < j < q.len() implies q[i] != q[j] by {
            if j == p.available.len() {
                assert(p.available.contains(p.available[i]));
            }
        }
    }
}

/// What is done to a pool.
pub enum PoolOp {
    Allocate,
    Release(Seq<char>),
}

/// A pool together with the addresses that are out on lease.
pub struct Ledger {
    pub pool: PoolModel,
    pub leased: Set<Seq<char>>,
}

impl Ledger {
    /// A pool with nothing out on lease.
    pub open spec fn opening(pool: PoolModel) -> Ledger {
        Ledger { pool, leased: Set::empty() }
    }

    /// Nothing is both available and out on lease, and nothing is
    /// available twice.
    pub open spec fn sound(self) -> bool {
        &&& self.pool.distinct()
        &&& forall|i: int|
            0 <= i < self.pool.available.len() ==> !self.leased.contains(
                #[trigger] self.pool.available[i],
            )
    }

    /// The ledger after one operation. An allocation puts what it hands
    /// out on lease. A release gives back an address that is out on lease;
    /// sessions release nothing else, and the ledger ignores anything else.
    pub open spec fn after(self, op: PoolOp) -> Ledger {
        match op {
            PoolOp::Allocate => match self.pool.allocated() {
                Some(ip) => Ledger {
                    pool: self.pool.after_allocate(),
                    leased: self.leased.insert(ip),
                },
                None => self,
            },
            PoolOp::Release(ip) => if self.leased.contains(ip) {
                Ledger { pool: self.pool.after_release(ip), leased: self.leased.remove(ip) }
            } else {
                self
            },
        }
    }

    /// The ledger after operations, one after the other.
    pub open spec fn after_all(self, ops: Seq<PoolOp>) -> Ledger
        decreases ops.len(),
    {
        if ops.len() == 0 {
            self
        } else {
            self.after(ops[0]).after_all(ops.skip(1))
        }
    }
}

/// A network pool never issues an address that is out on lease. Whatever
/// is allocated and released, and in whatever order: what the pool can
/// still hand out is never out on lease, and is never there twice. So the
/// next allocation hands out an address that no session holds.
pub proof fn lemma_never_leased_twice(l: Ledger, ops: Seq<PoolOp>)
    requires
        !l.pool.host,
        l.sound(),
    ensures
        !l.after_all(ops).pool.host,
        l.after_all(ops).sound(),
        l.after_all(ops).pool.allocated() is Some ==> !l.after_all(ops).leased.contains(
            l.after_all(ops).pool.allocated()->0,
        ),
    decreases ops.len(),
{
    if ops.len() > 0 {
        let next = l.after(ops[0]);
        match ops[0] {
            PoolOp::Allocate => {
                if l.pool.allocated() is Some {
                    lemma_allocated_is_absent(l.pool);
                    let rest = next.pool.available;
                    assert forall|i: int| 0 <= i < rest.len() implies !next.leased.contains(
                        #[trigger] rest[i],
                    ) by {
                        assert(rest[i] == l.pool.available[i + 1]);
                        assert(rest.contains(rest[i]));
                    }
                }
            },
            PoolOp::Release(ip) => {
                if l.leased.contains(ip) {
                    assert(!l.pool.available.contains(ip)) by {
                        if l.pool.available.contains(ip) {
                            let k = choose|k: int|
                                0 <= k < l.pool.available.len() && l.pool.available[k] == ip;
                            assert(!l.leased.contains(l.pool.available[k]));
                        }
                    }
                    lemma_release_keeps_distinct(l.pool, ip);
                }
            },
        }
        lemma_never_leased_twice(next, ops.skip(1));
    } else {
        if l.pool.allocated() is Some {
            assert(!l.leased.contains(l.pool.available[0]));
        }
    }
}

/// Allocating and then releasing what was allocated leaves as many
/// addresses available as before.
pub proof fn lemma_release_after_allocate(p: PoolModel)
    requires
        p.wf(),
        p.allocated() is Some,
    ensures
        p.after_allocate().after_release(p.allocated()->0).available.len() == p.available.len(),
        p.after_allocate().after_release(p.allocated()->0).host == p.host,
{
}

/// In host mode every allocation returns the same address and leaves the
/// pool as it was, and a release changes nothing.
pub proof fn lemma_host_pool_is_fixed(p: PoolModel, ip: Seq<char>)
    requires
        p.wf(),
        p.host,
    ensures
        p.allocated() == Some(p.available[0]),
        p.after_allocate() == p,
        p.after_allocate().allocated() == p.allocated(),
        p.after_release(ip) == p,
{
}

} // verus!
