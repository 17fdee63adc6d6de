//! The router: the table from destination address to session channel, and
//! the decisions of the one task that owns the virtual interface.
//!
//! A channel is whatever the caller sends packets to a session with; the
//! router stores it and hands it back, and never looks inside.

use crate::addr::{
    dotted, dotted_bytes, lemma_ascii_text_bytes, lemma_dotted_bytes_ascii, quad, IpAddress,
};
use crate::error::TunnelError;
use crate::iptext::{groups_value, ip_value, lemma_leased_text_is_an_address, parse_ip};
use std::collections::HashMap;
use vstd::arithmetic::power2::{lemma2_to64, lemma_pow2_adds, lemma_pow2_strictly_increases, pow2};
use vstd::prelude::*;
use vstd::string::*;
use vstd::utf8::encode_utf8;

verus! {

broadcast use vstd::std_specs::hash::group_hash_axioms;

/// What the router's task is told by the sessions.
#[derive(Debug, PartialEq, Eq)]
pub enum RouteMsg<C> {
    /// Packets for this address go to this channel from now on.
    AddRoute(String, C),
    /// Packets for this address go nowhere from now on.
    DelRoute(String),
    /// A packet from a session, to be written to the interface.
    Forwarding(Vec<u8>),
}

/// What the router's task has to do after a message.
#[derive(Debug, PartialEq, Eq)]
pub enum RouterAction {
    /// Write this packet to the interface.
    WriteDevice(Vec<u8>),
    /// The table has a route for this address now; nothing to do.
    RouteAdded(IpAddress),
    /// The table has no route for this address now; nothing to do.
    RouteRemoved(IpAddress),
    /// The message named no address; the table is as it was.
    Rejected(TunnelError),
}

/// Where a packet that was read from the interface goes.
#[derive(Debug, PartialEq, Eq)]
pub enum Routing<'a, C> {
    /// Send it on this channel.
    Forward(&'a C),
    /// Drop it: no session has this address.
    NoRoute(IpAddress),
    /// Drop it: its header is cut short or inconsistent.
    Malformed,
    /// Drop it: it is neither IPv4 nor IPv6.
    Unsupported(u8),
    /// Drop it: it has no bytes.
    Empty,
}

/// What the header of a packet says of where it goes.
pub enum Destination {
    Address(IpAddress),
    Malformed,
    Unsupported(u8),
    Empty,
}

/// The number that bytes spell, most significant first.
pub open spec fn be_value(b: Seq<u8>) -> nat
    decreases b.len(),
{
    if b.len() == 0 {
        0
    } else {
        be_value(b.drop_last()) * 0x100 + b.last() as nat
    }
}

/// The version that a packet's first byte names.
pub open spec fn version(p: Seq<u8>) -> int {
    p[0] as int / 16
}

/// A packet starts with a whole IPv4 header: at least twenty bytes,
/// version 4, a header length of at least five words, and all of those
/// words present.
pub open spec fn ipv4_header_ok(p: Seq<u8>) -> bool {
    &&& p.len() >= 20
    &&& version(p) == 4
    &&& p[0] as int % 16 >= 5
    &&& p.len() >= (p[0] as int % 16) * 4
}

/// A packet starts with a whole IPv6 header: forty bytes, version 6.
pub open spec fn ipv6_header_ok(p: Seq<u8>) -> bool {
    &&& p.len() >= 40
    &&& version(p) == 6
}

/// Where a packet goes, going by the version in its first byte and the
/// destination field of the header of that version.
pub open spec fn destination(p: Seq<u8>) -> Destination {
    if p.len() == 0 {
        Destination::Empty
    } else if version(p) == 4 {
        if ipv4_header_ok(p) {
            Destination::Address(IpAddress::V4(quad(p[16], p[17], p[18], p[19])))
        } else {
            Destination::Malformed
        }
    } else if version(p) == 6 {
        if ipv6_header_ok(p) {
            Destination::Address(IpAddress::V6(be_value(p.subrange(24, 40)) as u128))
        } else {
            Destination::Malformed
        }
    } else {
        Destination::Unsupported(version(p) as u8)
    }
}

/// The address that text names a route by: the IP address that the text
/// stands for, IPv4 or IPv6. Text that is no IP address names none.
pub open spec fn route_key(ip: Seq<char>) -> Option<IpAddress> {
    ip_value(encode_utf8(ip))
}

/// Every address that a network pool leases names a route: the text of
/// the lease is the key of the IPv4 address that it spells.
pub proof fn lemma_leased_address_names_a_route(a: u32)
    ensures
        route_key(dotted(a)) == Some(IpAddress::V4(a)),
{
    lemma_dotted_bytes_ascii(a);
    lemma_ascii_text_bytes(dotted_bytes(a));
    lemma_leased_text_is_an_address(a);
}

/// The bytes that groups of an IPv6 address take in a packet: two for each
/// group, the more significant first.
pub open spec fn group_bytes(g: Seq<u16>) -> Seq<u8> {
    Seq::new(
        2 * g.len(),
        |k: int|
            if k % 2 == 0 {
                (g[k / 2] / 0x100) as u8
            } else {
                (g[k / 2] % 0x100) as u8
            },
    )
}

/// The number that the groups of an address spell in text is the number
/// that their bytes spell in a packet. So a route that is added under the
/// text of an IPv6 address is the route of the packets that carry this
/// address as their destination.
pub proof fn lemma_groups_are_bytes(g: Seq<u16>)
    ensures
        groups_value(g) == be_value(group_bytes(g)),
    decreases g.len(),
{
    if g.len() > 0 {
        let b = group_bytes(g);
        let front = g.drop_last();
        lemma_groups_are_bytes(front);
        assert(b.drop_last().drop_last() =~= group_bytes(front));
        let n = g.len() as int;
        assert(b.last() == (g[n - 1] % 0x100) as u8);
        assert(b.drop_last().last() == (g[n - 1] / 0x100) as u8);
        assert(g.last() == (g[n - 1] / 0x100) * 0x100 + g[n - 1] % 0x100);
        assert(be_value(b) == be_value(b.drop_last()) * 0x100 + b.last());
        assert(be_value(b.drop_last()) == be_value(b.drop_last().drop_last()) * 0x100
            + b.drop_last().last());
    } else {
        assert(group_bytes(g) =~= Seq::<u8>::empty());
    }
}

/// The table after a message.
pub open spec fn table_after<C>(t: Map<IpAddress, C>, msg: RouteMsg<C>) -> Map<IpAddress, C> {
    match msg {
        RouteMsg::AddRoute(ip, ch) => match route_key(ip@) {
            Some(a) => t.insert(a, ch),
            None => t,
        },
        RouteMsg::DelRoute(ip) => match route_key(ip@) {
            Some(a) => t.remove(a),
            None => t,
        },
        RouteMsg::Forwarding(_) => t,
    }
}

/// The channel that a packet is sent on, if there is one.
pub open spec fn route<C>(t: Map<IpAddress, C>, p: Seq<u8>) -> Option<C> {
    match destination(p) {
        Destination::Address(a) => if t.contains_key(a) {
            Some(t[a])
        } else {
            None
        },
        _ => None,
    }
}

/// After a route for an address is added, a packet whose destination is
/// that address is sent on the channel that was given, whatever the table
/// held before. Without a route for its destination a packet is sent
/// nowhere.
pub proof fn lemma_route_follows_table<C>(
    t: Map<IpAddress, C>,
    ip: String,
    ch: C,
    d: IpAddress,
    p: Seq<u8>,
)
    requires
        route_key(ip@) == Some(d),
        destination(p) == Destination::Address(d),
    ensures
        route(table_after(t, RouteMsg::AddRoute(ip, ch)), p) == Some(ch),
        route(table_after(t, RouteMsg::DelRoute(ip)), p) == None::<C>,
        !t.contains_key(d) ==> route(t, p) == None::<C>,
{
}

/// The route table never holds two channels for one address: adding a
/// route for an address that has one replaces it, and other addresses keep
/// theirs.
pub proof fn lemma_one_route_per_address<C>(
    t: Map<IpAddress, C>,
    ip: String,
    ch: C,
    d: IpAddress,
    other: IpAddress,
)
    requires
        route_key(ip@) == Some(d),
        other != d,
    ensures
        table_after(t, RouteMsg::AddRoute(ip, ch)).dom() == t.dom().insert(d),
        table_after(t, RouteMsg::AddRoute(ip, ch))[d] == ch,
        t.contains_key(other) ==> table_after(t, RouteMsg::AddRoute(ip, ch))[other] == t[other],
{
}

/// The error with which etherparse refuses bytes as an IPv4 header.
#[verifier::external_type_specification]
#[verifier::external_body]
pub struct ExIpv4HeaderSliceError(etherparse::err::ipv4::HeaderSliceError);

/// The error with which etherparse refuses bytes as an IPv6 header.
#[verifier::external_type_specification]
#[verifier::external_body]
pub struct ExIpv6HeaderSliceError(etherparse::err::ipv6::HeaderSliceError);

/// etherparse's `Ipv4HeaderSlice::from_slice`, and `destination` on what it
/// accepts. It accepts exactly the packets that start with a whole IPv4
/// header, and the destination is bytes 16 to 19 of the packet.
#[verifier::external_body]
fn ipv4_destination(pkt: &[u8]) -> (r: Result<[u8; 4], etherparse::err::ipv4::HeaderSliceError>)
    ensures
        r is Ok <==> ipv4_header_ok(pkt@),
        r is Ok ==> r->Ok_0@ == pkt@.subrange(16, 20),
{
    match etherparse::Ipv4HeaderSlice::from_slice(pkt) {
        Ok(header) => Ok(header.destination()),
        Err(e) => Err(e),
    }
}

/// etherparse's `Ipv6HeaderSlice::from_slice`, and `destination` on what it
/// accepts. It accepts exactly the packets that start with a whole IPv6
/// header, and the destination is bytes 24 to 39 of the packet.
#[verifier::external_body]
fn ipv6_destination(pkt: &[u8]) -> (r: Result<[u8; 16], etherparse::err::ipv6::HeaderSliceError>)
    ensures
        r is Ok <==> ipv6_header_ok(pkt@),
        r is Ok ==> r->Ok_0@ == pkt@.subrange(24, 40),
{
    match etherparse::Ipv6HeaderSlice::from_slice(pkt) {
        Ok(header) => Ok(header.destination()),
        Err(e) => Err(e),
    }
}

/// Reads sixteen bytes as one number, most significant byte first.
pub fn be_u128(b: &[u8; 16]) -> (r: u128)
    ensures
        r == be_value(b@),
{
    let mut acc: u128 = 0;
    let mut i: usize = 0;
    proof {
        lemma2_to64();
        lemma_pow2_adds(64, 64);
        assert(b@.take(0) =~= Seq::<u8>::empty());
    }
    while i < 16
        invariant
            i <= 16,
            acc == be_value(b@.take(i as int)),
            acc < pow2((8 * i) as nat),
            pow2(128) == 0x1_0000_0000_0000_0000_0000_0000_0000_0000,
            pow2(8) == 0x100,
        decreases 16 - i,
    {
        proof {
            lemma_pow2_adds((8 * i) as nat, 8);
            if 8 * (i + 1) < 128 {
                lemma_pow2_strictly_increases((8 * (i + 1)) as nat, 128);
            }
            assert(b@.take(i + 1).drop_last() =~= b@.take(i as int));
            assert(acc * 0x100 + 0xff < pow2((8 * i) as nat) * 0x100) by (nonlinear_arith)
                requires
                    acc < pow2((8 * i) as nat),
            ;
        }
        acc = acc * 0x100 + b[i] as u128;
        i += 1;
    }
    assert(b@.take(16) =~= b@);
    acc
}

/// The routes of the tunnel: at most one channel for each address.
pub struct RouterInner<C> {
    v4: HashMap<u32, C>,
    v6: HashMap<u128, C>,
}

impl<C> View for RouterInner<C> {
    type V = Map<IpAddress, C>;

    closed spec fn view(&self) -> Map<IpAddress, C> {
        Map::new(
            |a: IpAddress|
                match a {
                    IpAddress::V4(x) => self.v4@.contains_key(x),
                    IpAddress::V6(x) => self.v6@.contains_key(x),
                },
            |a: IpAddress|
                match a {
                    IpAddress::V4(x) => self.v4@[x],
                    IpAddress::V6(x) => self.v6@[x],
                },
        )
    }
}

impl<C> RouterInner<C> {
    /// A table without routes.
    pub fn new() -> (r: RouterInner<C>)
        ensures
            r@ == Map::<IpAddress, C>::empty(),
    {
        let r = RouterInner { v4: HashMap::new(), v6: HashMap::new() };
        assert(r@ =~= Map::<IpAddress, C>::empty());
        r
    }

    /// Routes an address to a channel. A route that the address had is
    /// replaced.
    pub fn add_address(&mut self, a: IpAddress, session_addr: C)
        ensures
            final(self)@ == old(self)@.insert(a, session_addr),
    {
        let ghost before = self@;
        match a {
            IpAddress::V4(x) => {
                self.v4.insert(x, session_addr);
            },
            IpAddress::V6(x) => {
                self.v6.insert(x, session_addr);
            },
        }
        assert(self@ =~= before.insert(a, session_addr));
    }

    /// Takes the route of an address away, if it has one.
    pub fn del_address(&mut self, a: IpAddress)
        ensures
            final(self)@ == old(self)@.remove(a),
    {
        let ghost before = self@;
        match a {
            IpAddress::V4(x) => {
                self.v4.remove(&x);
            },
            IpAddress::V6(x) => {
                self.v6.remove(&x);
            },
        }
        assert(self@ =~= before.remove(a));
    }

    /// Routes the address that `ip` names to a channel, for every text that
    /// is an IP address, IPv4 or IPv6. Text that is none is refused, and the
    /// table stays as it was.
    pub fn add(&mut self, ip: &str, session_addr: C) -> (r: Result<IpAddress, TunnelError>)
        ensures
            match route_key(ip@) {
                Some(a) => r == Ok::<IpAddress, TunnelError>(a) && final(self)@ == old(self)@.insert(
                    a,
                    session_addr,
                ),
                None => r == Err::<IpAddress, TunnelError>(TunnelError::InvalidAddress) && final(self)@ == old(self)@,
            },
    {
        match parse_ip(ip.as_bytes()) {
            Some(a) => {
                self.add_address(a, session_addr);
                Ok(a)
            },
            None => Err(TunnelError::InvalidAddress),
        }
    }

    /// Takes away the route of the address that `ip` names, for every text
    /// that is an IP address, IPv4 or IPv6. Text that is none is refused,
    /// and the table stays as it was.
    pub fn del(&mut self, ip: &str) -> (r: Result<IpAddress, TunnelError>)
        ensures
            match route_key(ip@) {
                Some(a) => r == Ok::<IpAddress, TunnelError>(a) && final(self)@
                    == old(self)@.remove(a),
                None => r == Err::<IpAddress, TunnelError>(TunnelError::InvalidAddress) && final(self)@ == old(self)@,
            },
    {
        match parse_ip(ip.as_bytes()) {
            Some(a) => {
                self.del_address(a);
                Ok(a)
            },
            None => Err(TunnelError::InvalidAddress),
        }
    }

    /// Decides where a packet that was read from the interface goes: on
    /// the channel that its destination is routed to, or nowhere.
    pub fn routing<'a>(&'a self, pkt: &[u8]) -> (r: Routing<'a, C>)
        ensures
            match destination(pkt@) {
                Destination::Address(a) => if self@.contains_key(a) {
                    r matches Routing::Forward(ch) && *ch == self@[a]
                } else {
                    r matches Routing::NoRoute(b) && b == a
                },
                Destination::Malformed => r is Malformed,
                Destination::Unsupported(v) => r matches Routing::Unsupported(w) && w == v,
                Destination::Empty => r is Empty,
            },
            r matches Routing::Forward(ch) ==> route(self@, pkt@) == Some(*ch),
            !(r is Forward) ==> route(self@, pkt@) is None,
    {
        if pkt.len() == 0 {
            return Routing::Empty;
        }
        let first = pkt[0];
        let version: u8 = first / 16;
        if version == 4 {
            match ipv4_destination(pkt) {
                Ok(d) => {
                    let x: u32 = (d[0] as u32) * 0x100_0000 + (d[1] as u32) * 0x1_0000 + (
                    d[2] as u32) * 0x100 + (d[3] as u32);
                    assert(d@[0] == pkt@[16] && d@[1] == pkt@[17] && d@[2] == pkt@[18] && d@[3]
                        == pkt@[19]);
                    match self.v4.get(&x) {
                        Some(ch) => Routing::Forward(ch),
                        None => Routing::NoRoute(IpAddress::V4(x)),
                    }
                },
                Err(_) => Routing::Malformed,
            }
        } else if version == 6 {
            match ipv6_destination(pkt) {
                Ok(d) => {
                    let x = be_u128(&d);
                    match self.v6.get(&x) {
                        Some(ch) => Routing::Forward(ch),
                        None => Routing::NoRoute(IpAddress::V6(x)),
                    }
                },
                Err(_) => Routing::Malformed,
            }
        } else {
            Routing::Unsupported(version)
        }
    }

    /// Handles one message from a session: changes the table as the
    /// message says, and tells what is left to do.
    pub fn handle(&mut self, msg: RouteMsg<C>) -> (r: RouterAction)
        ensures
            final(self)@ == table_after(old(self)@, msg),
            match msg {
                RouteMsg::AddRoute(ip, _) => match route_key(ip@) {
                    Some(a) => r matches RouterAction::RouteAdded(b) && b == a,
                    None => r matches RouterAction::Rejected(e) && e
                        == TunnelError::InvalidAddress,
                },
                RouteMsg::DelRoute(ip) => match route_key(ip@) {
                    Some(a) => r matches RouterAction::RouteRemoved(b) && b == a,
                    None => r matches RouterAction::Rejected(e) && e
                        == TunnelError::InvalidAddress,
                },
                RouteMsg::Forwarding(pkt) => r matches RouterAction::WriteDevice(out) && out@
                    == pkt@,
            },
    {
        match msg {
            RouteMsg::AddRoute(ip, session_addr) => {
                match self.add(ip.as_str(), session_addr) {
                    Ok(a) => RouterAction::RouteAdded(a),
                    Err(e) => RouterAction::Rejected(e),
                }
            },
            RouteMsg::DelRoute(ip) => {
                match self.del(ip.as_str()) {
                    Ok(a) => RouterAction::RouteRemoved(a),
                    Err(e) => RouterAction::Rejected(e),
                }
            },
            RouteMsg::Forwarding(pkt) => RouterAction::WriteDevice(pkt),
        }
    }

    /// Whether an address has a route.
    pub fn has_route(&self, a: IpAddress) -> (r: bool)
        ensures
            r == self@.contains_key(a),
    {
        match a {
            IpAddress::V4(x) => self.v4.contains_key(&x),
            IpAddress::V6(x) => self.v6.contains_key(&x),
        }
    }
}

/// The router before its task runs: the virtual interface, which it alone
/// owns, and the routes.
pub struct Router<D, C> {
    e: D,
    inner: RouterInner<C>,
}

impl<D, C> Router<D, C> {
    /// The interface that the router owns.
    pub closed spec fn endpoint(&self) -> D {
        self.e
    }

    /// The routes that the router holds.
    pub closed spec fn routes(&self) -> Map<IpAddress, C> {
        self.inner@
    }

    /// A router for an interface, without routes.
    pub fn new(endpoint: D) -> (r: Router<D, C>)
        ensures
            r.endpoint() == endpoint,
            r.routes() == Map::<IpAddress, C>::empty(),
    {
        Router { e: endpoint, inner: RouterInner::new() }
    }

    /// Hands the interface and the routes to the one task that is to run
    /// the router. From here on nothing else can reach either.
    pub fn start(self) -> (r: (D, RouterInner<C>))
        ensures
            r.0 == self.endpoint(),
            r.1@ == self.routes(),
    {
        (self.e, self.inner)
    }
}

} // verus!
