//! Which external hosts may send through a port of the IP NAT.

use vstd::prelude::*;
use std::collections::HashSet;
use crate::addr::{SocketAddrV4, socket_key};

verus! {

broadcast use vstd::std_specs::hash::group_hash_axioms;

/// The entry that records "the port `port` has sent to the address `ip`".
pub open spec fn ip_entry(port: u16, ip: u32) -> u64 {
    (port as int * 0x1_0000_0000 + ip as int) as u64
}

/// The entry that records "the port `port` has sent to the socket address `addr`".
pub open spec fn socket_entry(port: u16, addr: SocketAddrV4) -> u64 {
    (port as int * 0x1_0000_0000_0000 + socket_key(addr) as int) as u64
}

/// Different ports or addresses give different entries.
pub proof fn lemma_ip_entry_injective(p: u16, a: u32, q: u16, b: u32)
    ensures
        ip_entry(p, a) == ip_entry(q, b) <==> (p == q && a == b),
{
    assert(p as int * 0x1_0000_0000 + a as int <= 0xffff_ffff_ffff) by (nonlinear_arith)
        requires
            p <= 0xffff,
            a <= 0xffff_ffffu32,
    ;
    assert(q as int * 0x1_0000_0000 + b as int <= 0xffff_ffff_ffff) by (nonlinear_arith)
        requires
            q <= 0xffff,
            b <= 0xffff_ffffu32,
    ;
    if ip_entry(p, a) == ip_entry(q, b) {
        let x = p as int * 0x1_0000_0000 + a as int;
        vstd::arithmetic::div_mod::lemma_fundamental_div_mod_converse(x, 0x1_0000_0000, p as int, a as int);
        vstd::arithmetic::div_mod::lemma_fundamental_div_mod_converse(x, 0x1_0000_0000, q as int, b as int);
    }
}

/// Different ports or socket addresses give different entries.
pub proof fn lemma_socket_entry_injective(p: u16, a: SocketAddrV4, q: u16, b: SocketAddrV4)
    ensures
        socket_entry(p, a) == socket_entry(q, b) <==> (p == q && a == b),
{
    let ka = socket_key(a) as int;
    let kb = socket_key(b) as int;
    assert(a.ip.bits as int * 0x10000 + a.port as int <= 0xffff_ffff_ffff) by (nonlinear_arith)
        requires
            a.ip.bits <= 0xffff_ffffu32,
            a.port <= 0xffff,
    ;
    assert(b.ip.bits as int * 0x10000 + b.port as int <= 0xffff_ffff_ffff) by (nonlinear_arith)
        requires
            b.ip.bits <= 0xffff_ffffu32,
            b.port <= 0xffff,
    ;
    assert(p as int * 0x1_0000_0000_0000 + ka <= 0xffff_ffff_ffff_ffff) by (nonlinear_arith)
        requires
            p <= 0xffff,
            0 <= ka <= 0xffff_ffff_ffff,
    ;
    assert(q as int * 0x1_0000_0000_0000 + kb <= 0xffff_ffff_ffff_ffff) by (nonlinear_arith)
        requires
            q <= 0xffff,
            0 <= kb <= 0xffff_ffff_ffff,
    ;
    crate::addr::lemma_socket_key_injective(a, b);
    if socket_entry(p, a) == socket_entry(q, b) {
        let x = p as int * 0x1_0000_0000_0000 + ka;
        vstd::arithmetic::div_mod::lemma_fundamental_div_mod_converse(x, 0x1_0000_0000_0000, p as int, ka);
        vstd::arithmetic::div_mod::lemma_fundamental_div_mod_converse(x, 0x1_0000_0000_0000, q as int, kb);
    }
}

/// The filter that an IP NAT applies to packets arriving on its external side.
#[derive(Debug)]
pub enum Restrictions {
    /// Any host may send through a mapped port.
    Unrestricted,
    /// Only hosts at an address that the port has sent to, recorded by `ip_entry`.
    RestrictIpAddr { sent_to: HashSet<u64> },
    /// Only the socket addresses that the port has sent to, recorded by `socket_entry`.
    RestrictSocketAddr { sent_to: HashSet<u64> },
}

/// What `sending(external_port, destination)` does to a filter `old`, leaving `new`: the kind
/// stays, and from then on the filter also lets through what `admits_reply` admits on that
/// port, and nothing else.
pub open spec fn sending_post(old: Restrictions, new: Restrictions, external_port: u16, destination: SocketAddrV4) -> bool {
    &&& old is Unrestricted <==> new is Unrestricted
    &&& old is RestrictIpAddr <==> new is RestrictIpAddr
    &&& old is RestrictSocketAddr <==> new is RestrictSocketAddr
    &&& forall|port: u16, source: SocketAddrV4| #[trigger]
        new.allows(port, source) == (old.allows(port, source) || (port == external_port
            && old.admits_reply(source, destination)))
}

impl Restrictions {
    /// The entries recorded so far (none for an unrestricted filter).
    pub closed spec fn entries(&self) -> Set<u64> {
        match self {
            Restrictions::Unrestricted => Set::empty(),
            Restrictions::RestrictIpAddr { sent_to } => sent_to@,
            Restrictions::RestrictSocketAddr { sent_to } => sent_to@,
        }
    }

    /// A packet from `source` to external port `port` passes the filter.
    pub open spec fn allows(&self, port: u16, source: SocketAddrV4) -> bool {
        match self {
            Restrictions::Unrestricted => true,
            Restrictions::RestrictIpAddr { .. } => self.entries().contains(
                ip_entry(port, source.ip.bits),
            ),
            Restrictions::RestrictSocketAddr { .. } => self.entries().contains(
                socket_entry(port, source),
            ),
        }
    }

    /// Once a port has sent to `destination`, the filter lets through a packet from `source`:
    /// any source when unrestricted, one at the same address when address restricted, the
    /// same socket address when port restricted.
    pub open spec fn admits_reply(&self, source: SocketAddrV4, destination: SocketAddrV4) -> bool {
        match self {
            Restrictions::Unrestricted => true,
            Restrictions::RestrictIpAddr { .. } => source.ip == destination.ip,
            Restrictions::RestrictSocketAddr { .. } => source == destination,
        }
    }

    /// A filter of the kind that the two flags ask for: port restricted when `port_restricted`,
    /// else address restricted when `address_restricted`, else unrestricted. It has recorded
    /// nothing yet.
    pub fn from_flags(port_restricted: bool, address_restricted: bool) -> (r: Restrictions)
        ensures
            port_restricted ==> r is RestrictSocketAddr,
            !port_restricted && address_restricted ==> r is RestrictIpAddr,
            !port_restricted && !address_restricted ==> r is Unrestricted,
            r.entries() == Set::<u64>::empty(),
    {
        if port_restricted {
            Restrictions::RestrictSocketAddr { sent_to: HashSet::new() }
        } else if address_restricted {
            Restrictions::RestrictIpAddr { sent_to: HashSet::new() }
        } else {
            Restrictions::Unrestricted
        }
    }

    /// Records that external port `external_port` sent a packet to `destination_addr`: from
    /// then on the filter also lets through what `admits_reply` admits on that port, and
    /// nothing else changes.
    pub fn sending(&mut self, external_port: u16, destination_addr: SocketAddrV4)
        ensures
            sending_post(*old(self), *final(self), external_port, destination_addr),
    {
        match self {
            Restrictions::Unrestricted => {},
            Restrictions::RestrictIpAddr { sent_to } => {
                let entry: u64 = (external_port as u64) * 0x1_0000_0000
                    + (destination_addr.ip.bits as u64);
                sent_to.insert(entry);
                proof {
                    assert forall|port: u16, source: SocketAddrV4|
                        ip_entry(port, source.ip.bits) == entry <==> (port == external_port
                            && source.ip == destination_addr.ip) by {
                        lemma_ip_entry_injective(
                            port,
                            source.ip.bits,
                            external_port,
                            destination_addr.ip.bits,
                        );
                    }
                }
            },
            Restrictions::RestrictSocketAddr { sent_to } => {
                let entry: u64 = (external_port as u64) * 0x1_0000_0000_0000
                    + destination_addr.key();
                sent_to.insert(entry);
                proof {
                    assert forall|port: u16, source: SocketAddrV4|
                        socket_entry(port, source) == entry <==> (port == external_port && source
                            == destination_addr) by {
                        lemma_socket_entry_injective(port, source, external_port, destination_addr);
                    }
                }
            },
        }
    }

    /// Whether a packet from `source_addr` to external port `external_port` passes the filter.
    pub fn incoming_allowed(&self, external_port: u16, source_addr: SocketAddrV4) -> (allowed:
        bool)
        ensures
            allowed == self.allows(external_port, source_addr),
    {
        match self {
            Restrictions::Unrestricted => true,
            Restrictions::RestrictIpAddr { sent_to } => {
                let entry: u64 = (external_port as u64) * 0x1_0000_0000
                    + (source_addr.ip.bits as u64);
                sent_to.contains(&entry)
            },
            Restrictions::RestrictSocketAddr { sent_to } => {
                let entry: u64 = (external_port as u64) * 0x1_0000_0000_0000 + source_addr.key();
                sent_to.contains(&entry)
            },
        }
    }
}

/// The filters `rs` arise one from the other by the sends `sends`: `rs[i + 1]` is `rs[i]` after
/// its port `sends[i].0` sent to `sends[i].1`.
pub open spec fn sending_chain(rs: Seq<Restrictions>, sends: Seq<(u16, SocketAddrV4)>) -> bool {
    &&& rs.len() == sends.len() + 1
    &&& forall|i: int| 0 <= i < sends.len() ==> #[trigger] sending_post(rs[i], rs[i + 1], sends[i].0, sends[i].1)
}

/// Starting from a filter that has recorded nothing, after any sequence of sends a packet from
/// `source` to `port` passes exactly when the filter is unrestricted, or one of the sends left
/// from `port` to a destination that the filter counts `source` a reply from.
pub proof fn lemma_filter_allows_what_was_sent_to(
    rs: Seq<Restrictions>,
    sends: Seq<(u16, SocketAddrV4)>,
    port: u16,
    source: SocketAddrV4,
)
    requires
        sending_chain(rs, sends),
        rs[0].entries() == Set::<u64>::empty(),
    ensures
        rs.last() is Unrestricted <==> rs[0] is Unrestricted,
        rs.last() is RestrictIpAddr <==> rs[0] is RestrictIpAddr,
        rs.last() is RestrictSocketAddr <==> rs[0] is RestrictSocketAddr,
        rs.last().allows(port, source) <==> (rs[0] is Unrestricted || exists|i: int|
            0 <= i < sends.len() && sends[i].0 == port && #[trigger] rs[0].admits_reply(source, sends[i].1)),
    decreases sends.len(),
{
    if sends.len() == 0 {
    } else {
        let n = sends.len() - 1;
        let rs0 = rs.drop_last();
        let sends0 = sends.drop_last();
        assert forall|i: int| 0 <= i < sends0.len() implies #[trigger] sending_post(rs0[i], rs0[i + 1], sends0[i].0, sends0[i].1) by {
            assert(sending_post(rs[i], rs[i + 1], sends[i].0, sends[i].1));
        }
        lemma_filter_allows_what_was_sent_to(rs0, sends0, port, source);
        assert(rs0.last() == rs[n]);
        assert(sending_post(rs[n], rs[n + 1], sends[n].0, sends[n].1));
        assert(rs[n].allows(port, source) == rs0.last().allows(port, source));
        assert(rs[n + 1].allows(port, source) == (rs[n].allows(port, source) || (port == sends[n].0
            && rs[n].admits_reply(source, sends[n].1))));
        assert(rs[n].admits_reply(source, sends[n].1) == rs[0].admits_reply(source, sends[n].1));
        if rs.last().allows(port, source) && !(rs[0] is Unrestricted) {
            if !rs0.last().allows(port, source) {
                assert(sends[n].0 == port && rs[0].admits_reply(source, sends[n].1));
            } else {
                let i = choose|i: int| 0 <= i < sends0.len() && sends0[i].0 == port && #[trigger] rs[0].admits_reply(source, sends0[i].1);
                assert(sends[i] == sends0[i]);
            }
        }
        if (exists|i: int| 0 <= i < sends.len() && sends[i].0 == port && #[trigger] rs[0].admits_reply(source, sends[i].1)) && !(rs[0] is Unrestricted) {
            let i = choose|i: int| 0 <= i < sends.len() && sends[i].0 == port && #[trigger] rs[0].admits_reply(source, sends[i].1);
            if i < n {
                assert(sends0[i] == sends[i]);
                assert(rs0.last().allows(port, source));
            }
        }
    }
}

} // verus!
