//! Simulating a number of router hops on Ethernet frames: each IP packet that passes loses that
//! many hops of its TTL (IPv4) or hop limit (IPv6), and a packet that runs out is dropped.

use vstd::prelude::*;
use crate::bytes::{be16, read_be16, set_byte};

verus! {

/// The Ethernet type of IPv4.
pub const ETHERTYPE_IPV4: u16 = 0x0800;

/// The Ethernet type of IPv6.
pub const ETHERTYPE_IPV6: u16 = 0x86dd;

/// Offset in a frame of the IPv4 TTL: a 14-byte Ethernet header, then byte 8 of the packet.
pub const IPV4_TTL_OFFSET: usize = 22;

/// Offset in a frame of the IPv6 hop limit: a 14-byte Ethernet header, then byte 7 of the
/// packet.
pub const IPV6_HOP_LIMIT_OFFSET: usize = 21;

/// The Ethernet type of `frame` (bytes 12 and 13).
pub open spec fn ethertype(frame: Seq<u8>) -> u16 {
    be16(frame[12], frame[13])
}

/// `frame` is long enough for `process_frame` to read it: it has an Ethernet header, and an IP
/// packet of the type it names reaches the byte that holds the hop count.
pub open spec fn frame_readable(frame: Seq<u8>) -> bool {
    &&& frame.len() >= 14
    &&& ethertype(frame) == ETHERTYPE_IPV4 ==> frame.len() > IPV4_TTL_OFFSET
    &&& ethertype(frame) == ETHERTYPE_IPV6 ==> frame.len() > IPV6_HOP_LIMIT_OFFSET
}

/// `frame` after `hops` hops: the hop count at `offset` reduced by `hops`, or nothing when the
/// count is smaller than `hops`.
pub open spec fn reduce_hops_at(frame: Seq<u8>, offset: int, hops: u8) -> Option<Seq<u8>> {
    if frame[offset] >= hops {
        Some(frame.update(offset, (frame[offset] - hops) as u8))
    } else {
        None
    }
}

/// What `hops` hops do to `frame`: an IPv4 or IPv6 packet loses them from its hop count, or is
/// dropped when it has fewer left; a frame of another type is dropped.
pub open spec fn hop_frame(frame: Seq<u8>, hops: u8) -> Option<Seq<u8>> {
    if ethertype(frame) == ETHERTYPE_IPV4 {
        reduce_hops_at(frame, IPV4_TTL_OFFSET as int, hops)
    } else if ethertype(frame) == ETHERTYPE_IPV6 {
        reduce_hops_at(frame, IPV6_HOP_LIMIT_OFFSET as int, hops)
    } else {
        None
    }
}

/// A number of hops that frames pass through.
#[derive(Clone, Copy, Debug)]
pub struct Hops {
    pub hops: u8,
}

impl Hops {
    /// Simulates `hops` hops.
    pub fn new(hops: u8) -> (h: Hops)
        ensures
            h.hops == hops,
    {
        Hops { hops }
    }

    /// The frame after the hops (see `hop_frame`), or `None` when it is dropped.
    pub fn process_frame(&self, frame: Vec<u8>) -> (out: Option<Vec<u8>>)
        requires
            frame_readable(frame@),
        ensures
            out matches Some(f) ==> hop_frame(frame@, self.hops) == Some(f@),
            out is None ==> hop_frame(frame@, self.hops) is None,
    {
        let mut frame = frame;
        let ty = read_be16(frame.as_slice(), 12);
        let offset = if ty == ETHERTYPE_IPV4 {
            IPV4_TTL_OFFSET
        } else if ty == ETHERTYPE_IPV6 {
            IPV6_HOP_LIMIT_OFFSET
        } else {
            return None;
        };
        match frame[offset].checked_sub(self.hops) {
            Some(hop_limit) => {
                set_byte(&mut frame, offset, hop_limit);
                Some(frame)
            },
            None => None,
        }
    }
}

/// Passing `a` hops and then `b` hops is passing `a + b` hops, as long as the sum fits in a
/// byte.
pub proof fn lemma_hops_compose(frame: Seq<u8>, a: u8, b: u8)
    requires
        frame_readable(frame),
        a + b <= 255,
    ensures
        match hop_frame(frame, a) {
            Some(f) => hop_frame(f, b) == hop_frame(frame, (a + b) as u8),
            None => hop_frame(frame, (a + b) as u8) is None,
        },
{
    if let Some(f) = hop_frame(frame, a) {
        assert(f.subrange(12, 14) == frame.subrange(12, 14));
        assert(f[12] == frame[12] && f[13] == frame[13]);
        if ethertype(frame) == ETHERTYPE_IPV4 {
            assert(f.update(IPV4_TTL_OFFSET as int, (f[IPV4_TTL_OFFSET as int] - b) as u8) =~= frame.update(
                IPV4_TTL_OFFSET as int,
                (frame[IPV4_TTL_OFFSET as int] - (a + b)) as u8,
            ));
        } else if ethertype(frame) == ETHERTYPE_IPV6 {
            assert(f.update(IPV6_HOP_LIMIT_OFFSET as int, (f[IPV6_HOP_LIMIT_OFFSET as int] - b) as u8)
                =~= frame.update(
                IPV6_HOP_LIMIT_OFFSET as int,
                (frame[IPV6_HOP_LIMIT_OFFSET as int] - (a + b)) as u8,
            ));
        }
    }
}

} // verus!
