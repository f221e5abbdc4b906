//! ICMPv6 packets.

use vstd::prelude::*;

verus! {

/// An ICMPv6 packet, held as its bytes.
#[derive(Clone, Debug)]
pub struct Icmpv6Packet {
    data: Vec<u8>,
}

impl View for Icmpv6Packet {
    type V = Seq<u8>;

    /// The packet's bytes.
    open spec fn view(&self) -> Seq<u8> {
        self.spec_data()@
    }
}

impl Icmpv6Packet {
    /// The buffer holding the packet.
    pub closed spec fn spec_data(&self) -> Vec<u8> {
        self.data
    }

    /// Wraps the bytes of an ICMPv6 packet.
    pub fn from_bytes(data: Vec<u8>) -> (packet: Icmpv6Packet)
        ensures
            packet@ == data@,
    {
        Icmpv6Packet { data }
    }

    /// The packet's bytes.
    pub fn as_bytes(&self) -> (bytes: &Vec<u8>)
        ensures
            bytes@ == self@,
    {
        &self.data
    }

    /// The message type (byte 0).
    pub fn ty(&self) -> (ty: u8)
        requires
            self@.len() >= 1,
        ensures
            ty == self@[0],
    {
        self.data[0]
    }

    /// The message code (byte 1).
    pub fn code(&self) -> (code: u8)
        requires
            self@.len() >= 2,
        ensures
            code == self@[1],
    {
        self.data[1]
    }
}

} // verus!
