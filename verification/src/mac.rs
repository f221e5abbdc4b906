//! Ethernet MAC addresses.

use vstd::prelude::*;
use crate::random::random_bytes6;

verus! {

/// A 48-bit Ethernet MAC address, held as its six octets.
#[derive(Clone, Copy, Debug, PartialEq, Eq, Hash)]
pub struct MacAddr {
    bytes: [u8; 6],
}

impl View for MacAddr {
    type V = Seq<u8>;

    /// The six octets of the address.
    open spec fn view(&self) -> Seq<u8> {
        self.spec_bytes()@
    }
}

impl MacAddr {
    /// The array of the six octets.
    pub closed spec fn spec_bytes(&self) -> [u8; 6] {
        self.bytes
    }

    /// The address `ff:ff:ff:ff:ff:ff`.
    pub open spec fn spec_is_broadcast(&self) -> bool {
        forall|i: int| 0 <= i < 6 ==> #[trigger] self@[i] == 0xff
    }

    /// Builds an address from exactly six octets.
    pub fn from_bytes(bytes: &[u8]) -> (addr: MacAddr)
        requires
            bytes@.len() == 6,
        ensures
            addr@ == bytes@,
    {
        let b: [u8; 6] = [bytes[0], bytes[1], bytes[2], bytes[3], bytes[4], bytes[5]];
        let addr = MacAddr { bytes: b };
        assert(addr@ =~= bytes@);
        addr
    }

    /// Builds an address from its six octets.
    pub fn from_array(bytes: [u8; 6]) -> (addr: MacAddr)
        ensures
            addr@ == bytes@,
    {
        MacAddr { bytes }
    }

    /// The six octets of the address.
    pub fn as_bytes(&self) -> (bytes: &[u8])
        ensures
            bytes@ == self@,
            bytes@.len() == 6,
    {
        self.bytes.as_slice()
    }

    /// The six octets of the address, as an array.
    pub fn octets(&self) -> (bytes: [u8; 6])
        ensures
            bytes@ == self@,
    {
        self.bytes
    }

    /// The broadcast address `ff:ff:ff:ff:ff:ff`.
    pub fn broadcast() -> (addr: MacAddr)
        ensures
            addr.spec_is_broadcast(),
            addr@ == seq![0xffu8, 0xff, 0xff, 0xff, 0xff, 0xff],
    {
        let addr = MacAddr { bytes: [0xffu8; 6] };
        assert(addr@ =~= seq![0xffu8, 0xff, 0xff, 0xff, 0xff, 0xff]);
        addr
    }

    /// Whether this is the broadcast address.
    pub fn is_broadcast(&self) -> (res: bool)
        ensures
            res == self.spec_is_broadcast(),
    {
        let b = self.bytes;
        proof {
            assert(self@[0] == b[0] && self@[1] == b[1] && self@[2] == b[2] && self@[3] == b[3]
                && self@[4] == b[4] && self@[5] == b[5]);
        }
        b[0] == 0xff && b[1] == 0xff && b[2] == 0xff && b[3] == 0xff && b[4] == 0xff && b[5]
            == 0xff
    }

    /// Whether two addresses are the same.
    pub fn same_as(&self, other: &MacAddr) -> (res: bool)
        ensures
            res == (*self == *other),
    {
        let a = self.bytes;
        let b = other.bytes;
        let res = a[0] == b[0] && a[1] == b[1] && a[2] == b[2] && a[3] == b[3] && a[4] == b[4]
            && a[5] == b[5];
        proof {
            if res {
                assert(a@ =~= b@);
                assert(self.bytes == other.bytes);
            } else {
                assert(a@[0] != b@[0] || a@[1] != b@[1] || a@[2] != b@[2] || a@[3] != b@[3] || a@[4]
                    != b@[4] || a@[5] != b@[5]);
            }
        }
        res
    }

    /// A random unicast, globally administered address: six random octets with the two low
    /// bits of the first cleared.
    pub fn random() -> (addr: MacAddr)
        ensures
            addr@[0] & 0x03 == 0,
            addr@.len() == 6,
    {
        let mut b = random_bytes6();
        let b0 = b[0];
        let first = b0 & 0xfc;
        b[0] = first;
        assert(first & 0x03 == 0) by (bit_vector)
            requires
                first == b0 & 0xfc,
        ;
        MacAddr { bytes: b }
    }
}

} // verus!
