use vstd::prelude::*;
use crate::random::random_u32;

verus! {

/// An IPv4 address, held as its 32-bit big-endian value.
#[derive(Clone, Copy, Debug, PartialEq, Eq, Structural, Hash)]
pub struct Ipv4Addr {
    pub bits: u32,
}

/// Big-endian value of four octets.
pub open spec fn octets_to_u32(a: u8, b: u8, c: u8, d: u8) -> u32 {
    (a as int * 0x1000000 + b as int * 0x10000 + c as int * 0x100 + d as int) as u32
}

/// Big-endian value of the first four bytes of `s`.
pub open spec fn seq_to_u32(s: Seq<u8>) -> u32
    recommends
        s.len() >= 4,
{
    octets_to_u32(s[0], s[1], s[2], s[3])
}

/// The four big-endian octets of `x`.
pub open spec fn u32_to_seq(x: u32) -> Seq<u8> {
    seq![
        (x / 0x1000000) as u8,
        ((x / 0x10000) % 0x100) as u8,
        ((x / 0x100) % 0x100) as u8,
        (x % 0x100) as u8,
    ]
}

/// Reading back the octets of a value gives the value.
pub proof fn lemma_u32_octets_roundtrip(x: u32)
    ensures
        seq_to_u32(u32_to_seq(x)) == x,
        u32_to_seq(x).len() == 4,
{
}

/// Writing out the octets of a value read from four octets gives the same octets.
pub proof fn lemma_octets_u32_roundtrip(s: Seq<u8>)
    requires
        s.len() == 4,
    ensures
        u32_to_seq(seq_to_u32(s)) == s,
{
    let (a, b, c, d) = (s[0] as int, s[1] as int, s[2] as int, s[3] as int);
    let x = a * 0x1000000 + b * 0x10000 + c * 0x100 + d;
    assert(x / 0x1000000 == a && (x / 0x10000) % 0x100 == b && (x / 0x100) % 0x100 == c && x
        % 0x100 == d) by (nonlinear_arith)
        requires
            x == a * 0x1000000 + b * 0x10000 + c * 0x100 + d,
            0 <= a < 256,
            0 <= b < 256,
            0 <= c < 256,
            0 <= d < 256,
    ;
    assert(u32_to_seq(seq_to_u32(s)) =~= s);
}

impl Ipv4Addr {
    /// The address `0.0.0.0`.
    pub fn unspecified() -> (addr: Ipv4Addr)
        ensures
            addr.bits == 0,
    {
        Ipv4Addr { bits: 0 }
    }

    /// The limited broadcast address `255.255.255.255`.
    pub fn broadcast() -> (addr: Ipv4Addr)
        ensures
            addr.bits == 0xffff_ffff,
    {
        Ipv4Addr { bits: 0xffff_ffff }
    }

    /// Builds the address `a.b.c.d`.
    pub fn new(a: u8, b: u8, c: u8, d: u8) -> (addr: Ipv4Addr)
        ensures
            addr.bits == octets_to_u32(a, b, c, d),
    {
        let bits: u32 = (a as u32) * 0x1000000 + (b as u32) * 0x10000 + (c as u32) * 0x100
            + (d as u32);
        Ipv4Addr { bits }
    }

    /// Builds an address from its 32-bit value.
    pub fn from_u32(bits: u32) -> (addr: Ipv4Addr)
        ensures
            addr.bits == bits,
    {
        Ipv4Addr { bits }
    }

    /// The 32-bit value of the address.
    pub fn to_u32(&self) -> (bits: u32)
        ensures
            bits == self.bits,
    {
        self.bits
    }

    /// Builds an address from four big-endian octets.
    pub fn from_octets(octets: [u8; 4]) -> (addr: Ipv4Addr)
        ensures
            addr.bits == seq_to_u32(octets@),
    {
        Ipv4Addr::new(octets[0], octets[1], octets[2], octets[3])
    }

    /// The four big-endian octets of the address.
    pub fn octets(&self) -> (octets: [u8; 4])
        ensures
            octets@ == u32_to_seq(self.bits),
    {
        let x = self.bits;
        let octets = [
            (x / 0x1000000) as u8,
            ((x / 0x10000) % 0x100) as u8,
            ((x / 0x100) % 0x100) as u8,
            (x % 0x100) as u8,
        ];
        assert(octets@ =~= u32_to_seq(self.bits));
        octets
    }
}

/// An IPv6 address, held as its sixteen octets.
#[derive(Clone, Copy, Debug, PartialEq, Eq, Hash)]
pub struct Ipv6Addr {
    pub octets: [u8; 16],
}

/// Big-endian value of the bytes of `s`.
pub open spec fn seq_to_nat(s: Seq<u8>) -> nat
    decreases s.len(),
{
    if s.len() == 0 {
        0
    } else {
        seq_to_nat(s.drop_last()) * 256 + s.last() as nat
    }
}

/// `256` to the power `n`.
pub open spec fn pow256(n: nat) -> nat
    decreases n,
{
    if n == 0 {
        1
    } else {
        256 * pow256((n - 1) as nat)
    }
}

/// The value of `n` big-endian bytes is below `256^n`.
pub proof fn lemma_seq_to_nat_bound(s: Seq<u8>)
    ensures
        seq_to_nat(s) < pow256(s.len()),
    decreases s.len(),
{
    if s.len() > 0 {
        lemma_seq_to_nat_bound(s.drop_last());
        let a = seq_to_nat(s.drop_last());
        let p = pow256((s.len() - 1) as nat);
        assert(a * 256 + (s.last() as nat) < 256 * p) by (nonlinear_arith)
            requires
                a < p,
                s.last() < 256,
        ;
    }
}

impl Ipv6Addr {
    /// The address `::`.
    pub fn unspecified() -> (addr: Ipv6Addr)
        ensures
            addr.octets@ == Seq::new(16, |i: int| 0u8),
    {
        let addr = Ipv6Addr { octets: [0u8; 16] };
        assert(addr.octets@ =~= Seq::new(16, |i: int| 0u8));
        addr
    }

    /// Builds an address from its sixteen octets.
    pub fn from_octets(octets: [u8; 16]) -> (addr: Ipv6Addr)
        ensures
            addr.octets == octets,
    {
        Ipv6Addr { octets }
    }

    /// The sixteen octets of the address.
    pub fn octets(&self) -> (octets: [u8; 16])
        ensures
            octets == self.octets,
    {
        self.octets
    }

    /// The 128-bit big-endian value of the address.
    pub fn to_u128(&self) -> (bits: u128)
        ensures
            bits as nat == seq_to_nat(self.octets@),
    {
        let mut acc: u128 = 0;
        let mut i: usize = 0;
        while i < 16
            invariant
                i <= 16,
                acc as nat == seq_to_nat(self.octets@.take(i as int)),
            decreases 16 - i,
        {
            proof {
                let t = self.octets@.take(i as int + 1);
                assert(t.drop_last() =~= self.octets@.take(i as int));
                lemma_seq_to_nat_bound(self.octets@.take(i as int));
                assert(pow256(0) == 1 && pow256(1) == 256);
                reveal_with_fuel(pow256, 17);
                assert(pow256(i as nat) <= pow256(15)) by {
                    lemma_pow256_mono(i as nat, 15);
                }
                assert(pow256(15) * 256 <= u128::MAX + 1);
            }
            acc = acc * 256 + self.octets[i] as u128;
            i = i + 1;
        }
        assert(self.octets@.take(16) =~= self.octets@);
        acc
    }
}

/// `256^n` grows with `n`.
pub proof fn lemma_pow256_mono(m: nat, n: nat)
    requires
        m <= n,
    ensures
        pow256(m) <= pow256(n),
    decreases n,
{
    if m < n {
        lemma_pow256_mono(m, (n - 1) as nat);
    }
}

/// An IPv4 socket address: an address and a port.
#[derive(Clone, Copy, Debug, PartialEq, Eq, Structural, Hash)]
pub struct SocketAddrV4 {
    pub ip: Ipv4Addr,
    pub port: u16,
}

/// The 48-bit number that identifies a socket address: the address above the port.
pub open spec fn socket_key(addr: SocketAddrV4) -> u64 {
    (addr.ip.bits as int * 0x10000 + addr.port as int) as u64
}

/// The 96-bit number that identifies an ordered pair of socket addresses.
pub open spec fn socket_pair_key(a: SocketAddrV4, b: SocketAddrV4) -> u128 {
    (socket_key(a) as int * 0x1_0000_0000_0000 + socket_key(b) as int) as u128
}

/// Two socket addresses with the same key are the same address.
pub proof fn lemma_socket_key_injective(a: SocketAddrV4, b: SocketAddrV4)
    ensures
        socket_key(a) == socket_key(b) <==> a == b,
{
}

/// Two pairs of socket addresses with the same key are the same pair.
pub proof fn lemma_socket_pair_key_injective(
    a: SocketAddrV4,
    b: SocketAddrV4,
    c: SocketAddrV4,
    d: SocketAddrV4,
)
    ensures
        socket_pair_key(a, b) == socket_pair_key(c, d) <==> (a == c && b == d),
{
    lemma_socket_key_injective(a, c);
    lemma_socket_key_injective(b, d);
}

impl SocketAddrV4 {
    /// Builds the socket address `ip:port`.
    pub fn new(ip: Ipv4Addr, port: u16) -> (addr: SocketAddrV4)
        ensures
            addr.ip == ip,
            addr.port == port,
    {
        SocketAddrV4 { ip, port }
    }

    /// The address part.
    pub fn ip(&self) -> (ip: Ipv4Addr)
        ensures
            ip == self.ip,
    {
        self.ip
    }

    /// The port part.
    pub fn port(&self) -> (port: u16)
        ensures
            port == self.port,
    {
        self.port
    }

    /// The number that identifies this socket address (see `socket_key`).
    pub fn key(&self) -> (key: u64)
        ensures
            key == socket_key(*self),
    {
        (self.ip.bits as u64) * 0x10000 + (self.port as u64)
    }

    /// The number that identifies the pair `(self, other)` (see `socket_pair_key`).
    pub fn pair_key(&self, other: &SocketAddrV4) -> (key: u128)
        ensures
            key == socket_pair_key(*self, *other),
    {
        (self.key() as u128) * 0x1_0000_0000_0000 + (other.key() as u128)
    }
}

/// The address is globally routable: not unspecified, loopback (127/8), private (10/8,
/// 172.16/12, 192.168/16), link-local (169.254/16), multicast (224/4), the broadcast address,
/// documentation (192.0.2/24, 198.51.100/24, 203.0.113/24) or reserved (240/4).
pub open spec fn spec_is_global(bits: u32) -> bool {
    !(bits == 0 || bits / 0x100_0000 == 127 || bits / 0x100_0000 == 10 || bits / 0x10_0000
        == 0xac1 || bits / 0x1_0000 == 0xc0a8 || bits / 0x1_0000 == 0xa9fe || bits / 0x1000_0000
        == 0xe || bits == 0xffff_ffff || bits / 0x100 == 0xc0_0002 || bits / 0x100 == 0xc6_3364
        || bits / 0x100 == 0xcb_0071 || bits / 0x1000_0000 == 0xf)
}

/// How many random addresses `random_global` draws before it settles for a fixed one.
pub const GLOBAL_DRAWS: u32 = 1_000_000;

impl Ipv4Addr {
    /// Whether the address is globally routable (see `spec_is_global`).
    pub fn is_global(&self) -> (res: bool)
        ensures
            res == spec_is_global(self.bits),
    {
        let bits = self.bits;
        !(bits == 0 || bits / 0x100_0000 == 127 || bits / 0x100_0000 == 10 || bits / 0x10_0000
            == 0xac1 || bits / 0x1_0000 == 0xc0a8 || bits / 0x1_0000 == 0xa9fe || bits
            / 0x1000_0000 == 0xe || bits == 0xffff_ffff || bits / 0x100 == 0xc0_0002 || bits
            / 0x100 == 0xc6_3364 || bits / 0x100 == 0xcb_0071 || bits / 0x1000_0000 == 0xf)
    }

    /// A random globally routable address: random addresses are drawn until one is global. In
    /// the never-seen case that `GLOBAL_DRAWS` draws in a row are not, the address `1.1.1.1` is
    /// returned.
    pub fn random_global() -> (addr: Ipv4Addr)
        ensures
            spec_is_global(addr.bits),
    {
        let mut attempts: u32 = 0;
        while attempts < GLOBAL_DRAWS
            decreases GLOBAL_DRAWS - attempts,
        {
            let addr = Ipv4Addr { bits: random_u32() };
            if addr.is_global() {
                return addr;
            }
            attempts = attempts + 1;
        }
        Ipv4Addr::new(1, 1, 1, 1)
    }
}

} // verus!
