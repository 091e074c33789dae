//! IPv4 and IPv6 addresses.

use vstd::prelude::*;

use crate::bytes;
use crate::bytes::{high_byte, join16, low_byte};

verus! {

/// An IPv4 address, as its four octets in network order.
#[derive(Debug, Clone, Copy, PartialEq, Eq, Hash, Structural)]
pub struct Ipv4Addr {
    pub a: u8,
    pub b: u8,
    pub c: u8,
    pub d: u8,
}

/// The IPv4 address held in the four bytes at offset `i` of `s`.
pub open spec fn ipv4_at(s: Seq<u8>, i: int) -> Ipv4Addr {
    Ipv4Addr { a: s[i], b: s[i + 1], c: s[i + 2], d: s[i + 3] }
}

/// 0.0.0.0, which stands for every local address.
pub open spec fn ipv4_unspecified() -> Ipv4Addr {
    Ipv4Addr { a: 0, b: 0, c: 0, d: 0 }
}

/// 255.255.255.255.
pub open spec fn ipv4_broadcast() -> Ipv4Addr {
    Ipv4Addr { a: 255, b: 255, c: 255, d: 255 }
}

impl Ipv4Addr {
    /// The four octets in network order.
    pub open spec fn bytes(self) -> Seq<u8> {
        seq![self.a, self.b, self.c, self.d]
    }

    /// The address as a number, the first octet being the most significant.
    pub open spec fn number(self) -> int {
        self.a * 0x100_0000 + self.b * 0x1_0000 + self.c * 0x100 + self.d
    }

    pub fn new(a: u8, b: u8, c: u8, d: u8) -> (r: Ipv4Addr)
        ensures
            r == (Ipv4Addr { a, b, c, d }),
    {
        Ipv4Addr { a, b, c, d }
    }

    /// 0.0.0.0.
    pub fn unspecified() -> (r: Ipv4Addr)
        ensures
            r == ipv4_unspecified(),
    {
        Ipv4Addr { a: 0, b: 0, c: 0, d: 0 }
    }

    /// 255.255.255.255.
    pub fn broadcast() -> (r: Ipv4Addr)
        ensures
            r == ipv4_broadcast(),
    {
        Ipv4Addr { a: 255, b: 255, c: 255, d: 255 }
    }

    pub fn octets(&self) -> (r: [u8; 4])
        ensures
            r@ == self.bytes(),
    {
        let r = [self.a, self.b, self.c, self.d];
        assert(r@ =~= self.bytes());
        r
    }

    pub fn to_u32(&self) -> (r: u32)
        ensures
            r == self.number(),
    {
        self.a as u32 * 0x100_0000 + self.b as u32 * 0x1_0000 + self.c as u32 * 0x100
            + self.d as u32
    }

    pub fn is_unspecified(&self) -> (r: bool)
        ensures
            r == (*self == ipv4_unspecified()),
    {
        self.a == 0 && self.b == 0 && self.c == 0 && self.d == 0
    }

    /// Whether the address is in 224.0.0.0/4.
    pub fn is_multicast(&self) -> (r: bool)
        ensures
            r == (224 <= self.a <= 239),
    {
        224 <= self.a && self.a <= 239
    }
}

/// Two addresses with the same number are the same address.
pub proof fn lemma_ipv4_number_injective(x: Ipv4Addr, y: Ipv4Addr)
    requires
        x.number() == y.number(),
    ensures
        x == y,
{
}

/// Reads the IPv4 address at offset `i`.
pub fn read_ipv4(data: &[u8], i: usize) -> (r: Ipv4Addr)
    requires
        i + 4 <= data@.len(),
    ensures
        r == ipv4_at(data@, i as int),
{
    assert(i + 4 <= data.len());
    Ipv4Addr { a: data[i], b: data[i + 1], c: data[i + 2], d: data[i + 3] }
}

/// An IPv6 address, as its eight 16-bit segments.
#[derive(Debug, Clone, Copy, PartialEq, Eq, Hash, Structural)]
pub struct Ipv6Addr {
    pub s0: u16,
    pub s1: u16,
    pub s2: u16,
    pub s3: u16,
    pub s4: u16,
    pub s5: u16,
    pub s6: u16,
    pub s7: u16,
}

/// The IPv6 address held in the sixteen bytes at offset `i` of `s`.
pub open spec fn ipv6_at(s: Seq<u8>, i: int) -> Ipv6Addr {
    Ipv6Addr {
        s0: bytes::be16_at(s, i),
        s1: bytes::be16_at(s, i + 2),
        s2: bytes::be16_at(s, i + 4),
        s3: bytes::be16_at(s, i + 6),
        s4: bytes::be16_at(s, i + 8),
        s5: bytes::be16_at(s, i + 10),
        s6: bytes::be16_at(s, i + 12),
        s7: bytes::be16_at(s, i + 14),
    }
}

/// The address `::`.
pub open spec fn ipv6_unspecified() -> Ipv6Addr {
    Ipv6Addr { s0: 0, s1: 0, s2: 0, s3: 0, s4: 0, s5: 0, s6: 0, s7: 0 }
}

impl Ipv6Addr {
    /// The sixteen octets in network order.
    pub open spec fn bytes(self) -> Seq<u8> {
        seq![
            (self.s0 / 256) as u8,
            (self.s0 % 256) as u8,
            (self.s1 / 256) as u8,
            (self.s1 % 256) as u8,
            (self.s2 / 256) as u8,
            (self.s2 % 256) as u8,
            (self.s3 / 256) as u8,
            (self.s3 % 256) as u8,
            (self.s4 / 256) as u8,
            (self.s4 % 256) as u8,
            (self.s5 / 256) as u8,
            (self.s5 % 256) as u8,
            (self.s6 / 256) as u8,
            (self.s6 % 256) as u8,
            (self.s7 / 256) as u8,
            (self.s7 % 256) as u8,
        ]
    }

    pub fn new(s0: u16, s1: u16, s2: u16, s3: u16, s4: u16, s5: u16, s6: u16, s7: u16) -> (r:
        Ipv6Addr)
        ensures
            r == (Ipv6Addr { s0, s1, s2, s3, s4, s5, s6, s7 }),
    {
        Ipv6Addr { s0, s1, s2, s3, s4, s5, s6, s7 }
    }

    /// The address `::`.
    pub fn unspecified() -> (r: Ipv6Addr)
        ensures
            r == ipv6_unspecified(),
    {
        Ipv6Addr { s0: 0, s1: 0, s2: 0, s3: 0, s4: 0, s5: 0, s6: 0, s7: 0 }
    }

    /// The address `::1`.
    pub fn localhost() -> (r: Ipv6Addr)
        ensures
            r == (Ipv6Addr { s0: 0, s1: 0, s2: 0, s3: 0, s4: 0, s5: 0, s6: 0, s7: 1 }),
    {
        Ipv6Addr { s0: 0, s1: 0, s2: 0, s3: 0, s4: 0, s5: 0, s6: 0, s7: 1 }
    }

    pub fn octets(&self) -> (r: [u8; 16])
        ensures
            r@ == self.bytes(),
    {
        let r = [
            high_byte(self.s0),
            low_byte(self.s0),
            high_byte(self.s1),
            low_byte(self.s1),
            high_byte(self.s2),
            low_byte(self.s2),
            high_byte(self.s3),
            low_byte(self.s3),
            high_byte(self.s4),
            low_byte(self.s4),
            high_byte(self.s5),
            low_byte(self.s5),
            high_byte(self.s6),
            low_byte(self.s6),
            high_byte(self.s7),
            low_byte(self.s7),
        ];
        assert(r@ =~= self.bytes());
        r
    }

    pub fn is_unspecified(&self) -> (r: bool)
        ensures
            r == (*self == ipv6_unspecified()),
    {
        self.s0 == 0 && self.s1 == 0 && self.s2 == 0 && self.s3 == 0 && self.s4 == 0 && self.s5
            == 0 && self.s6 == 0 && self.s7 == 0
    }
}

/// Reads the IPv6 address at offset `i`.
pub fn read_ipv6(data: &[u8], i: usize) -> (r: Ipv6Addr)
    requires
        i + 16 <= data@.len(),
    ensures
        r == ipv6_at(data@, i as int),
{
    assert(i + 16 <= data.len());
    Ipv6Addr {
        s0: join16(data[i], data[i + 1]),
        s1: join16(data[i + 2], data[i + 3]),
        s2: join16(data[i + 4], data[i + 5]),
        s3: join16(data[i + 6], data[i + 7]),
        s4: join16(data[i + 8], data[i + 9]),
        s5: join16(data[i + 10], data[i + 11]),
        s6: join16(data[i + 12], data[i + 13]),
        s7: join16(data[i + 14], data[i + 15]),
    }
}

/// Reading the bytes of an IPv4 address inside a sequence gives the address.
pub proof fn lemma_ipv4_at_bytes(s: Seq<u8>, i: int, x: Ipv4Addr)
    requires
        0 <= i,
        i + 4 <= s.len(),
        s.subrange(i, i + 4) == x.bytes(),
    ensures
        ipv4_at(s, i) == x,
{
    assert(forall|k: int| 0 <= k < 4 ==> s[i + k] == #[trigger] s.subrange(i, i + 4)[k]);
    assert(s[i + 0] == x.a && s[i + 1] == x.b && s[i + 2] == x.c && s[i + 3] == x.d);
}

/// The bytes of the IPv4 address at an offset are the bytes there.
pub proof fn lemma_bytes_of_ipv4_at(s: Seq<u8>, i: int)
    requires
        0 <= i,
        i + 4 <= s.len(),
    ensures
        ipv4_at(s, i).bytes() == s.subrange(i, i + 4),
{
    assert(ipv4_at(s, i).bytes() =~= s.subrange(i, i + 4));
}

/// The bytes of the IPv6 address at an offset are the bytes there.
pub proof fn lemma_bytes_of_ipv6_at(s: Seq<u8>, i: int)
    requires
        0 <= i,
        i + 16 <= s.len(),
    ensures
        ipv6_at(s, i).bytes() == s.subrange(i, i + 16),
{
    assert(ipv6_at(s, i).bytes() =~= s.subrange(i, i + 16));
}

/// Reading the bytes of an IPv6 address inside a sequence gives the address.
pub proof fn lemma_ipv6_at_bytes(s: Seq<u8>, i: int, x: Ipv6Addr)
    requires
        0 <= i,
        i + 16 <= s.len(),
        s.subrange(i, i + 16) == x.bytes(),
    ensures
        ipv6_at(s, i) == x,
{
    let b = x.bytes();
    let t = s.subrange(i, i + 16);
    assert(s[i] == t[0] && s[i + 1] == t[1] && s[i + 2] == t[2] && s[i + 3] == t[3]);
    assert(s[i + 4] == t[4] && s[i + 5] == t[5] && s[i + 6] == t[6] && s[i + 7] == t[7]);
    assert(s[i + 8] == t[8] && s[i + 9] == t[9] && s[i + 10] == t[10] && s[i + 11] == t[11]);
    assert(s[i + 12] == t[12] && s[i + 13] == t[13] && s[i + 14] == t[14] && s[i + 15] == t[15]);
    assert(b[0] == x.s0 / 256 && b[1] == x.s0 % 256 && b[2] == x.s1 / 256 && b[3] == x.s1 % 256);
    assert(b[4] == x.s2 / 256 && b[5] == x.s2 % 256 && b[6] == x.s3 / 256 && b[7] == x.s3 % 256);
    assert(b[8] == x.s4 / 256 && b[9] == x.s4 % 256 && b[10] == x.s5 / 256 && b[11] == x.s5 % 256);
    assert(b[12] == x.s6 / 256 && b[13] == x.s6 % 256 && b[14] == x.s7 / 256 && b[15] == x.s7 % 256);
}

/// An Ethernet address.
#[derive(Debug, Clone, Copy, PartialEq, Eq)]
pub struct MacAddress {
    pub octets: [u8; 6],
}

impl View for MacAddress {
    type V = Seq<u8>;

    open spec fn view(&self) -> Seq<u8> {
        self.octets@
    }
}

/// The bytes of the broadcast Ethernet address.
pub open spec fn broadcast_mac() -> Seq<u8> {
    seq![0xFFu8, 0xFFu8, 0xFFu8, 0xFFu8, 0xFFu8, 0xFFu8]
}

impl MacAddress {
    pub fn new(octets: [u8; 6]) -> (r: Self)
        ensures
            r == (MacAddress { octets }),
    {
        MacAddress { octets }
    }

    pub fn octets(&self) -> (r: [u8; 6])
        ensures
            r@ == self@,
    {
        self.octets
    }

    /// ff:ff:ff:ff:ff:ff.
    pub fn broadcast() -> (r: Self)
        ensures
            r@ == broadcast_mac(),
    {
        let r = MacAddress { octets: [0xFF, 0xFF, 0xFF, 0xFF, 0xFF, 0xFF] };
        assert(r@ =~= broadcast_mac());
        r
    }
}

/// An IPv4 address and a port.
#[derive(Debug, Clone, Copy, PartialEq, Eq, Structural)]
pub struct SocketAddrV4 {
    pub ip: Ipv4Addr,
    pub port: u16,
}

impl SocketAddrV4 {
    pub fn new(ip: Ipv4Addr, port: u16) -> (r: Self)
        ensures
            r == (SocketAddrV4 { ip, port }),
    {
        SocketAddrV4 { ip, port }
    }
}

/// An IPv6 address and a port.
#[derive(Debug, Clone, Copy, PartialEq, Eq, Structural)]
pub struct SocketAddrV6 {
    pub ip: Ipv6Addr,
    pub port: u16,
    pub flowinfo: u32,
    pub scope_id: u32,
}

/// The address of a socket.
#[derive(Debug, Clone, Copy, PartialEq, Eq, Structural)]
pub enum SocketAddr {
    V4(SocketAddrV4),
    V6(SocketAddrV6),
}

impl SocketAddr {
    pub fn port(&self) -> (r: u16)
        ensures
            r == match *self {
                SocketAddr::V4(v4) => v4.port,
                SocketAddr::V6(v6) => v6.port,
            },
    {
        match *self {
            SocketAddr::V4(v4) => v4.port,
            SocketAddr::V6(v6) => v6.port,
        }
    }
}

} // verus!
