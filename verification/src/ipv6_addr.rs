//! IPv6 addresses: link-local addresses, scope identifiers, and the multicast
//! groups that Neighbor Discovery uses.

use vstd::prelude::*;

use crate::addr::Ipv6Addr;
use crate::parse;
use crate::parse::{chars_of, parse_ipv6_chars, text_between};
use crate::text::string_of;

verus! {

/// The prefix fe80::/10, whose first group runs from fe80 to febf.
pub open spec fn in_link_local_prefix(ip: Ipv6Addr) -> bool {
    0xfe80 <= ip.s0 <= 0xfebf
}

/// Whether `addr` is in fe80::/10.
pub fn is_link_local(addr: &Ipv6Addr) -> (r: bool)
    ensures
        r == in_link_local_prefix(*addr),
{
    0xfe80 <= addr.s0 && addr.s0 <= 0xfebf
}

/// An IPv6 address with an optional scope identifier.
#[derive(Debug, Clone, PartialEq, Eq)]
pub struct ScopedIpv6Addr {
    pub addr: Ipv6Addr,
    /// The zone, mostly the name or the number of an interface.
    pub scope_id: Option<String>,
}

/// Whether the first percent sign of `t` is at `i`.
pub open spec fn first_percent(t: Seq<char>, i: int) -> bool {
    &&& 0 <= i < t.len()
    &&& t[i] == '%'
    &&& !t.take(i).contains('%')
}

/// Whether `r` is what `t` says: an address, or an address and a zone that is not
/// empty, with a percent sign between them.
pub open spec fn is_scoped(t: Seq<char>, addr: Ipv6Addr, scope: Option<Seq<char>>) -> bool {
    match scope {
        None => !t.contains('%') && parse::ipv6_of(t) == Some(addr),
        Some(zone) => exists|i: int| #[trigger]
            first_percent(t, i) && parse::ipv6_of(t.take(i)) == Some(addr) && zone == t.skip(i + 1)
                && zone.len() > 0,
    }
}

/// The text of an optional string.
pub open spec fn scope_text(scope: Option<String>) -> Option<Seq<char>> {
    match scope {
        Some(s) => Some(s@),
        None => None,
    }
}

/// Parses an IPv6 address that may end in `%` and a scope identifier.
pub fn parse_scoped_address(s: &str) -> (r: Option<ScopedIpv6Addr>)
    ensures
        match r {
            Some(v) => is_scoped(s@, v.addr, scope_text(v.scope_id)),
            None => forall|addr: Ipv6Addr, scope: Option<Seq<char>>| !is_scoped(s@, addr, scope),
        },
{
    let t = chars_of(s);
    let end = t.len();
    let mut i: usize = 0;
    while i < t.len()
        invariant
            i <= t@.len(),
            t@ == s@,
            end == t@.len(),
            forall|k: int| 0 <= k < i ==> t@[k] != '%',
        decreases t@.len() - i,
    {
        if t[i] == '%' {
            proof {
                assert(!t@.take(i as int).contains('%'));
                assert(first_percent(t@, i as int));
                assert forall|j: int| #[trigger] first_percent(t@, j) implies j == i by {
                    if i < j {
                        assert(t@.take(j)[i as int] == '%');
                    }
                }
                assert(t@.contains('%'));
                assert(t@.subrange(0, i as int) =~= t@.take(i as int));
                assert(t@.subrange(i + 1, t@.len() as int) =~= t@.skip(i + 1));
            }
            let addr = match parse_ipv6_chars(&text_between(&t, 0, i)) {
                Some(addr) => addr,
                None => return None,
            };
            if i + 1 == end {
                return None;
            }
            let zone = string_of(&text_between(&t, i + 1, end));
            return Some(ScopedIpv6Addr { addr, scope_id: Some(zone) });
        }
        i = i + 1;
    }
    assert(!t@.contains('%'));
    match parse_ipv6_chars(&t) {
        Some(addr) => Some(ScopedIpv6Addr { addr, scope_id: None }),
        None => None,
    }
}

/// The solicited-node multicast group of an address: ff02::1:ff00:0 with the low 24
/// bits of the address.
pub open spec fn solicited_node(addr: Ipv6Addr) -> Ipv6Addr {
    Ipv6Addr {
        s0: 0xff02,
        s1: 0,
        s2: 0,
        s3: 0,
        s4: 0,
        s5: 1,
        s6: (0xff00 + addr.s6 % 256) as u16,
        s7: addr.s7,
    }
}

/// The solicited-node multicast group of a unicast address.
pub fn solicited_node_multicast_addr(addr: &Ipv6Addr) -> (r: Ipv6Addr)
    ensures
        r == solicited_node(*addr),
{
    Ipv6Addr::new(0xff02, 0, 0, 0, 0, 1, 0xff00 + addr.s6 % 256, addr.s7)
}

/// The Ethernet address of an IPv6 multicast group: 33:33 and the low 32 bits of the
/// group.
pub open spec fn multicast_mac(group: Ipv6Addr) -> Seq<u8> {
    seq![0x33u8, 0x33u8] + group.bytes().subrange(12, 16)
}

/// The Ethernet address of the solicited-node multicast group of a unicast address.
pub fn solicited_node_multicast_mac(addr: &Ipv6Addr) -> (r: [u8; 6])
    ensures
        r@ == multicast_mac(solicited_node(*addr)),
        r@ == seq![0x33u8, 0x33u8, 0xFFu8] + addr.bytes().subrange(13, 16),
{
    let octets = addr.octets();
    let r = [0x33u8, 0x33, 0xFF, octets[13], octets[14], octets[15]];
    proof {
        let group = solicited_node(*addr);
        assert(group.s6 / 256 == 0xff && group.s6 % 256 == addr.s6 % 256);
        assert(r@ =~= multicast_mac(group));
        assert(r@ =~= seq![0x33u8, 0x33u8, 0xFFu8] + addr.bytes().subrange(13, 16));
    }
    r
}

/// The Ethernet address of an IPv6 multicast group.
pub fn ipv6_multicast_mac(mcast_addr: &Ipv6Addr) -> (r: [u8; 6])
    ensures
        r@ == multicast_mac(*mcast_addr),
{
    let octets = mcast_addr.octets();
    let r = [0x33u8, 0x33, octets[12], octets[13], octets[14], octets[15]];
    assert(r@ =~= multicast_mac(*mcast_addr));
    r
}

// ---------------------------------------------------------------------------
// Laws
// ---------------------------------------------------------------------------

/// What a text says of an address and its zone is said once.
pub proof fn law_scoped_address_unique(
    t: Seq<char>,
    a: Ipv6Addr,
    a_scope: Option<Seq<char>>,
    b: Ipv6Addr,
    b_scope: Option<Seq<char>>,
)
    requires
        is_scoped(t, a, a_scope),
        is_scoped(t, b, b_scope),
    ensures
        a == b,
        a_scope == b_scope,
{
    assert forall|i: int, j: int| #[trigger] first_percent(t, i) && #[trigger] first_percent(t, j) implies i
        == j by {
        if i < j {
            assert(t.take(j)[i] == '%');
        } else if j < i {
            assert(t.take(i)[j] == '%');
        }
    }
    if a_scope is Some {
        let i = choose|i: int| #[trigger] first_percent(t, i);
        assert(t[i] == '%' && t.contains('%'));
    }
    if b_scope is Some {
        let i = choose|i: int| #[trigger] first_percent(t, i);
        assert(t[i] == '%' && t.contains('%'));
    }
}

/// The solicited-node group is ff02::1:ffXX:XXXX with the low 24 bits of the address.
pub proof fn law_solicited_node_bytes(addr: Ipv6Addr)
    ensures
        solicited_node(addr).bytes() == seq![
            0xffu8,
            0x02u8,
            0u8,
            0u8,
            0u8,
            0u8,
            0u8,
            0u8,
            0u8,
            0u8,
            0u8,
            1u8,
            0xffu8,
        ] + addr.bytes().subrange(13, 16),
{
    let group = solicited_node(addr);
    assert(group.s6 / 256 == 0xff && group.s6 % 256 == addr.s6 % 256);
    assert(group.bytes() =~= seq![
        0xffu8,
        0x02u8,
        0u8,
        0u8,
        0u8,
        0u8,
        0u8,
        0u8,
        0u8,
        0u8,
        0u8,
        1u8,
        0xffu8,
    ] + addr.bytes().subrange(13, 16));
}

} // verus!
