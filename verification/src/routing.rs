//! Where to send a packet next: to its destination on the same subnet, or to the
//! gateway.

use vstd::arithmetic::{div_mod, power2};
use vstd::prelude::*;

use crate::addr::Ipv4Addr;
use crate::constants::{IPV4_HEADER_LEN, UDP_HEADER_LEN};
use crate::gue::GueConfig;
use crate::vlan::VlanConfig;

verus! {

/// MTU of a network unless something else is configured.
pub const DEFAULT_MTU: u16 = 1500;

/// The network that a socket is on.
#[derive(Debug, Clone)]
pub struct NetworkConfig {
    pub local_ip: Ipv4Addr,
    /// Leading bits that all addresses of the subnet share.
    pub prefix_len: u8,
    /// The router for other subnets.
    pub gateway: Option<Ipv4Addr>,
    pub mtu: u16,
    pub vlan: Option<VlanConfig>,
    pub gue: Option<GueConfig>,
}

impl NetworkConfig {
    /// A network without a gateway, with the default MTU.
    pub fn new(local_ip: Ipv4Addr, prefix_len: u8) -> (r: Self)
        requires
            prefix_len <= 32,
        ensures
            r == (NetworkConfig {
                local_ip,
                prefix_len,
                gateway: None,
                mtu: DEFAULT_MTU,
                vlan: None,
                gue: None,
            }),
    {
        NetworkConfig { local_ip, prefix_len, gateway: None, mtu: DEFAULT_MTU, vlan: None, gue: None }
    }

    /// Sets the gateway.
    pub fn with_gateway(self, gateway: Ipv4Addr) -> (r: Self)
        ensures
            r == (NetworkConfig { gateway: Some(gateway), ..self }),
    {
        NetworkConfig { gateway: Some(gateway), ..self }
    }

    /// Sets the MTU.
    pub fn with_mtu(self, mtu: u16) -> (r: Self)
        ensures
            r == (NetworkConfig { mtu, ..self }),
    {
        NetworkConfig { mtu, ..self }
    }

    /// Sets the VLAN.
    pub fn with_vlan(self, vlan: VlanConfig) -> (r: Self)
        ensures
            r == (NetworkConfig { vlan: Some(vlan), ..self }),
    {
        NetworkConfig { vlan: Some(vlan), ..self }
    }

    /// Sets the GUE tunnel.
    pub fn with_gue(self, gue: GueConfig) -> (r: Self)
        ensures
            r == (NetworkConfig { gue: Some(gue), ..self }),
    {
        NetworkConfig { gue: Some(gue), ..self }
    }
}

/// Where a packet goes next.
#[derive(Debug, Clone, Copy, PartialEq, Eq, Structural)]
pub enum NextHop {
    /// Straight to its destination.
    Direct(Ipv4Addr),
    /// To a router.
    Gateway(Ipv4Addr),
}

impl NextHop {
    /// The neighbour that the packet is handed to.
    pub open spec fn neighbour(self) -> Ipv4Addr {
        match self {
            NextHop::Direct(ip) => ip,
            NextHop::Gateway(ip) => ip,
        }
    }

    /// The neighbour that the packet is handed to.
    pub fn ip(&self) -> (r: Ipv4Addr)
        ensures
            r == self.neighbour(),
    {
        match *self {
            NextHop::Direct(ip) => ip,
            NextHop::Gateway(ip) => ip,
        }
    }
}

/// A subnet and the router out of it.
#[derive(Debug, Clone, Copy)]
pub struct Subnet {
    pub local_ip: Ipv4Addr,
    pub prefix_len: u8,
    pub gateway: Option<Ipv4Addr>,
}

/// Whether two addresses share their first `prefix_len` bits.
pub open spec fn same_subnet(a: Ipv4Addr, b: Ipv4Addr, prefix_len: u8) -> bool {
    let block = vstd::arithmetic::power2::pow2((32 - prefix_len) as nat) as int;
    a.number() as int / block == b.number() as int / block
}

/// What a socket knows of the networks around it.
///
/// Without a subnet every packet is handed straight to its destination.
#[derive(Debug, Clone, Copy)]
pub struct RoutingTable {
    pub subnet: Option<Subnet>,
    pub mtu: u16,
}

impl RoutingTable {
    /// A prefix is at most as long as an address.
    pub open spec fn wf(self) -> bool {
        self.subnet matches Some(s) ==> s.prefix_len <= 32
    }

    /// The next hop to a destination: the destination itself on the same subnet or
    /// where there is no gateway, the gateway elsewhere.
    pub open spec fn route(self, dst: Ipv4Addr) -> NextHop {
        match self.subnet {
            Some(s) => match s.gateway {
                Some(gateway) => if same_subnet(s.local_ip, dst, s.prefix_len) {
                    NextHop::Direct(dst)
                } else {
                    NextHop::Gateway(gateway)
                },
                None => NextHop::Direct(dst),
            },
            None => NextHop::Direct(dst),
        }
    }

    /// Largest UDP payload that a packet of the MTU holds.
    pub open spec fn payload_limit(self) -> nat {
        if self.mtu < 28 {
            0
        } else {
            (self.mtu - 28) as nat
        }
    }

    /// A table that hands every packet straight to its destination.
    pub fn new() -> (r: Self)
        ensures
            r == (RoutingTable { subnet: None, mtu: DEFAULT_MTU }),
            r.wf(),
    {
        RoutingTable { subnet: None, mtu: DEFAULT_MTU }
    }

    /// The table of a network.
    pub fn with_config(config: NetworkConfig) -> (r: Self)
        requires
            config.prefix_len <= 32,
        ensures
            r == (RoutingTable {
                subnet: Some(
                    Subnet {
                        local_ip: config.local_ip,
                        prefix_len: config.prefix_len,
                        gateway: config.gateway,
                    },
                ),
                mtu: config.mtu,
            }),
            r.wf(),
    {
        RoutingTable {
            subnet: Some(
                Subnet {
                    local_ip: config.local_ip,
                    prefix_len: config.prefix_len,
                    gateway: config.gateway,
                },
            ),
            mtu: config.mtu,
        }
    }

    pub fn mtu(&self) -> (r: u16)
        ensures
            r == self.mtu,
    {
        self.mtu
    }

    pub fn set_mtu(&mut self, mtu: u16)
        ensures
            *final(self) == (RoutingTable { mtu, ..*old(self) }),
    {
        self.mtu = mtu;
    }

    /// Largest UDP payload that a packet of the MTU holds.
    pub fn max_udp_payload(&self) -> (r: usize)
        ensures
            r == self.payload_limit(),
    {
        let headers: usize = IPV4_HEADER_LEN + UDP_HEADER_LEN;
        if (self.mtu as usize) < headers {
            0
        } else {
            self.mtu as usize - headers
        }
    }

    /// The next hop to a destination.
    pub fn lookup(&self, dst: Ipv4Addr) -> (r: NextHop)
        requires
            self.wf(),
        ensures
            r == self.route(dst),
    {
        let subnet = match self.subnet {
            Some(subnet) => subnet,
            None => return NextHop::Direct(dst),
        };
        match subnet.gateway {
            Some(gateway) => {
                if on_subnet(subnet.local_ip, dst, subnet.prefix_len) {
                    NextHop::Direct(dst)
                } else {
                    NextHop::Gateway(gateway)
                }
            },
            None => NextHop::Direct(dst),
        }
    }
}

fn on_subnet(a: Ipv4Addr, b: Ipv4Addr, prefix_len: u8) -> (r: bool)
    requires
        prefix_len <= 32,
    ensures
        r == same_subnet(a, b, prefix_len),
{
    let bits: u64 = 32 - prefix_len as u64;
    let a_number: u64 = a.to_u32() as u64;
    let b_number: u64 = b.to_u32() as u64;
    proof {
        vstd::bits::lemma_u64_shr_is_div(a_number, bits);
        vstd::bits::lemma_u64_shr_is_div(b_number, bits);
    }
    a_number >> bits == b_number >> bits
}

impl Default for RoutingTable {
    fn default() -> (r: Self)
        ensures
            r == (RoutingTable { subnet: None, mtu: DEFAULT_MTU }),
    {
        RoutingTable::new()
    }
}

// ---------------------------------------------------------------------------
// Laws
// ---------------------------------------------------------------------------

/// A packet is handed to its destination or to the gateway, and never to the gateway
/// on the same subnet.
pub proof fn law_next_hop(table: RoutingTable, dst: Ipv4Addr)
    ensures
        table.route(dst) == NextHop::Direct(dst) || (table.subnet matches Some(s) && s.gateway
            matches Some(gateway) && table.route(dst) == NextHop::Gateway(gateway)
            && !same_subnet(s.local_ip, dst, s.prefix_len)),
        table.subnet is None ==> table.route(dst) == NextHop::Direct(dst),
{
}

/// A local address is on its own subnet.
pub proof fn law_local_is_direct(table: RoutingTable, s: Subnet)
    requires
        table.subnet == Some(s),
    ensures
        table.route(s.local_ip) == NextHop::Direct(s.local_ip),
{
}

/// Numbers below 2^32 have the same quotient by 2^(32 - len) exactly if their bits from
/// 32 - len on agree.
proof fn lemma_quotients_by_bits(x: int, y: int, len: nat)
    requires
        0 <= x < 0x1_0000_0000,
        0 <= y < 0x1_0000_0000,
        len <= 32,
    ensures
        x / (power2::pow2((32 - len) as nat) as int) == y / (power2::pow2((32 - len) as nat) as int) <==> forall|
            e: nat,
        |
            32 - len <= e < 32 ==> (x / (#[trigger] power2::pow2(e) as int)) % 2 == (y / (power2::pow2(e) as int))
                % 2,
    decreases len,
{
    power2::lemma2_to64();
    if len == 0 {
        assert(x / 0x1_0000_0000 == 0 && y / 0x1_0000_0000 == 0);
    } else {
        let shorter = (len - 1) as nat;
        let low = (32 - len) as nat;
        lemma_quotients_by_bits(x, y, shorter);
        power2::lemma_pow2_pos(low);
        power2::lemma_pow2_unfold((low + 1) as nat);
        let d = power2::pow2(low) as int;
        assert(power2::pow2((32 - shorter) as nat) as int == d * 2);
        div_mod::lemma_div_denominator(x, d, 2);
        div_mod::lemma_div_denominator(y, d, 2);
        let p = x / d;
        let q = y / d;
        assert(p == q <==> p / 2 == q / 2 && p % 2 == q % 2);
        if p == q {
            assert forall|e: nat| 32 - len <= e < 32 implies (x / (#[trigger] power2::pow2(e) as int)) % 2
                == (y / (power2::pow2(e) as int)) % 2 by {
                if e > low {
                    assert(32 - shorter <= e);
                }
            }
        } else if p % 2 != q % 2 {
            assert((x / (power2::pow2(low) as int)) % 2 != (y / (power2::pow2(low) as int)) % 2);
        }
    }
}

/// A subnet with a prefix of `p` bits holds exactly the addresses whose first `p` bits are
/// those of the local address: a packet for one of them is handed to it, and one for any other
/// address to the gateway. The bit `e` of an address counts from the last one, which is bit 0.
pub proof fn law_subnet_is_the_first_bits(
    table: RoutingTable,
    s: Subnet,
    gateway: Ipv4Addr,
    dst: Ipv4Addr,
)
    requires
        table.subnet == Some(s),
        s.gateway == Some(gateway),
        s.prefix_len <= 32,
    ensures
        ({
            let x = s.local_ip.a * 0x100_0000 + s.local_ip.b * 0x1_0000 + s.local_ip.c * 0x100
                + s.local_ip.d;
            let y = dst.a * 0x100_0000 + dst.b * 0x1_0000 + dst.c * 0x100 + dst.d;
            table.route(dst) == if forall|e: nat|
                32 - s.prefix_len <= e < 32 ==> (x / (#[trigger] power2::pow2(e) as int)) % 2 == (y / (
                power2::pow2(e) as int)) % 2 {
                NextHop::Direct(dst)
            } else {
                NextHop::Gateway(gateway)
            }
        }),
{
    let x = s.local_ip.a * 0x100_0000 + s.local_ip.b * 0x1_0000 + s.local_ip.c * 0x100
        + s.local_ip.d;
    let y = dst.a * 0x100_0000 + dst.b * 0x1_0000 + dst.c * 0x100 + dst.d;
    lemma_quotients_by_bits(x, y, s.prefix_len as nat);
}

/// Two destinations that differ in one bit of the prefix are never both on the subnet, and two
/// that differ only behind the prefix take the same way.
pub proof fn law_one_bit_decides(
    table: RoutingTable,
    s: Subnet,
    gateway: Ipv4Addr,
    dst: Ipv4Addr,
    other: Ipv4Addr,
    e: nat,
)
    requires
        table.subnet == Some(s),
        s.gateway == Some(gateway),
        s.prefix_len <= 32,
        e < 32,
        ({
            let y = dst.a * 0x100_0000 + dst.b * 0x1_0000 + dst.c * 0x100 + dst.d;
            let z = other.a * 0x100_0000 + other.b * 0x1_0000 + other.c * 0x100 + other.d;
            y - z == power2::pow2(e) && (y / (power2::pow2(e) as int)) % 2 == 1
        }),
    ensures
        e >= 32 - s.prefix_len ==> !(table.route(dst) == NextHop::Direct(dst) && table.route(other)
            == NextHop::Direct(other)),
        e < 32 - s.prefix_len ==> (table.route(dst) == NextHop::Direct(dst) <==> table.route(other)
            == NextHop::Direct(other)),
{
    let y = dst.a * 0x100_0000 + dst.b * 0x1_0000 + dst.c * 0x100 + dst.d;
    let z = other.a * 0x100_0000 + other.b * 0x1_0000 + other.c * 0x100 + other.d;
    let d = power2::pow2(e) as int;
    let low = (32 - s.prefix_len) as nat;
    power2::lemma_pow2_pos(e);
    div_mod::lemma_fundamental_div_mod(y, d);
    assert(z == d * (y / d - 1) + y % d) by (nonlinear_arith)
        requires
            y == d * (y / d) + y % d,
            z == y - d,
    ;
    div_mod::lemma_fundamental_div_mod_converse(z, d, y / d - 1, y % d);
    assert(z / d == y / d - 1);
    law_subnet_is_the_first_bits(table, s, gateway, dst);
    law_subnet_is_the_first_bits(table, s, gateway, other);
    if e >= low {
        if table.route(dst) == NextHop::Direct(dst) && table.route(other) == NextHop::Direct(other) {
            assert((y / (power2::pow2(e) as int)) % 2 == (z / (power2::pow2(e) as int)) % 2);
        }
    } else {
        let k = (low - e - 1) as nat;
        power2::lemma_pow2_pos(low);
        power2::lemma_pow2_pos((k + 1) as nat);
        power2::lemma_pow2_pos(k);
        power2::lemma_pow2_adds(e, (k + 1) as nat);
        power2::lemma_pow2_unfold((k + 1) as nat);
        div_mod::lemma_div_denominator(y, d, power2::pow2((k + 1) as nat) as int);
        div_mod::lemma_div_denominator(z, d, power2::pow2((k + 1) as nat) as int);
        div_mod::lemma_div_denominator(y / d, 2, power2::pow2(k) as int);
        div_mod::lemma_div_denominator(z / d, 2, power2::pow2(k) as int);
        assert((y / d) / 2 == (z / d) / 2);
        assert(y / (power2::pow2(low) as int) == z / (power2::pow2(low) as int));
        lemma_quotients_by_bits(y, z, s.prefix_len as nat);
    }
}

/// A packet of the MTU holds the IPv4 and UDP headers, of 28 bytes, and the largest payload.
pub proof fn law_largest_payload_fills_the_mtu(table: RoutingTable)
    ensures
        table.mtu >= 28 ==> table.payload_limit() + 28 == table.mtu,
        table.mtu < 28 ==> table.payload_limit() == 0,
{
}

} // verus!
