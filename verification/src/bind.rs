//! Making sockets: the address that a socket gets, what it starts with, and the builder.

use std::collections::VecDeque;

use vstd::prelude::*;

use crate::addr;
use crate::addr::{Ipv4Addr, MacAddress, SocketAddr, SocketAddrV4};
use crate::arp;
use crate::arp::{seed_arp_cache, ArpCache, ArpHandler, ProcArpEntry};
use crate::backend::{BackendType, HwRxOffload, HwTxOffload};
use crate::error::{ErrorKind, IoError};
use crate::icmp::IcmpHandler;
use crate::recv_queue::{
    ReceiveQueue, RecvDropStats, DEFAULT_RECV_BUFFER_BYTES, DEFAULT_RECV_BUFFER_PACKETS,
};
use crate::routing::{NetworkConfig, RoutingTable};
use crate::socket::{PerfCounters, UdpSocket};

verus! {

/// First port that is handed out where a socket asks for any.
pub const FIRST_EPHEMERAL_PORT: u16 = 32768;

/// Last port that is handed out where a socket asks for any.
pub const LAST_EPHEMERAL_PORT: u16 = 60999;

/// MTU of a port unless a network says something else.
pub const DEFAULT_PORT_MTU: u16 = 9001;

/// The ports for sockets that ask for any.
#[derive(Debug, Clone, Copy)]
pub struct EphemeralPorts {
    /// The port to hand out next, if it is in the range.
    pub next: u16,
}

impl EphemeralPorts {
    /// The port that is handed out next.
    pub open spec fn upcoming(self) -> u16 {
        if FIRST_EPHEMERAL_PORT <= self.next <= LAST_EPHEMERAL_PORT {
            self.next
        } else {
            FIRST_EPHEMERAL_PORT
        }
    }

    pub fn new() -> (r: Self)
        ensures
            r.next == FIRST_EPHEMERAL_PORT,
    {
        EphemeralPorts { next: FIRST_EPHEMERAL_PORT }
    }

    /// Hands out a port.
    pub fn allocate_ephemeral_port(&mut self) -> (r: u16)
        ensures
            r == old(self).upcoming(),
            final(self).next == r + 1,
    {
        let port = self.next;
        if FIRST_EPHEMERAL_PORT <= port && port <= LAST_EPHEMERAL_PORT {
            self.next = port + 1;
            return port;
        }
        self.next = FIRST_EPHEMERAL_PORT + 1;
        FIRST_EPHEMERAL_PORT
    }
}

/// What a backend and the DPDK port bring to a socket.
#[derive(Debug, Clone, Copy)]
pub struct BackendInfo {
    /// Ethernet address of the backend.
    pub mac: [u8; 6],
    /// MTU that the port is configured with.
    pub mtu: u16,
    pub tx_offload: HwTxOffload,
    pub rx_offload: HwRxOffload,
}

/// What the operating system says of the network that an address is on.
pub struct DetectedNetwork {
    pub config: NetworkConfig,
    pub arp_entries: Vec<ProcArpEntry>,
}

/// The address that a socket gets: IPv4, with a port handed out for port 0.
pub open spec fn bound_addr(addr: SocketAddrV4, ports: EphemeralPorts) -> SocketAddrV4 {
    if addr.port == 0 {
        SocketAddrV4 { ip: addr.ip, port: ports.upcoming() }
    } else {
        addr
    }
}

/// The ports after a socket got an address.
pub open spec fn ports_after(addr: SocketAddrV4, before: EphemeralPorts, after: EphemeralPorts) -> bool {
    if addr.port == 0 {
        after.next == before.upcoming() + 1
    } else {
        after == before
    }
}

/// Chooses the address of a socket.
pub fn choose_addr(addr: Option<SocketAddr>, ports: &mut EphemeralPorts) -> (r: Result<
    SocketAddrV4,
    IoError,
>)
    ensures
        match addr {
            Some(SocketAddr::V4(v4)) => {
                &&& r == Ok::<SocketAddrV4, IoError>(bound_addr(v4, *old(ports)))
                &&& ports_after(v4, *old(ports), *final(ports))
            },
            Some(SocketAddr::V6(_)) => {
                &&& r matches Err(e) && e.kind == ErrorKind::InvalidInput && e.message@
                    == "IPv6 not supported"@
                &&& *final(ports) == *old(ports)
            },
            None => {
                &&& r matches Err(e) && e.kind == ErrorKind::InvalidInput && e.message@
                    == "Invalid address"@
                &&& *final(ports) == *old(ports)
            },
        },
{
    match addr {
        Some(SocketAddr::V4(v4)) => if v4.port == 0 {
            let port = ports.allocate_ephemeral_port();
            Ok(SocketAddrV4::new(v4.ip, port))
        } else {
            Ok(v4)
        },
        Some(SocketAddr::V6(_)) => Err(
            IoError::new(ErrorKind::InvalidInput, "IPv6 not supported"),
        ),
        None => Err(IoError::new(ErrorKind::InvalidInput, "Invalid address")),
    }
}

/// The routing table for a network that was detected, or one without a subnet. Nothing is
/// detected for the unspecified address.
pub open spec fn detected_routing(ip: Ipv4Addr, detected: Option<DetectedNetwork>) -> RoutingTable {
    match detected {
        Some(network) => if ip == addr::ipv4_unspecified() {
            RoutingTable { subnet: None, mtu: crate::routing::DEFAULT_MTU }
        } else {
            RoutingTable {
                subnet: Some(
                    crate::routing::Subnet {
                        local_ip: network.config.local_ip,
                        prefix_len: network.config.prefix_len,
                        gateway: network.config.gateway,
                    },
                ),
                mtu: network.config.mtu,
            }
        },
        None => RoutingTable { subnet: None, mtu: crate::routing::DEFAULT_MTU },
    }
}

/// The ARP entries of a network that was detected.
pub open spec fn detected_entries(ip: Ipv4Addr, detected: Option<DetectedNetwork>) -> Seq<ProcArpEntry> {
    match detected {
        Some(network) => if ip == addr::ipv4_unspecified() {
            Seq::empty()
        } else {
            network.arp_entries@
        },
        None => Seq::empty(),
    }
}

/// Takes over the network that was detected: its ARP entries go to the cache.
pub fn auto_detect_routing(
    local_ip: Ipv4Addr,
    cache: &mut ArpCache,
    detected: Option<DetectedNetwork>,
    now: u64,
) -> (r: RoutingTable)
    requires
        detected matches Some(network) ==> network.config.prefix_len <= 32,
    ensures
        r == detected_routing(local_ip, detected),
        r.wf(),
        final(cache)@ == arp::seeded(old(cache)@, detected_entries(local_ip, detected), now),
{
    if local_ip.is_unspecified() {
        return RoutingTable::new();
    }
    match detected {
        Some(network) => {
            seed_arp_cache(cache, &network.arp_entries, now);
            RoutingTable::with_config(network.config)
        },
        None => RoutingTable::new(),
    }
}

/// The routing table with the MTU of the port, where that is larger.
pub open spec fn with_port_mtu(table: RoutingTable, mtu: Option<u16>) -> RoutingTable {
    match mtu {
        Some(m) => if table.mtu < m {
            RoutingTable { mtu: m, ..table }
        } else {
            table
        },
        None => table,
    }
}

impl UdpSocket {
    /// A socket as it is when it is bound.
    pub open spec fn is_fresh(
        self,
        local: SocketAddrV4,
        backend: BackendInfo,
        name: Seq<char>,
        dpdk: bool,
    ) -> bool {
        &&& self.wf()
        &&& self.local_addr == SocketAddr::V4(local)
        &&& self.local_mac == backend.mac
        &&& self.connected_addr is None
        &&& self.ttl == 64
        &&& self.dst_mac@ == addr::broadcast_mac()
        &&& self.arp_handler.local_mac == backend.mac
        &&& self.arp_handler.local_ips@ == seq![local.ip]
        &&& self.icmp_handler.local_mac == backend.mac
        &&& self.icmp_handler.local_ips@ == seq![local.ip]
        &&& self.connection_state is None
        &&& self.recv_queue@.len() == 0
        &&& self.recv_queue.packet_limit() == DEFAULT_RECV_BUFFER_PACKETS
        &&& self.recv_queue.byte_limit() == DEFAULT_RECV_BUFFER_BYTES
        &&& !self.has_buffered_packets
        &&& self.auto_arp && self.auto_icmp && self.auto_garp
        &&& self.read_timeout is None && self.write_timeout is None
        &&& self.vlan_config is None && self.gue_config is None
        &&& self.rx_drops == (RecvDropStats { packets: 0, bytes: 0 })
        &&& self.error_queue@.len() == 0
        &&& self.perf_counters == PerfCounters::zero()
        &&& self.tx_offload == backend.tx_offload
        &&& self.rx_offload == backend.rx_offload
        &&& self.backend_name@ == name
        &&& self.dpdk == dpdk
        &&& !self.has_pipeline
        &&& self.recv_from_rr_index == 0
    }

    /// Makes a socket.
    fn open(
        local: SocketAddrV4,
        backend: &BackendInfo,
        name: &str,
        dpdk: bool,
        port_cache: Option<ArpCache>,
        cache: ArpCache,
        routing_table: RoutingTable,
    ) -> (r: UdpSocket)
        requires
            routing_table.wf(),
        ensures
            r.is_fresh(local, *backend, name@, dpdk),
            r.arp_handler.cache == cache,
            r.port_arp_cache == port_cache,
            r.routing_table == routing_table,
    {
        UdpSocket {
            local_addr: SocketAddr::V4(local),
            local_mac: backend.mac,
            connected_addr: None,
            ttl: 64,
            dst_mac: MacAddress::broadcast(),
            arp_handler: ArpHandler::with_cache(backend.mac, local.ip, cache),
            port_arp_cache: port_cache,
            icmp_handler: IcmpHandler::new(backend.mac, local.ip),
            connection_state: None,
            recv_queue: ReceiveQueue::with_limits(
                DEFAULT_RECV_BUFFER_PACKETS,
                DEFAULT_RECV_BUFFER_BYTES,
            ),
            has_buffered_packets: false,
            auto_arp: true,
            auto_icmp: true,
            auto_garp: true,
            read_timeout: None,
            write_timeout: None,
            routing_table,
            vlan_config: None,
            gue_config: None,
            rx_drops: RecvDropStats { packets: 0, bytes: 0 },
            error_queue: VecDeque::new(),
            perf_counters: PerfCounters::new(),
            tx_offload: backend.tx_offload,
            rx_offload: backend.rx_offload,
            backend_name: String::from_str(name),
            dpdk,
            has_pipeline: false,
            recv_from_rr_index: 0,
        }
    }

    /// Whether `r` is what binding to `addr` gives, on a backend with this name or on the
    /// DPDK port itself. `mtu` is the MTU of the port, where routing follows it.
    pub open spec fn bound(
        r: Result<UdpSocket, IoError>,
        addr: Option<SocketAddr>,
        backend: BackendInfo,
        name: Seq<char>,
        dpdk: bool,
        port_cache: Option<ArpCache>,
        cache: ArpCache,
        detected: Option<DetectedNetwork>,
        mtu: Option<u16>,
        now: u64,
        old_ports: EphemeralPorts,
        ports: EphemeralPorts,
    ) -> bool {
        match addr {
            Some(SocketAddr::V4(v4)) => {
                &&& r matches Ok(socket)
                &&& socket.is_fresh(bound_addr(v4, old_ports), backend, name, dpdk)
                &&& socket.routing_table == with_port_mtu(detected_routing(v4.ip, detected), mtu)
                &&& socket.arp_handler.cache@ == arp::seeded(
                    cache@,
                    detected_entries(v4.ip, detected),
                    now,
                )
                &&& socket.port_arp_cache == port_cache
                &&& ports_after(v4, old_ports, ports)
            },
            Some(SocketAddr::V6(_)) => {
                &&& r matches Err(e) && e.kind == ErrorKind::InvalidInput && e.message@
                    == "IPv6 not supported"@
                &&& ports == old_ports
            },
            None => {
                &&& r matches Err(e) && e.kind == ErrorKind::InvalidInput && e.message@
                    == "Invalid address"@
                &&& ports == old_ports
            },
        }
    }

    /// Makes a socket with the routing that was detected.
    fn bind_routed(
        addr: Option<SocketAddr>,
        backend: &BackendInfo,
        name: &str,
        dpdk: bool,
        port_cache: Option<ArpCache>,
        cache: ArpCache,
        detected: Option<DetectedNetwork>,
        mtu: Option<u16>,
        now: u64,
        ports: &mut EphemeralPorts,
    ) -> (r: Result<UdpSocket, IoError>)
        requires
            detected matches Some(network) ==> network.config.prefix_len <= 32,
        ensures
            UdpSocket::bound(
                r,
                addr,
                *backend,
                name@,
                dpdk,
                port_cache,
                cache,
                detected,
                mtu,
                now,
                *old(ports),
                *final(ports),
            ),
    {
        let local = match choose_addr(addr, ports) {
            Ok(local) => local,
            Err(e) => return Err(e),
        };
        let mut cache = cache;
        let mut routing_table = auto_detect_routing(local.ip, &mut cache, detected, now);
        if let Some(mtu) = mtu {
            if routing_table.mtu() < mtu {
                routing_table.set_mtu(mtu);
            }
        }
        Ok(UdpSocket::open(local, backend, name, dpdk, port_cache, cache, routing_table))
    }

    /// Binds a DPDK socket. Its packets may be as large as the port takes.
    pub fn bind(
        addr: Option<SocketAddr>,
        backend: &BackendInfo,
        cache: ArpCache,
        detected: Option<DetectedNetwork>,
        now: u64,
        ports: &mut EphemeralPorts,
    ) -> (r: Result<UdpSocket, IoError>)
        requires
            detected matches Some(network) ==> network.config.prefix_len <= 32,
        ensures
            UdpSocket::bound(
                r,
                addr,
                *backend,
                "dpdk"@,
                true,
                None,
                cache,
                detected,
                Some(backend.mtu),
                now,
                *old(ports),
                *final(ports),
            ),
    {
        UdpSocket::bind_routed(
            addr,
            backend,
            "dpdk",
            true,
            None,
            cache,
            detected,
            Some(backend.mtu),
            now,
            ports,
        )
    }

    /// Binds a socket on a backend, with an ARP cache of its own beside that of the DPDK port.
    /// The MTU of the port counts if the name of the backend is `dpdk`.
    pub fn bind_with_backend(
        addr: Option<SocketAddr>,
        name: &str,
        backend: &BackendInfo,
        port_cache: ArpCache,
        detected: Option<DetectedNetwork>,
        now: u64,
        ports: &mut EphemeralPorts,
    ) -> (r: Result<UdpSocket, IoError>)
        requires
            detected matches Some(network) ==> network.config.prefix_len <= 32,
        ensures
            exists|cache: ArpCache| #[trigger]
                cache@ == Map::<u32, arp::ArpCacheEntry>::empty() && UdpSocket::bound(
                    r,
                    addr,
                    *backend,
                    name@,
                    false,
                    Some(port_cache),
                    cache,
                    detected,
                    if name@ == "dpdk"@ {
                        Some(backend.mtu)
                    } else {
                        None
                    },
                    now,
                    *old(ports),
                    *final(ports),
                ),
    {
        let mtu = if String::from_str(name) == String::from_str("dpdk") {
            Some(backend.mtu)
        } else {
            None
        };
        let cache = ArpCache::new();
        assert(cache@ == Map::<u32, arp::ArpCacheEntry>::empty());
        UdpSocket::bind_routed(
            addr,
            backend,
            name,
            false,
            Some(port_cache),
            cache,
            detected,
            mtu,
            now,
            ports,
        )
    }

    /// A builder for a socket.
    pub fn builder() -> (r: UdpSocketBuilder)
        ensures
            r.rx_queues is None,
            r.backend_type is None,
            r.network_config is None,
    {
        UdpSocketBuilder::new()
    }
}

/// What worker threads a socket gets.
#[derive(Debug, Clone, Copy, PartialEq, Eq, Structural)]
pub struct TopologyConfig {
    /// Receive queues, as many as there are if `None`.
    pub rx_queues: Option<u16>,
}

/// Makes sockets with settings.
pub struct UdpSocketBuilder {
    pub rx_queues: Option<u16>,
    pub backend_type: Option<BackendType>,
    pub network_config: Option<NetworkConfig>,
}

impl UdpSocketBuilder {
    /// A builder that leaves everything to be detected.
    pub fn new() -> (r: Self)
        ensures
            r.rx_queues is None,
            r.backend_type is None,
            r.network_config is None,
    {
        UdpSocketBuilder { rx_queues: None, backend_type: None, network_config: None }
    }

    /// Sets the number of receive queues.
    pub fn rx_queues(self, n: u16) -> (r: Self)
        ensures
            r == (UdpSocketBuilder { rx_queues: Some(n), ..self }),
    {
        UdpSocketBuilder { rx_queues: Some(n), ..self }
    }

    /// Sets the backend.
    pub fn backend_type(self, backend: BackendType) -> (r: Self)
        ensures
            r == (UdpSocketBuilder { backend_type: Some(backend), ..self }),
    {
        UdpSocketBuilder { backend_type: Some(backend), ..self }
    }

    /// Sets the network.
    pub fn network(self, config: NetworkConfig) -> (r: Self)
        ensures
            r == (UdpSocketBuilder { network_config: Some(config), ..self }),
    {
        UdpSocketBuilder { network_config: Some(config), ..self }
    }

    /// The worker threads of the socket.
    pub fn topology_config(&self) -> (r: TopologyConfig)
        ensures
            r.rx_queues == self.rx_queues,
    {
        TopologyConfig { rx_queues: self.rx_queues }
    }

    /// The MTU to configure the port with: that of the network, unless it is 0 or there is
    /// none.
    pub fn port_mtu(&self) -> (r: u16)
        ensures
            r == match self.network_config {
                Some(config) => if config.mtu > 0 {
                    config.mtu
                } else {
                    DEFAULT_PORT_MTU
                },
                None => DEFAULT_PORT_MTU,
            },
    {
        match &self.network_config {
            Some(config) => if config.mtu > 0 {
                config.mtu
            } else {
                DEFAULT_PORT_MTU
            },
            None => DEFAULT_PORT_MTU,
        }
    }

    /// A socket after the network of the builder was applied to it: its VLAN, its tunnel and
    /// its routing are those of the network.
    pub open spec fn applied(self, before: UdpSocket) -> UdpSocket {
        match self.network_config {
            Some(config) => UdpSocket {
                vlan_config: config.vlan,
                gue_config: config.gue,
                routing_table: RoutingTable {
                    subnet: Some(
                        crate::routing::Subnet {
                            local_ip: config.local_ip,
                            prefix_len: config.prefix_len,
                            gateway: config.gateway,
                        },
                    ),
                    mtu: config.mtu,
                },
                ..before
            },
            None => before,
        }
    }

    /// Applies the network of the builder to a socket.
    fn apply(self, socket: UdpSocket) -> (r: UdpSocket)
        requires
            self.network_config matches Some(config) ==> config.prefix_len <= 32,
            socket.wf(),
        ensures
            r == self.applied(socket),
            r.wf(),
    {
        match self.network_config {
            Some(config) => {
                let mut socket = socket;
                let NetworkConfig { local_ip, prefix_len, gateway, mtu, vlan, gue } = config;
                socket.vlan_config = vlan;
                socket.gue_config = gue;
                socket.routing_table = RoutingTable::with_config(
                    NetworkConfig { local_ip, prefix_len, gateway, mtu, vlan: None, gue: None },
                );
                socket
            },
            None => socket,
        }
    }

    /// Binds a DPDK socket with the settings of the builder.
    pub fn bind(
        self,
        addr: Option<SocketAddr>,
        backend: &BackendInfo,
        cache: ArpCache,
        detected: Option<DetectedNetwork>,
        now: u64,
        ports: &mut EphemeralPorts,
    ) -> (r: Result<UdpSocket, IoError>)
        requires
            self.network_config matches Some(config) ==> config.prefix_len <= 32,
            detected matches Some(network) ==> network.config.prefix_len <= 32,
        ensures
            exists|plain: Result<UdpSocket, IoError>| #[trigger]
                UdpSocket::bound(
                    plain,
                    addr,
                    *backend,
                    "dpdk"@,
                    true,
                    None,
                    cache,
                    detected,
                    Some(backend.mtu),
                    now,
                    *old(ports),
                    *final(ports),
                ) && match plain {
                    Ok(socket) => r == Ok::<UdpSocket, IoError>(self.applied(socket)),
                    Err(e) => r == Err::<UdpSocket, IoError>(e),
                },
    {
        let plain = UdpSocket::bind(addr, backend, cache, detected, now, ports);
        let ghost witness = plain;
        assert(UdpSocket::bound(
            witness,
            addr,
            *backend,
            "dpdk"@,
            true,
            None,
            cache,
            detected,
            Some(backend.mtu),
            now,
            *old(ports),
            *ports,
        ));
        match plain {
            Ok(socket) => Ok(self.apply(socket)),
            Err(e) => Err(e),
        }
    }
}

impl Default for UdpSocketBuilder {
    fn default() -> (r: Self)
        ensures
            r.rx_queues is None,
            r.backend_type is None,
            r.network_config is None,
    {
        UdpSocketBuilder::new()
    }
}

// ---------------------------------------------------------------------------
// Laws
// ---------------------------------------------------------------------------

/// A port that is handed out is in the range, and the next one follows it until the range
/// starts again.
pub proof fn law_ephemeral_ports_go_around(before: EphemeralPorts, after: EphemeralPorts)
    requires
        after.next == before.upcoming() + 1,
    ensures
        32768 <= before.upcoming() <= 60999,
        before.upcoming() < 60999 ==> after.upcoming() == before.upcoming() + 1,
        before.upcoming() == 60999 ==> after.upcoming() == 32768,
{
}

/// A bound socket never has port 0.
pub proof fn law_bound_port_is_not_zero(addr: SocketAddrV4, ports: EphemeralPorts)
    ensures
        bound_addr(addr, ports).port != 0,
        bound_addr(addr, ports).ip == addr.ip,
        addr.port != 0 ==> bound_addr(addr, ports) == addr,
{
}

} // verus!
