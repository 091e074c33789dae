//! The settings of a socket, and its connection.

use vstd::prelude::*;

use crate::addr::{Ipv4Addr, MacAddress, SocketAddr};
use crate::arp;
use crate::arp::{ArpCache, ETH_ARP_FRAME_LEN};
use crate::error::{ErrorKind, IoError};
use crate::gue::{GueConfig, GUE_ENCAP_OVERHEAD};
use crate::recv_queue::ConnectionState;
use crate::routing::{NetworkConfig, RoutingTable};
use crate::socket::{PerfCounters, UdpSocket};
use crate::vlan::VlanConfig;

verus! {

/// The Ethernet address of an IPv4 multicast group: 01:00:5e and the low 23 bits of the
/// group.
pub open spec fn multicast_mac4(group: Ipv4Addr) -> Seq<u8> {
    seq![0x01u8, 0x00u8, 0x5eu8, (group.b % 128) as u8, group.c, group.d]
}

/// Whether an address is in 224.0.0.0/4.
pub open spec fn is_multicast_group(ip: Ipv4Addr) -> bool {
    224 <= ip.a <= 239
}

/// The Ethernet address of an IPv4 multicast group, if the address is one.
fn group_mac(group: &Ipv4Addr) -> (r: Result<MacAddress, IoError>)
    ensures
        match r {
            Ok(mac) => is_multicast_group(*group) && mac@ == multicast_mac4(*group),
            Err(e) => !is_multicast_group(*group) && e.kind == ErrorKind::InvalidInput
                && e.message@ == "Address is not a multicast address"@,
        },
{
    if !group.is_multicast() {
        return Err(IoError::new(ErrorKind::InvalidInput, "Address is not a multicast address"));
    }
    let mac = MacAddress::new([0x01, 0x00, 0x5e, group.b % 128, group.c, group.d]);
    assert(mac@ =~= multicast_mac4(*group));
    Ok(mac)
}

impl UdpSocket {
    // -----------------------------------------------------------------------
    // Addresses
    // -----------------------------------------------------------------------

    /// The address that the socket is bound to.
    pub fn local_addr(&self) -> (r: Result<SocketAddr, IoError>)
        ensures
            r == Ok::<SocketAddr, IoError>(self.local_addr),
    {
        Ok(self.local_addr)
    }

    /// The address that the socket is connected to.
    pub fn peer_addr(&self) -> (r: Result<SocketAddr, IoError>)
        ensures
            match r {
                Ok(peer) => self.connected_addr == Some(peer),
                Err(e) => self.connected_addr is None && e.kind == ErrorKind::NotConnected
                    && e.message@ == "Socket not connected"@,
            },
    {
        match self.connected_addr {
            Some(peer) => Ok(peer),
            None => Err(IoError::new(ErrorKind::NotConnected, "Socket not connected")),
        }
    }

    /// Connects the socket to an address, and starts the statistics of the connection.
    pub fn connect(&mut self, addr: Option<SocketAddr>) -> (r: Result<(), IoError>)
        ensures
            match addr {
                Some(peer) => r is Ok && *final(self) == (UdpSocket {
                    connected_addr: Some(peer),
                    connection_state: Some(
                        ConnectionState {
                            local_addr: old(self).local_addr,
                            remote_addr: peer,
                            packets_received: 0,
                            packets_sent: 0,
                            bytes_received: 0,
                            bytes_sent: 0,
                        },
                    ),
                    ..*old(self)
                }),
                None => r matches Err(e) && *final(self) == *old(self) && e.kind
                    == ErrorKind::InvalidInput && e.message@ == "Invalid address"@,
            },
    {
        match addr {
            Some(peer) => {
                self.connection_state = Some(ConnectionState::new(self.local_addr, peer));
                self.connected_addr = Some(peer);
                Ok(())
            },
            None => Err(IoError::new(ErrorKind::InvalidInput, "Invalid address")),
        }
    }

    /// Whether the socket is connected.
    pub fn is_connected(&self) -> (r: bool)
        ensures
            r == self.connected_addr is Some,
    {
        self.connected_addr.is_some()
    }

    /// The statistics of the connection.
    pub fn connection_stats(&self) -> (r: Option<ConnectionState>)
        ensures
            r == self.connection_state,
    {
        self.connection_state
    }

    // -----------------------------------------------------------------------
    // Timeouts, time to live, addresses of frames
    // -----------------------------------------------------------------------

    /// Sets how many nanoseconds a receive waits, forever for `None`. Zero is refused.
    pub fn set_read_timeout(&mut self, nanos: Option<u128>) -> (r: Result<(), IoError>)
        ensures
            match r {
                Ok(_) => nanos != Some(0u128) && *final(self) == (UdpSocket {
                    read_timeout: nanos,
                    ..*old(self)
                }),
                Err(e) => nanos == Some(0u128) && *final(self) == *old(self) && e.kind
                    == ErrorKind::InvalidInput && e.message@ == "zero duration not supported"@,
            },
    {
        if let Some(n) = nanos {
            if n == 0 {
                return Err(IoError::new(ErrorKind::InvalidInput, "zero duration not supported"));
            }
        }
        self.read_timeout = nanos;
        Ok(())
    }

    /// How many nanoseconds a receive waits.
    pub fn read_timeout(&self) -> (r: Result<Option<u128>, IoError>)
        ensures
            r == Ok::<Option<u128>, IoError>(self.read_timeout),
    {
        Ok(self.read_timeout)
    }

    /// Sets how many nanoseconds a send waits, forever for `None`. Zero is refused.
    pub fn set_write_timeout(&mut self, nanos: Option<u128>) -> (r: Result<(), IoError>)
        ensures
            match r {
                Ok(_) => nanos != Some(0u128) && *final(self) == (UdpSocket {
                    write_timeout: nanos,
                    ..*old(self)
                }),
                Err(e) => nanos == Some(0u128) && *final(self) == *old(self) && e.kind
                    == ErrorKind::InvalidInput && e.message@ == "zero duration not supported"@,
            },
    {
        if let Some(n) = nanos {
            if n == 0 {
                return Err(IoError::new(ErrorKind::InvalidInput, "zero duration not supported"));
            }
        }
        self.write_timeout = nanos;
        Ok(())
    }

    /// How many nanoseconds a send waits.
    pub fn write_timeout(&self) -> (r: Result<Option<u128>, IoError>)
        ensures
            r == Ok::<Option<u128>, IoError>(self.write_timeout),
    {
        Ok(self.write_timeout)
    }

    /// Sets the time to live of sent packets: the low eight bits of `ttl`.
    pub fn set_ttl(&mut self, ttl: u32) -> (r: Result<(), IoError>)
        ensures
            r is Ok,
            *final(self) == (UdpSocket { ttl: (ttl % 256) as u8, ..*old(self) }),
    {
        self.ttl = (ttl % 256) as u8;
        Ok(())
    }

    /// The time to live of sent packets.
    pub fn ttl(&self) -> (r: Result<u32, IoError>)
        ensures
            r == Ok::<u32, IoError>(self.ttl as u32),
    {
        Ok(self.ttl as u32)
    }

    /// Sets the Ethernet address for destinations that are not resolved.
    pub fn set_dst_mac(&mut self, mac: MacAddress)
        ensures
            *final(self) == (UdpSocket { dst_mac: mac, ..*old(self) }),
    {
        self.dst_mac = mac;
    }

    /// The Ethernet address of the backend.
    pub fn src_mac(&self) -> (r: MacAddress)
        ensures
            r@ == self.local_mac@,
    {
        MacAddress::new(self.local_mac)
    }

    // -----------------------------------------------------------------------
    // Routing
    // -----------------------------------------------------------------------

    /// Routes by the subnet and the gateway of a network.
    pub fn set_routing(&mut self, config: NetworkConfig)
        requires
            config.prefix_len <= 32,
        ensures
            final(self).routing_table.subnet matches Some(s) && s.local_ip == config.local_ip
                && s.prefix_len == config.prefix_len && s.gateway == config.gateway,
            final(self).routing_table.mtu == config.mtu,
            final(self).routing_table.wf(),
            *final(self) == (UdpSocket {
                routing_table: final(self).routing_table,
                ..*old(self)
            }),
    {
        self.routing_table = RoutingTable::with_config(config);
    }

    /// The routing table.
    pub fn routing_table(&self) -> (r: &RoutingTable)
        ensures
            *r == self.routing_table,
    {
        &self.routing_table
    }

    /// Largest payload that fits the MTU.
    pub fn max_udp_payload(&self) -> (r: usize)
        ensures
            r == self.routing_table.payload_limit(),
    {
        self.routing_table.max_udp_payload()
    }

    /// Largest payload that a send takes: what fits the MTU, less the headers of the
    /// tunnel if there is one.
    pub open spec fn send_limit(self) -> nat {
        let base = self.routing_table.payload_limit();
        if self.gue_config is None {
            base
        } else if base < 32 {
            0
        } else {
            (base - 32) as nat
        }
    }

    /// Largest payload that a send takes.
    pub fn max_gue_payload(&self) -> (r: usize)
        ensures
            r == self.send_limit(),
    {
        let base = self.routing_table.max_udp_payload();
        if self.gue_config.is_some() {
            if base < GUE_ENCAP_OVERHEAD {
                0
            } else {
                base - GUE_ENCAP_OVERHEAD
            }
        } else {
            base
        }
    }

    // -----------------------------------------------------------------------
    // VLAN and tunnel
    // -----------------------------------------------------------------------

    /// Sets the VLAN, none for `None`.
    pub fn set_vlan(&mut self, config: Option<VlanConfig>)
        ensures
            *final(self) == (UdpSocket { vlan_config: config, ..*old(self) }),
    {
        self.vlan_config = config;
    }

    /// The VLAN.
    pub fn vlan(&self) -> (r: Option<&VlanConfig>)
        ensures
            match self.vlan_config {
                Some(config) => r matches Some(c) && *c == config,
                None => r is None,
            },
    {
        match &self.vlan_config {
            Some(config) => Some(config),
            None => None,
        }
    }

    /// Sets the tunnel, none for `None`.
    pub fn set_gue(&mut self, config: Option<GueConfig>)
        ensures
            *final(self) == (UdpSocket { gue_config: config, ..*old(self) }),
    {
        self.gue_config = config;
    }

    /// The tunnel.
    pub fn gue(&self) -> (r: Option<&GueConfig>)
        ensures
            match self.gue_config {
                Some(config) => r matches Some(c) && *c == config,
                None => r is None,
            },
    {
        match &self.gue_config {
            Some(config) => Some(config),
            None => None,
        }
    }

    // -----------------------------------------------------------------------
    // ARP and ICMP
    // -----------------------------------------------------------------------

    /// Sets whether the socket answers ARP requests for its address, tagged or untagged, and
    /// asks for addresses. While it waits for the answer about an address, it looks at untagged
    /// frames only.
    pub fn set_auto_arp(&mut self, enable: bool)
        ensures
            *final(self) == (UdpSocket { auto_arp: enable, ..*old(self) }),
    {
        self.auto_arp = enable;
    }

    pub fn auto_arp(&self) -> (r: bool)
        ensures
            r == self.auto_arp,
    {
        self.auto_arp
    }

    /// The ARP cache of the DPDK port. A socket on the port looks destinations up there, one on
    /// another backend in a cache of its own.
    pub open spec fn port_cache(self) -> ArpCache {
        match self.port_arp_cache {
            Some(cache) => cache,
            None => self.arp_handler.cache,
        }
    }

    /// The socket with another ARP cache of the DPDK port.
    pub open spec fn with_port_cache(self, cache: ArpCache) -> UdpSocket {
        match self.port_arp_cache {
            Some(_) => UdpSocket { port_arp_cache: Some(cache), ..self },
            None => UdpSocket {
                arp_handler: arp::ArpHandler { cache, ..self.arp_handler },
                ..self
            },
        }
    }

    /// The ARP cache of the DPDK port.
    pub fn arp_cache(&self) -> (r: &ArpCache)
        ensures
            *r == self.port_cache(),
    {
        match &self.port_arp_cache {
            Some(cache) => cache,
            None => &self.arp_handler.cache,
        }
    }

    /// Adds an entry to the ARP cache of the DPDK port.
    pub fn add_arp_entry(&mut self, ip: Ipv4Addr, mac: MacAddress, now: u64)
        ensures
            arp::learned(old(self).port_cache()@, final(self).port_cache()@, ip, mac@, now),
            *final(self) == old(self).with_port_cache(final(self).port_cache()),
    {
        match &mut self.port_arp_cache {
            Some(cache) => cache.insert(ip, mac, now),
            None => self.arp_handler.cache.insert(ip, mac, now),
        }
    }

    /// The frame that asks for the Ethernet address of `target_ip`.
    pub fn send_arp_request(&self, target_ip: Ipv4Addr) -> (r: Option<[u8; ETH_ARP_FRAME_LEN]>)
        ensures
            r is Some <==> self.arp_handler.local_ips@.len() > 0,
            r matches Some(frame) ==> frame@ == arp::request_frame(
                self.arp_handler.local_mac@,
                self.arp_handler.local_ips@[0],
                target_ip,
            ),
    {
        self.arp_handler.make_request(target_ip)
    }

    /// The frame that announces the address of the socket.
    pub fn send_gratuitous_arp(&self) -> (r: Option<[u8; ETH_ARP_FRAME_LEN]>)
        ensures
            r is Some <==> self.arp_handler.local_ips@.len() > 0,
            r matches Some(frame) ==> frame@ == arp::request_frame(
                self.arp_handler.local_mac@,
                self.arp_handler.local_ips@[0],
                self.arp_handler.local_ips@[0],
            ),
    {
        self.arp_handler.make_gratuitous_arp()
    }

    /// The frame to announce the address with when the socket is bound, if it does that.
    pub fn send_gratuitous_arp_if_enabled(&self) -> (r: Option<[u8; ETH_ARP_FRAME_LEN]>)
        ensures
            r is Some <==> self.auto_garp && self.arp_handler.local_ips@.len() > 0,
            r matches Some(frame) ==> frame@ == arp::request_frame(
                self.arp_handler.local_mac@,
                self.arp_handler.local_ips@[0],
                self.arp_handler.local_ips@[0],
            ),
    {
        if self.auto_garp {
            self.send_gratuitous_arp()
        } else {
            None
        }
    }

    /// Sets whether the address is announced when a socket is bound.
    pub fn set_auto_garp(&mut self, enable: bool)
        ensures
            *final(self) == (UdpSocket { auto_garp: enable, ..*old(self) }),
    {
        self.auto_garp = enable;
    }

    pub fn auto_garp(&self) -> (r: bool)
        ensures
            r == self.auto_garp,
    {
        self.auto_garp
    }

    /// Sets whether the socket answers echo requests.
    pub fn set_auto_icmp(&mut self, enable: bool)
        ensures
            *final(self) == (UdpSocket { auto_icmp: enable, ..*old(self) }),
    {
        self.auto_icmp = enable;
    }

    pub fn auto_icmp(&self) -> (r: bool)
        ensures
            r == self.auto_icmp,
    {
        self.auto_icmp
    }

    // -----------------------------------------------------------------------
    // The device
    // -----------------------------------------------------------------------

    /// The Ethernet address to receive on for a multicast group. Other addresses are
    /// refused.
    pub fn join_multicast_v4(&self, multicast_addr: &Ipv4Addr, _interface: &Ipv4Addr) -> (r: Result<
        MacAddress,
        IoError,
    >)
        ensures
            match r {
                Ok(mac) => is_multicast_group(*multicast_addr) && mac@ == multicast_mac4(
                    *multicast_addr,
                ),
                Err(e) => !is_multicast_group(*multicast_addr) && e.kind
                    == ErrorKind::InvalidInput && e.message@
                    == "Address is not a multicast address"@,
            },
    {
        group_mac(multicast_addr)
    }

    /// Whether a multicast group can be left. Other addresses are refused.
    pub fn leave_multicast_v4(&self, multicast_addr: &Ipv4Addr, _interface: &Ipv4Addr) -> (r: Result<
        (),
        IoError,
    >)
        ensures
            match r {
                Ok(_) => is_multicast_group(*multicast_addr),
                Err(e) => !is_multicast_group(*multicast_addr) && e.kind
                    == ErrorKind::InvalidInput && e.message@
                    == "Address is not a multicast address"@,
            },
    {
        match group_mac(multicast_addr) {
            Ok(_) => Ok(()),
            Err(e) => Err(e),
        }
    }

    /// The name of the backend.
    pub fn active_backend(&self) -> (r: &str)
        ensures
            r@ == self.backend_name@,
    {
        self.backend_name.as_str()
    }

    /// Whether promiscuous mode can be switched now: not on the DPDK port itself.
    pub fn set_promiscuous(&self, _enable: bool) -> (r: Result<(), IoError>)
        ensures
            match r {
                Ok(_) => !self.dpdk,
                Err(e) => self.dpdk && e.kind == ErrorKind::Other && e.message@
                    == "Promiscuous mode must be set before bind() via PortConfig"@,
            },
    {
        if self.dpdk {
            return Err(
                IoError::new(
                    ErrorKind::Other,
                    "Promiscuous mode must be set before bind() via PortConfig",
                ),
            );
        }
        Ok(())
    }

    /// The counters.
    pub fn perf_counters(&self) -> (r: &PerfCounters)
        ensures
            *r == self.perf_counters,
    {
        &self.perf_counters
    }

    /// Whether no worker threads feed the socket.
    pub fn is_run_to_completion(&self) -> (r: bool)
        ensures
            r == !self.has_pipeline,
    {
        !self.has_pipeline
    }

    pub fn has_tx_ipv4_cksum_offload(&self) -> (r: bool)
        ensures
            r == self.tx_offload.ipv4_cksum,
    {
        self.tx_offload.ipv4_cksum
    }

    pub fn has_tx_udp_cksum_offload(&self) -> (r: bool)
        ensures
            r == self.tx_offload.udp_cksum,
    {
        self.tx_offload.udp_cksum
    }

    pub fn has_rx_ipv4_cksum_offload(&self) -> (r: bool)
        ensures
            r == self.rx_offload.ipv4_cksum,
    {
        self.rx_offload.ipv4_cksum
    }

    pub fn has_rx_udp_cksum_offload(&self) -> (r: bool)
        ensures
            r == self.rx_offload.udp_cksum,
    {
        self.rx_offload.udp_cksum
    }

    pub fn has_tx_vlan_offload(&self) -> (r: bool)
        ensures
            r == self.tx_offload.vlan_insert,
    {
        self.tx_offload.vlan_insert
    }

    pub fn has_rx_vlan_offload(&self) -> (r: bool)
        ensures
            r == self.rx_offload.vlan_strip,
    {
        self.rx_offload.vlan_strip
    }

    /// Whether the NIC inserts the tags of the frames that this socket sends.
    pub fn has_hw_vlan_insert(&self) -> (r: bool)
        ensures
            r == (self.dpdk && self.tx_offload.vlan_insert),
    {
        self.dpdk && self.tx_offload.vlan_insert
    }
}

} // verus!
