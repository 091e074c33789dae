//! A user-space UDP stack over raw Ethernet frames.
//!
//! The crate builds and parses UDP, ICMP, ARP and NDP frames over IPv4 and
//! IPv6, handles 802.1Q tags, GUE and GENEVE tunnels, and decides what a UDP
//! socket does with each frame it receives or sends. Every function states
//! what it computes over byte sequences, and the statements are proved.

pub mod addr;
pub mod arp;
pub mod backend;
pub mod bind;
pub mod bytes;
pub mod checksum;
pub mod constants;
pub mod error;
pub mod frame_pool;
pub mod geneve;
pub mod gue;
pub mod icmp;
pub mod icmpv6;
pub mod ipv6;
pub mod ipv6_addr;
pub mod ndp;
pub mod neighbor_laws;
pub mod parse;
pub mod pipeline;
pub mod recv_queue;
pub mod routing;
pub mod send;
pub mod settings;
pub mod socket;
pub mod socket_laws;
pub mod state_laws;
pub mod synthetic;
pub mod text;
pub mod text_laws;
pub mod tunnel;
pub mod tunnel_laws;
pub mod udp;
pub mod vlan;
pub mod wire6_laws;
pub mod wire_laws;

pub use addr::{Ipv4Addr, Ipv6Addr, MacAddress, SocketAddr, SocketAddrV4, SocketAddrV6};
pub use arp::{ArpCache, ArpHandler, ArpPacket, ProcArpEntry};
pub use backend::{create_backend, BackendConfig, BackendType, HwRxOffload, HwTxOffload};
pub use bind::{BackendInfo, EphemeralPorts, TopologyConfig, UdpSocketBuilder};
pub use constants::{
    ETH_HEADER_LEN, ETH_TYPE_IPV4, ETH_TYPE_VLAN, IPV4_HEADER_LEN, IP_PROTO_UDP, MAX_UDP_PAYLOAD,
    TOTAL_HEADER_LEN, TOTAL_HEADER_LEN_VLAN, UDP_HEADER_LEN, VLAN_TAG_LEN,
};
pub use error::{ErrorKind, IoError, UdpError, UdpResult};
pub use frame_pool::{AppPacket, FramePool, FrameRef};
pub use gue::{GueConfig, GueHeader, GUE_DEFAULT_PORT, GUE_ENCAP_OVERHEAD};
pub use icmp::{IcmpAction, IcmpErrorInfo, IcmpHandler, IcmpPacket};
pub use ipv6::{
    build_udp6_frame, build_udp6_frame_into, parse_udp6_packet, parse_udp6_packet_ref,
    udp6_checksum, udp6_pseudo_header_checksum, verify_udp6_checksum, walk_extension_headers,
    Ipv6NextHeader, ParsedUdp6Packet, ParsedUdp6PacketRef, ETH_TYPE_IPV6, IPV6_HEADER_LEN,
    IP_PROTO_DSTOPTS, IP_PROTO_FRAGMENT, IP_PROTO_HOPOPT, IP_PROTO_ICMPV6, IP_PROTO_NONE,
    IP_PROTO_ROUTING, MAX_UDP_PAYLOAD_V6, TOTAL_HEADER_LEN_V6, TOTAL_HEADER_LEN_V6_VLAN,
};
pub use recv_queue::{
    ConnectionState, ReceiveQueue, RecvDropStats, DEFAULT_RECV_BUFFER_BYTES,
    DEFAULT_RECV_BUFFER_PACKETS,
};
pub use routing::{NetworkConfig, NextHop, RoutingTable};
pub use socket::{PerfCounters, UdpSocket};
pub use synthetic::{SyntheticUdpSocket, UdpHandler};
pub use udp::{
    build_udp_frame, build_udp_frame_into, build_udp_frame_into_vlan, build_udp_packet,
    ipv4_checksum, parse_udp_from_mbuf, parse_udp_packet, parse_udp_packet_ref, udp_checksum,
    udp_pseudo_header_checksum, verify_ipv4_checksum, verify_udp_checksum, ParsedUdpPacket,
    ParsedUdpPacketRef,
};
pub use vlan::{VlanConfig, VlanMode};
