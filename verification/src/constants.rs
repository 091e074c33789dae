//! Sizes and protocol numbers shared by the frame formats.

use vstd::prelude::*;

verus! {

/// Largest UDP payload for an MTU of 1500 (1500 - 20 IPv4 - 8 UDP).
pub const MAX_UDP_PAYLOAD: usize = 1472;

/// Largest frame: a 9001-byte jumbo MTU and the Ethernet header.
pub const MAX_FRAME_SIZE: usize = 9015;

/// Ethernet header size.
pub const ETH_HEADER_LEN: usize = 14;

/// IPv4 header size without options.
pub const IPV4_HEADER_LEN: usize = 20;

/// UDP header size.
pub const UDP_HEADER_LEN: usize = 8;

/// Ethernet, IPv4 and UDP headers together.
pub const TOTAL_HEADER_LEN: usize = 42;

/// EtherType of IPv4.
pub const ETH_TYPE_IPV4: u16 = 0x0800;

/// EtherType of an 802.1Q tag (TPID).
pub const ETH_TYPE_VLAN: u16 = 0x8100;

/// Size of an 802.1Q tag.
pub const VLAN_TAG_LEN: usize = 4;

/// Header overhead of a VLAN-tagged UDP frame.
pub const TOTAL_HEADER_LEN_VLAN: usize = 46;

/// IP protocol number of UDP.
pub const IP_PROTO_UDP: u8 = 17;

} // verus!
