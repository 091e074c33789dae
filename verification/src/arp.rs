//! ARP: packets, the address cache and the handler that answers requests.
//!
//! Time is a number of nanoseconds on a clock of the caller's choice that never
//! runs backwards.

use std::collections::HashMap;

use vstd::prelude::*;

use crate::addr;
use crate::addr::{read_ipv4, Ipv4Addr, MacAddress};
use crate::bytes;
use crate::bytes::{push_be16, push_bytes, read_be16, read_mac};
use crate::icmp;
use crate::icmp::contains_ip;
use crate::parse;
use crate::parse::{
    chars_of, parse_ipv4_chars, parse_number, split_text, split_words,
};
use crate::udp;
use crate::udp::push_eth_header;

verus! {

/// EtherType of ARP.
pub const ETH_TYPE_ARP: u16 = 0x0806;

/// Hardware type of Ethernet.
pub const ARP_HW_TYPE_ETHERNET: u16 = 1;

/// Protocol type of IPv4.
pub const ARP_PROTO_TYPE_IPV4: u16 = 0x0800;

pub const ARP_OP_REQUEST: u16 = 1;

pub const ARP_OP_REPLY: u16 = 2;

/// ARP packet size.
pub const ARP_PACKET_LEN: usize = 28;

/// Ethernet header and ARP packet.
pub const ETH_ARP_FRAME_LEN: usize = 42;

/// Nanoseconds that a cache entry lives: five minutes.
pub const ARP_CACHE_TTL: u64 = 300_000_000_000;

// ---------------------------------------------------------------------------
// Packets
// ---------------------------------------------------------------------------

/// An ARP packet.
#[derive(Debug, Clone)]
pub struct ArpPacket {
    pub hw_type: u16,
    pub proto_type: u16,
    pub hw_len: u8,
    pub proto_len: u8,
    pub operation: u16,
    pub sender_mac: [u8; 6],
    pub sender_ip: Ipv4Addr,
    pub target_mac: [u8; 6],
    pub target_ip: Ipv4Addr,
}

/// What an ARP packet for Ethernet and IPv4 says.
pub struct ArpView {
    pub operation: u16,
    pub sender_mac: Seq<u8>,
    pub sender_ip: Ipv4Addr,
    pub target_mac: Seq<u8>,
    pub target_ip: Ipv4Addr,
}

impl View for ArpPacket {
    type V = ArpView;

    open spec fn view(&self) -> ArpView {
        ArpView {
            operation: self.operation,
            sender_mac: self.sender_mac@,
            sender_ip: self.sender_ip,
            target_mac: self.target_mac@,
            target_ip: self.target_ip,
        }
    }
}

/// Six zero bytes: an Ethernet address that is not known.
pub open spec fn zero_mac() -> Seq<u8> {
    seq![0u8, 0u8, 0u8, 0u8, 0u8, 0u8]
}

/// A request for the Ethernet address of `target_ip`.
pub open spec fn request_view(sender_mac: Seq<u8>, sender_ip: Ipv4Addr, target_ip: Ipv4Addr) -> ArpView {
    ArpView {
        operation: ARP_OP_REQUEST,
        sender_mac,
        sender_ip,
        target_mac: zero_mac(),
        target_ip,
    }
}

/// A reply that tells `target_ip` the Ethernet address of `sender_ip`.
pub open spec fn reply_view(
    sender_mac: Seq<u8>,
    sender_ip: Ipv4Addr,
    target_mac: Seq<u8>,
    target_ip: Ipv4Addr,
) -> ArpView {
    ArpView { operation: ARP_OP_REPLY, sender_mac, sender_ip, target_mac, target_ip }
}

impl ArpPacket {
    /// Whether the packet is for Ethernet and IPv4.
    pub open spec fn is_ethernet_ipv4(self) -> bool {
        &&& self.hw_type == ARP_HW_TYPE_ETHERNET
        &&& self.proto_type == ARP_PROTO_TYPE_IPV4
        &&& self.hw_len == 6
        &&& self.proto_len == 4
    }

    /// A request for the Ethernet address of `target_ip`.
    pub fn request(sender_mac: [u8; 6], sender_ip: Ipv4Addr, target_ip: Ipv4Addr) -> (r: Self)
        ensures
            r.is_ethernet_ipv4(),
            r@ == request_view(sender_mac@, sender_ip, target_ip),
    {
        let target_mac = [0u8, 0u8, 0u8, 0u8, 0u8, 0u8];
        assert(target_mac@ =~= zero_mac());
        ArpPacket {
            hw_type: ARP_HW_TYPE_ETHERNET,
            proto_type: ARP_PROTO_TYPE_IPV4,
            hw_len: 6,
            proto_len: 4,
            operation: ARP_OP_REQUEST,
            sender_mac,
            sender_ip,
            target_mac,
            target_ip,
        }
    }

    /// A reply that tells `target_ip` the Ethernet address of `sender_ip`.
    pub fn reply(
        sender_mac: [u8; 6],
        sender_ip: Ipv4Addr,
        target_mac: [u8; 6],
        target_ip: Ipv4Addr,
    ) -> (r: Self)
        ensures
            r.is_ethernet_ipv4(),
            r@ == reply_view(sender_mac@, sender_ip, target_mac@, target_ip),
    {
        ArpPacket {
            hw_type: ARP_HW_TYPE_ETHERNET,
            proto_type: ARP_PROTO_TYPE_IPV4,
            hw_len: 6,
            proto_len: 4,
            operation: ARP_OP_REPLY,
            sender_mac,
            sender_ip,
            target_mac,
            target_ip,
        }
    }

    pub fn is_request(&self) -> (r: bool)
        ensures
            r == (self.operation == ARP_OP_REQUEST),
    {
        self.operation == ARP_OP_REQUEST
    }

    pub fn is_reply(&self) -> (r: bool)
        ensures
            r == (self.operation == ARP_OP_REPLY),
    {
        self.operation == ARP_OP_REPLY
    }
}

/// An ARP packet on the wire.
pub open spec fn arp_bytes(
    hw_type: u16,
    proto_type: u16,
    hw_len: u8,
    proto_len: u8,
    v: ArpView,
) -> Seq<u8> {
    bytes::be16_bytes(hw_type) + bytes::be16_bytes(proto_type) + seq![hw_len, proto_len]
        + bytes::be16_bytes(v.operation) + v.sender_mac + v.sender_ip.bytes() + v.target_mac
        + v.target_ip.bytes()
}

/// An Ethernet frame that carries an ARP packet for Ethernet and IPv4.
pub open spec fn arp_frame(src_mac: Seq<u8>, dst_mac: Seq<u8>, v: ArpView) -> Seq<u8> {
    udp::eth_header(dst_mac, src_mac, ETH_TYPE_ARP) + arp_bytes(
        ARP_HW_TYPE_ETHERNET,
        ARP_PROTO_TYPE_IPV4,
        6,
        4,
        v,
    )
}

/// What an untagged ARP frame says, `None` if it is no whole ARP frame for
/// Ethernet and IPv4.
pub open spec fn arp_parse(frame: Seq<u8>) -> Option<ArpView> {
    if frame.len() >= ETH_ARP_FRAME_LEN && bytes::be16_at(frame, 12) == ETH_TYPE_ARP
        && bytes::be16_at(frame, 14) == ARP_HW_TYPE_ETHERNET && bytes::be16_at(frame, 16)
        == ARP_PROTO_TYPE_IPV4 && frame[18] == 6 && frame[19] == 4 {
        Some(
            ArpView {
                operation: bytes::be16_at(frame, 20),
                sender_mac: frame.subrange(22, 28),
                sender_ip: addr::ipv4_at(frame, 28),
                target_mac: frame.subrange(32, 38),
                target_ip: addr::ipv4_at(frame, 38),
            },
        )
    } else {
        None
    }
}

/// Parses an untagged ARP frame for Ethernet and IPv4.
pub fn parse_arp_packet(frame: &[u8]) -> (r: Option<ArpPacket>)
    ensures
        match r {
            Some(p) => p.is_ethernet_ipv4() && arp_parse(frame@) == Some(p@),
            None => arp_parse(frame@) is None,
        },
{
    if frame.len() < ETH_ARP_FRAME_LEN {
        return None;
    }
    if read_be16(frame, 12) != ETH_TYPE_ARP {
        return None;
    }
    let packet = ArpPacket {
        hw_type: read_be16(frame, 14),
        proto_type: read_be16(frame, 16),
        hw_len: frame[18],
        proto_len: frame[19],
        operation: read_be16(frame, 20),
        sender_mac: read_mac(frame, 22),
        sender_ip: read_ipv4(frame, 28),
        target_mac: read_mac(frame, 32),
        target_ip: read_ipv4(frame, 38),
    };
    if packet.hw_type != ARP_HW_TYPE_ETHERNET || packet.proto_type != ARP_PROTO_TYPE_IPV4 {
        return None;
    }
    if packet.hw_len != 6 || packet.proto_len != 4 {
        return None;
    }
    Some(packet)
}

/// The bytes of a vector of frame length.
fn to_arp_frame(v: &Vec<u8>) -> (r: [u8; ETH_ARP_FRAME_LEN])
    requires
        v@.len() == ETH_ARP_FRAME_LEN,
    ensures
        r@ == v@,
{
    let mut r = [0u8; ETH_ARP_FRAME_LEN];
    let mut i: usize = 0;
    while i < ETH_ARP_FRAME_LEN
        invariant
            v@.len() == ETH_ARP_FRAME_LEN,
            r@.len() == ETH_ARP_FRAME_LEN,
            i <= ETH_ARP_FRAME_LEN,
            forall|k: int| 0 <= k < i ==> r@[k] == v@[k],
        decreases ETH_ARP_FRAME_LEN - i,
    {
        r[i] = v[i];
        i = i + 1;
    }
    assert(r@ =~= v@);
    r
}

/// Builds the Ethernet frame that carries an ARP packet.
pub fn build_arp_frame(src_mac: &[u8; 6], dst_mac: &[u8; 6], arp: &ArpPacket) -> (r:
    [u8; ETH_ARP_FRAME_LEN])
    ensures
        r@ == udp::eth_header(dst_mac@, src_mac@, ETH_TYPE_ARP) + arp_bytes(
            arp.hw_type,
            arp.proto_type,
            arp.hw_len,
            arp.proto_len,
            arp@,
        ),
        arp.is_ethernet_ipv4() ==> r@ == arp_frame(src_mac@, dst_mac@, arp@),
{
    let mut frame: Vec<u8> = Vec::new();
    push_eth_header(&mut frame, dst_mac, src_mac, ETH_TYPE_ARP);
    push_be16(&mut frame, arp.hw_type);
    push_be16(&mut frame, arp.proto_type);
    frame.push(arp.hw_len);
    frame.push(arp.proto_len);
    push_be16(&mut frame, arp.operation);
    push_bytes(&mut frame, &arp.sender_mac);
    push_bytes(&mut frame, &arp.sender_ip.octets());
    push_bytes(&mut frame, &arp.target_mac);
    push_bytes(&mut frame, &arp.target_ip.octets());
    assert(frame@ =~= udp::eth_header(dst_mac@, src_mac@, ETH_TYPE_ARP) + arp_bytes(
        arp.hw_type,
        arp.proto_type,
        arp.hw_len,
        arp.proto_len,
        arp@,
    ));
    to_arp_frame(&frame)
}

/// The broadcast frame with an ARP request.
pub open spec fn request_frame(src_mac: Seq<u8>, src_ip: Ipv4Addr, target_ip: Ipv4Addr) -> Seq<u8> {
    arp_frame(src_mac, addr::broadcast_mac(), request_view(src_mac, src_ip, target_ip))
}

/// The frame with an ARP reply.
pub open spec fn reply_frame(
    src_mac: Seq<u8>,
    src_ip: Ipv4Addr,
    dst_mac: Seq<u8>,
    dst_ip: Ipv4Addr,
) -> Seq<u8> {
    arp_frame(src_mac, dst_mac, reply_view(src_mac, src_ip, dst_mac, dst_ip))
}

/// Builds an ARP request, sent to the broadcast address.
pub fn build_arp_request(src_mac: &[u8; 6], src_ip: Ipv4Addr, target_ip: Ipv4Addr) -> (r:
    [u8; ETH_ARP_FRAME_LEN])
    ensures
        r@ == request_frame(src_mac@, src_ip, target_ip),
{
    let arp = ArpPacket::request(*src_mac, src_ip, target_ip);
    build_arp_frame(src_mac, &MacAddress::broadcast().octets(), &arp)
}

/// Builds an ARP reply.
pub fn build_arp_reply(
    src_mac: &[u8; 6],
    src_ip: Ipv4Addr,
    dst_mac: &[u8; 6],
    dst_ip: Ipv4Addr,
) -> (r: [u8; ETH_ARP_FRAME_LEN])
    ensures
        r@ == reply_frame(src_mac@, src_ip, dst_mac@, dst_ip),
{
    let arp = ArpPacket::reply(*src_mac, src_ip, *dst_mac, dst_ip);
    build_arp_frame(src_mac, dst_mac, &arp)
}

// ---------------------------------------------------------------------------
// Cache
// ---------------------------------------------------------------------------

/// Whether more than `ttl` nanoseconds have passed from `timestamp` to `now`.
pub open spec fn outlived(timestamp: u64, now: u64, ttl: u64) -> bool {
    now - timestamp > ttl
}

/// An entry of the ARP cache.
#[derive(Debug, Clone, Copy)]
pub struct ArpCacheEntry {
    pub mac: MacAddress,
    /// When the entry was made.
    pub timestamp: u64,
}

impl ArpCacheEntry {
    pub fn new(mac: MacAddress, now: u64) -> (r: Self)
        ensures
            r == (ArpCacheEntry { mac, timestamp: now }),
    {
        ArpCacheEntry { mac, timestamp: now }
    }

    /// Whether the entry is older than five minutes.
    pub fn is_expired(&self, now: u64) -> (r: bool)
        ensures
            r == outlived(self.timestamp, now, ARP_CACHE_TTL),
    {
        now > self.timestamp && now - self.timestamp > ARP_CACHE_TTL
    }
}

/// The Ethernet addresses of IPv4 neighbours.
///
/// The view maps an address, as a number, to its entry.
#[derive(Debug)]
pub struct ArpCache {
    entries: HashMap<u32, ArpCacheEntry>,
}

impl View for ArpCache {
    type V = Map<u32, ArpCacheEntry>;

    closed spec fn view(&self) -> Map<u32, ArpCacheEntry> {
        self.entries@
    }
}

/// The number that the cache keeps an address under.
pub open spec fn cache_key(ip: Ipv4Addr) -> u32 {
    ip.number() as u32
}

impl ArpCache {
    /// The Ethernet address of `ip` at time `now`: that of its entry, if it has
    /// one that has not expired.
    pub open spec fn find(self, ip: Ipv4Addr, now: u64) -> Option<MacAddress> {
        if self@.contains_key(cache_key(ip)) && !outlived(
            self@[cache_key(ip)].timestamp,
            now,
            ARP_CACHE_TTL,
        ) {
            Some(self@[cache_key(ip)].mac)
        } else {
            None
        }
    }

    pub fn new() -> (r: Self)
        ensures
            r@ == Map::<u32, ArpCacheEntry>::empty(),
    {
        ArpCache { entries: HashMap::new() }
    }

    /// Looks up the Ethernet address of `ip`.
    pub fn lookup(&self, ip: &Ipv4Addr, now: u64) -> (r: Option<MacAddress>)
        ensures
            r == self.find(*ip, now),
    {
        broadcast use vstd::std_specs::hash::group_hash_axioms;

        match self.entries.get(&ip.to_u32()) {
            Some(entry) => if entry.is_expired(now) {
                None
            } else {
                Some(entry.mac)
            },
            None => None,
        }
    }

    /// Inserts or replaces an entry.
    pub fn insert(&mut self, ip: Ipv4Addr, mac: MacAddress, now: u64)
        ensures
            final(self)@ == old(self)@.insert(
                cache_key(ip),
                (ArpCacheEntry { mac, timestamp: now }),
            ),
    {
        broadcast use vstd::std_specs::hash::group_hash_axioms;

        self.entries.insert(ip.to_u32(), ArpCacheEntry::new(mac, now));
    }

    /// Removes an entry.
    pub fn remove(&mut self, ip: &Ipv4Addr)
        ensures
            final(self)@ == old(self)@.remove(cache_key(*ip)),
    {
        broadcast use vstd::std_specs::hash::group_hash_axioms;

        self.entries.remove(&ip.to_u32());
    }

    /// Removes the entries that have expired.
    pub fn purge_expired(&mut self, now: u64)
        ensures
            forall|k: u32| #[trigger]
                final(self)@.contains_key(k) <==> old(self)@.contains_key(k) && !outlived(
                    old(self)@[k].timestamp,
                    now,
                    ARP_CACHE_TTL,
                ),
            forall|k: u32| #[trigger]
                final(self)@.contains_key(k) ==> final(self)@[k] == old(self)@[k],
    {
        broadcast use vstd::std_specs::hash::group_hash_axioms;

        let keys = self.keys_of();
        let ghost before = self@;
        let mut i: usize = 0;
        while i < keys.len()
            invariant
                i <= keys@.len(),
                forall|k: u32| #[trigger] before.contains_key(k) <==> keys@.contains(k),
                keys@.no_duplicates(),
                forall|k: u32| #[trigger]
                    self@.contains_key(k) <==> before.contains_key(k) && !(keys@.take(
                        i as int,
                    ).contains(k) && outlived(before[k].timestamp, now, ARP_CACHE_TTL)),
                forall|k: u32| #[trigger] self@.contains_key(k) ==> self@[k] == before[k],
            decreases keys@.len() - i,
        {
            let k: u32 = keys[i];
            proof {
                assert(keys@[i as int] == k);
                assert(keys@.contains(k));
                assert(before.contains_key(k));
                assert(!keys@.take(i as int).contains(k)) by {
                    if keys@.take(i as int).contains(k) {
                        let j = choose|j: int| 0 <= j < i && keys@.take(i as int)[j] == k;
                        assert(keys@[j] == k);
                    }
                }
                assert(self@.contains_key(k));
                assert forall|q: u32| #[trigger] keys@.take(i + 1).contains(q) <==> keys@.take(
                    i as int,
                ).contains(q) || q == k by {
                    let now_taken = keys@.take(i + 1);
                    let was_taken = keys@.take(i as int);
                    if now_taken.contains(q) {
                        let j = choose|j: int| 0 <= j < i + 1 && now_taken[j] == q;
                        if j < i {
                            assert(was_taken[j] == q);
                        }
                    }
                    if was_taken.contains(q) {
                        let j = choose|j: int| 0 <= j < i && was_taken[j] == q;
                        assert(now_taken[j] == q);
                    }
                    assert(now_taken[i as int] == k);
                }
            }
            let stale = match self.entries.get(&k) {
                Some(entry) => entry.is_expired(now),
                None => false,
            };
            if stale {
                self.entries.remove(&k);
            }
            i = i + 1;
        }
        assert(keys@.take(keys@.len() as int) =~= keys@);
    }

    /// The keys of the entries, in no particular order.
    fn keys_of(&self) -> (r: Vec<u32>)
        ensures
            forall|k: u32| #[trigger] self@.contains_key(k) <==> r@.contains(k),
            r@.no_duplicates(),
    {
        broadcast use vstd::std_specs::hash::group_hash_axioms;

        let mut r: Vec<u32> = Vec::new();
        let all = self.entries.keys();
        let ghost order = vstd::std_specs::iter::IteratorSpec::remaining(&all);
        assert(order.unref().to_set() == self@.dom());
        for k in it: all
            invariant
                it.seq() == order,
                r@ == order.unref().take(it.index()),
        {
            r.push(*k);
            assert(r@ =~= order.unref().take(it.index() + 1));
        }
        assert(r@ =~= order.unref());
        assert forall|k: u32| #[trigger] self@.contains_key(k) <==> r@.contains(k) by {
            assert(self@.dom().contains(k) <==> r@.to_set().contains(k));
        }
        r
    }

    /// How many entries there are, expired ones too.
    pub fn len(&self) -> (r: usize)
        ensures
            r == self@.len(),
    {
        broadcast use vstd::std_specs::hash::group_hash_axioms;

        self.entries.len()
    }

    pub fn is_empty(&self) -> (r: bool)
        ensures
            r == self@.is_empty(),
    {
        self.entries.is_empty()
    }

    /// Removes all entries.
    pub fn clear(&mut self)
        ensures
            final(self)@ == Map::<u32, ArpCacheEntry>::empty(),
    {
        self.entries.clear();
    }
}

impl Default for ArpCache {
    fn default() -> (r: Self)
        ensures
            r@ == Map::<u32, ArpCacheEntry>::empty(),
    {
        ArpCache::new()
    }
}

// ---------------------------------------------------------------------------
// Handler
// ---------------------------------------------------------------------------

/// Answers ARP requests for local addresses and learns the addresses of others.
pub struct ArpHandler {
    pub local_mac: [u8; 6],
    pub local_ips: Vec<Ipv4Addr>,
    pub cache: ArpCache,
}

impl ArpHandler {
    pub fn new(local_mac: [u8; 6], local_ip: Ipv4Addr) -> (r: Self)
        ensures
            r.local_mac == local_mac,
            r.local_ips@ == seq![local_ip],
            r.cache@ == Map::<u32, ArpCacheEntry>::empty(),
    {
        ArpHandler::with_cache(local_mac, local_ip, ArpCache::new())
    }

    /// A handler that starts with the entries of `cache`.
    pub fn with_cache(local_mac: [u8; 6], local_ip: Ipv4Addr, cache: ArpCache) -> (r: Self)
        ensures
            r.local_mac == local_mac,
            r.local_ips@ == seq![local_ip],
            r.cache == cache,
    {
        let mut local_ips: Vec<Ipv4Addr> = Vec::new();
        local_ips.push(local_ip);
        assert(local_ips@ =~= seq![local_ip]);
        ArpHandler { local_mac, local_ips, cache }
    }

    /// Adds a local address.
    pub fn add_local_ip(&mut self, ip: Ipv4Addr)
        ensures
            final(self).local_ips@ == icmp::with_ip(old(self).local_ips@, ip),
            final(self).local_mac == old(self).local_mac,
            final(self).cache == old(self).cache,
    {
        if !contains_ip(&self.local_ips, &ip) {
            self.local_ips.push(ip);
        }
    }

    /// Learns the sender of an ARP packet, and gives the reply frame if it is a
    /// request for a local address.
    pub fn process_arp(&mut self, frame: &[u8], now: u64) -> (r: Option<[u8; ETH_ARP_FRAME_LEN]>)
        ensures
            final(self).local_mac == old(self).local_mac,
            final(self).local_ips == old(self).local_ips,
            match arp_parse(frame@) {
                Some(v) => {
                    &&& learned(old(self).cache@, final(self).cache@, v.sender_ip, v.sender_mac, now)
                    &&& r is Some <==> v.operation == ARP_OP_REQUEST && old(
                        self,
                    ).local_ips@.contains(v.target_ip)
                    &&& r matches Some(reply) ==> reply@ == reply_frame(
                        old(self).local_mac@,
                        v.target_ip,
                        v.sender_mac,
                        v.sender_ip,
                    )
                },
                None => r is None && final(self).cache == old(self).cache,
            },
    {
        let arp = match parse_arp_packet(frame) {
            Some(arp) => arp,
            None => return None,
        };
        let sender = MacAddress::new(arp.sender_mac);
        self.cache.insert(arp.sender_ip, sender, now);
        assert(sender@ == arp@.sender_mac);
        if arp.is_request() && contains_ip(&self.local_ips, &arp.target_ip) {
            return Some(
                build_arp_reply(&self.local_mac, arp.target_ip, &arp.sender_mac, arp.sender_ip),
            );
        }
        None
    }

    /// The Ethernet address of `ip`: the broadcast address for the broadcast
    /// address, otherwise what the cache knows.
    pub fn resolve(&self, ip: &Ipv4Addr, now: u64) -> (r: Option<MacAddress>)
        ensures
            *ip == addr::ipv4_broadcast() ==> (r matches Some(mac) && mac@ == addr::broadcast_mac()),
            *ip != addr::ipv4_broadcast() ==> r == self.cache.find(*ip, now),
    {
        if *ip == Ipv4Addr::broadcast() {
            return Some(MacAddress::broadcast());
        }
        self.cache.lookup(ip, now)
    }

    /// The request frame for the Ethernet address of `target_ip`, sent from the
    /// first local address.
    pub fn make_request(&self, target_ip: Ipv4Addr) -> (r: Option<[u8; ETH_ARP_FRAME_LEN]>)
        ensures
            r is Some <==> self.local_ips@.len() > 0,
            r matches Some(frame) ==> frame@ == request_frame(
                self.local_mac@,
                self.local_ips@[0],
                target_ip,
            ),
    {
        if self.local_ips.len() == 0 {
            return None;
        }
        Some(build_arp_request(&self.local_mac, self.local_ips[0], target_ip))
    }

    /// The broadcast frame that announces the first local address: a request for
    /// that address, sent from it.
    pub fn make_gratuitous_arp(&self) -> (r: Option<[u8; ETH_ARP_FRAME_LEN]>)
        ensures
            r is Some <==> self.local_ips@.len() > 0,
            r matches Some(frame) ==> frame@ == request_frame(
                self.local_mac@,
                self.local_ips@[0],
                self.local_ips@[0],
            ),
    {
        if self.local_ips.len() == 0 {
            return None;
        }
        self.make_request(self.local_ips[0])
    }

    /// The cache.
    pub fn cache(&self) -> (r: &ArpCache)
        ensures
            *r == self.cache,
    {
        &self.cache
    }
}

/// The cache after `ip` was learned to be at `mac` at time `now`: every other entry
/// is kept.
pub open spec fn learned(
    before: Map<u32, ArpCacheEntry>,
    after: Map<u32, ArpCacheEntry>,
    ip: Ipv4Addr,
    mac: Seq<u8>,
    now: u64,
) -> bool {
    exists|m: MacAddress| #[trigger]
        m@ == mac && after == before.insert(
            cache_key(ip),
            (ArpCacheEntry { mac: m, timestamp: now }),
        )
}

// ---------------------------------------------------------------------------
// The ARP table of the kernel
// ---------------------------------------------------------------------------

/// An entry of the kernel's ARP table.
#[derive(Debug, Clone, Copy)]
pub struct ProcArpEntry {
    pub ip: Ipv4Addr,
    pub mac: [u8; 6],
}

/// The numbers among the texts that are hexadecimal numbers of one byte.
pub open spec fn hex_bytes(parts: Seq<Seq<char>>) -> Seq<u8>
    decreases parts.len(),
{
    if parts.len() == 0 {
        Seq::<u8>::empty()
    } else {
        match parse::number_upto(parts.last(), 16, 255) {
            Some(v) => hex_bytes(parts.drop_last()).push(v as u8),
            None => hex_bytes(parts.drop_last()),
        }
    }
}

/// The text of the flags of an incomplete entry.
pub open spec fn incomplete_flags() -> Seq<char> {
    seq!['0', 'x', '0']
}

/// The entry on a line of the ARP table: address, hardware type, flags, and hardware
/// address, of which six bytes must be readable. Incomplete entries do not count.
pub open spec fn arp_line(line: Seq<char>) -> Option<(Ipv4Addr, Seq<u8>)> {
    let w = parse::words(line);
    if w.len() >= 4 && w[2] != incomplete_flags() && parse::ipv4_of(w[0]) is Some && hex_bytes(
        parse::split(w[3], ':'),
    ).len() == 6 {
        Some((parse::ipv4_of(w[0]).unwrap(), hex_bytes(parse::split(w[3], ':'))))
    } else {
        None
    }
}

/// The entries on a row of lines.
pub open spec fn arp_lines(lines: Seq<Seq<char>>) -> Seq<(Ipv4Addr, Seq<u8>)>
    decreases lines.len(),
{
    if lines.len() == 0 {
        Seq::<(Ipv4Addr, Seq<u8>)>::empty()
    } else {
        match arp_line(lines.last()) {
            Some(v) => arp_lines(lines.drop_last()).push(v),
            None => arp_lines(lines.drop_last()),
        }
    }
}

/// The entries of the ARP table: those below its first line.
pub open spec fn arp_table(content: Seq<char>) -> Seq<(Ipv4Addr, Seq<u8>)> {
    arp_lines(parse::split(content, '\n').skip(1))
}

/// What entries say.
pub open spec fn arp_entry_views(entries: Seq<ProcArpEntry>) -> Seq<(Ipv4Addr, Seq<u8>)> {
    entries.map_values(|e: ProcArpEntry| (e.ip, e.mac@))
}

/// The cache after the entries were inserted one after the other.
pub open spec fn seeded(
    before: Map<u32, ArpCacheEntry>,
    entries: Seq<ProcArpEntry>,
    now: u64,
) -> Map<u32, ArpCacheEntry>
    decreases entries.len(),
{
    if entries.len() == 0 {
        before
    } else {
        seeded(before, entries.drop_last(), now).insert(
            cache_key(entries.last().ip),
            (ArpCacheEntry { mac: (MacAddress { octets: entries.last().mac }), timestamp: now }),
        )
    }
}

/// The numbers among the texts that are hexadecimal numbers of one byte.
fn parse_hex_bytes(parts: &Vec<Vec<char>>) -> (r: Vec<u8>)
    ensures
        r@ == hex_bytes(parse::texts(parts@)),
{
    let ghost views = parse::texts(parts@);
    let mut r: Vec<u8> = Vec::new();
    let mut i: usize = 0;
    assert(r@ =~= hex_bytes(views.take(0)));
    while i < parts.len()
        invariant
            i <= parts@.len(),
            views == parse::texts(parts@),
            r@ == hex_bytes(views.take(i as int)),
        decreases parts@.len() - i,
    {
        proof {
            assert(views.take(i + 1).drop_last() =~= views.take(i as int));
            assert(views[i as int] == parts@[i as int]@);
        }
        match parse_number(&parts[i], 16, 255) {
            Some(v) => {
                r.push(v as u8);
            },
            None => {},
        }
        i = i + 1;
    }
    assert(views.take(views.len() as int) =~= views);
    r
}

/// Parses a line of the ARP table.
fn parse_arp_line(line: &Vec<char>) -> (r: Option<ProcArpEntry>)
    ensures
        match r {
            Some(e) => arp_line(line@) == Some((e.ip, e.mac@)),
            None => arp_line(line@) is None,
        },
{
    let parts = split_words(line);
    let ghost w = parse::words(line@);
    if parts.len() < 4 {
        return None;
    }
    assert(w[0] == parts@[0]@ && w[2] == parts@[2]@ && w[3] == parts@[3]@);
    let flags = &parts[2];
    let incomplete = flags.len() == 3 && flags[0] == '0' && flags[1] == 'x' && flags[2] == '0';
    proof {
        if incomplete {
            assert(w[2] =~= incomplete_flags());
        }
    }
    if incomplete {
        return None;
    }
    let ip = match parse_ipv4_chars(&parts[0]) {
        Some(ip) => ip,
        None => return None,
    };
    let m = parse_hex_bytes(&split_text(&parts[3], ':'));
    if m.len() != 6 {
        return None;
    }
    let mac = [m[0], m[1], m[2], m[3], m[4], m[5]];
    assert(mac@ =~= m@);
    Some(ProcArpEntry { ip, mac })
}

/// The complete entries of the kernel's ARP table.
pub fn parse_proc_arp(content: &str) -> (r: Vec<ProcArpEntry>)
    ensures
        arp_entry_views(r@) == arp_table(content@),
{
    let lines = split_text(&chars_of(content), '\n');
    let ghost texts = parse::split(content@, '\n').skip(1);
    let mut entries: Vec<ProcArpEntry> = Vec::new();
    let mut i: usize = 1;
    proof {
        parse::lemma_split_nonempty(content@, '\n');
        assert(lines@.len() == parse::split(content@, '\n').len());
        assert(arp_entry_views(entries@) =~= arp_lines(texts.take(0)));
    }
    while i < lines.len()
        invariant
            1 <= i <= lines@.len(),
            texts == parse::texts(lines@).skip(1),
            arp_entry_views(entries@) == arp_lines(texts.take(i - 1)),
        decreases lines@.len() - i,
    {
        let ghost before = arp_entry_views(entries@);
        proof {
            assert(texts.take(i as int).drop_last() =~= texts.take(i - 1));
            assert(texts[i - 1] == lines@[i as int]@);
        }
        match parse_arp_line(&lines[i]) {
            Some(entry) => {
                let ghost v = (entry.ip, entry.mac@);
                entries.push(entry);
                assert(arp_entry_views(entries@) =~= before.push(v));
            },
            None => {},
        }
        i = i + 1;
    }
    assert(texts.take(texts.len() as int) =~= texts);
    entries
}

/// Inserts entries of the kernel's ARP table into a cache.
pub fn seed_arp_cache(cache: &mut ArpCache, entries: &Vec<ProcArpEntry>, now: u64)
    ensures
        final(cache)@ == seeded(old(cache)@, entries@, now),
{
    let mut i: usize = 0;
    assert(entries@.take(0) =~= Seq::<ProcArpEntry>::empty());
    while i < entries.len()
        invariant
            i <= entries@.len(),
            cache@ == seeded(old(cache)@, entries@.take(i as int), now),
        decreases entries@.len() - i,
    {
        assert(entries@.take(i + 1).drop_last() =~= entries@.take(i as int));
        cache.insert(entries[i].ip, MacAddress::new(entries[i].mac), now);
        i = i + 1;
    }
    assert(entries@.take(entries@.len() as int) =~= entries@);
}

/// Inserts the complete entries of the kernel's ARP table, given as its text, into a
/// cache.
pub fn seed_arp_cache_from_kernel(cache: &mut ArpCache, content: &str, now: u64)
    ensures
        exists|entries: Seq<ProcArpEntry>| #[trigger]
            arp_entry_views(entries) == arp_table(content@) && final(cache)@ == seeded(
                old(cache)@,
                entries,
                now,
            ),
{
    let entries = parse_proc_arp(content);
    seed_arp_cache(cache, &entries, now);
}

// ---------------------------------------------------------------------------
// Laws
// ---------------------------------------------------------------------------

/// A built ARP frame parses back to what it was built from.
pub proof fn law_arp_round_trip(src_mac: [u8; 6], dst_mac: [u8; 6], v: ArpView)
    requires
        v.sender_mac.len() == 6,
        v.target_mac.len() == 6,
    ensures
        arp_frame(src_mac@, dst_mac@, v).len() == ETH_ARP_FRAME_LEN,
        arp_parse(arp_frame(src_mac@, dst_mac@, v)) == Some(v),
{
    let frame = arp_frame(src_mac@, dst_mac@, v);
    assert(frame.len() == 42);
    bytes::lemma_be16_round_trip(ETH_TYPE_ARP);
    bytes::lemma_be16_round_trip(ARP_HW_TYPE_ETHERNET);
    bytes::lemma_be16_round_trip(ARP_PROTO_TYPE_IPV4);
    bytes::lemma_be16_round_trip(v.operation);
    assert(frame[12] == bytes::be16_bytes(ETH_TYPE_ARP)[0]);
    assert(frame[13] == bytes::be16_bytes(ETH_TYPE_ARP)[1]);
    assert(frame[14] == bytes::be16_bytes(ARP_HW_TYPE_ETHERNET)[0]);
    assert(frame[15] == bytes::be16_bytes(ARP_HW_TYPE_ETHERNET)[1]);
    assert(frame[16] == bytes::be16_bytes(ARP_PROTO_TYPE_IPV4)[0]);
    assert(frame[17] == bytes::be16_bytes(ARP_PROTO_TYPE_IPV4)[1]);
    assert(frame[18] == 6 && frame[19] == 4);
    assert(frame[20] == bytes::be16_bytes(v.operation)[0]);
    assert(frame[21] == bytes::be16_bytes(v.operation)[1]);
    assert(frame.subrange(22, 28) =~= v.sender_mac);
    assert(frame.subrange(28, 32) =~= v.sender_ip.bytes());
    assert(frame.subrange(32, 38) =~= v.target_mac);
    assert(frame.subrange(38, 42) =~= v.target_ip.bytes());
    addr::lemma_ipv4_at_bytes(frame, 28, v.sender_ip);
    addr::lemma_ipv4_at_bytes(frame, 38, v.target_ip);
}

/// A neighbour that asks for an address learns it from the answer: the request parses
/// as a request for the address, and the reply to it as sent from that address.
pub proof fn law_request_is_answered(
    asker_mac: [u8; 6],
    asker_ip: Ipv4Addr,
    owner_mac: [u8; 6],
    owner_ip: Ipv4Addr,
)
    ensures
        ({
            let asked = arp_parse(request_frame(asker_mac@, asker_ip, owner_ip));
            let told = arp_parse(reply_frame(owner_mac@, owner_ip, asker_mac@, asker_ip));
            &&& asked == Some(request_view(asker_mac@, asker_ip, owner_ip))
            &&& told == Some(reply_view(owner_mac@, owner_ip, asker_mac@, asker_ip))
            &&& told.unwrap().sender_ip == asked.unwrap().target_ip
            &&& told.unwrap().sender_mac == owner_mac@
        }),
{
    let all = [0xFFu8, 0xFF, 0xFF, 0xFF, 0xFF, 0xFF];
    assert(all@ =~= addr::broadcast_mac());
    law_arp_round_trip(asker_mac, all, request_view(asker_mac@, asker_ip, owner_ip));
    law_arp_round_trip(
        owner_mac,
        asker_mac,
        reply_view(owner_mac@, owner_ip, asker_mac@, asker_ip),
    );
}

/// A learned address is found for five minutes, and other addresses are found as
/// before.
pub proof fn law_learned_is_found(
    before: ArpCache,
    after: ArpCache,
    ip: Ipv4Addr,
    mac: Seq<u8>,
    learned_at: u64,
    now: u64,
)
    requires
        learned(before@, after@, ip, mac, learned_at),
    ensures
        now - learned_at <= 300_000_000_000 ==> (after.find(ip, now) matches Some(m) && m@ == mac),
        now - learned_at > 300_000_000_000 ==> after.find(ip, now) is None,
        forall|other: Ipv4Addr|
            other != ip ==> #[trigger] after.find(other, now) == before.find(other, now),
{
    assert forall|other: Ipv4Addr| other != ip implies #[trigger] after.find(other, now)
        == before.find(other, now) by {
        if cache_key(other) == cache_key(ip) {
            addr::lemma_ipv4_number_injective(other, ip);
        }
    }
}

} // verus!
