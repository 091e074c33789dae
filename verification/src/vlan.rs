//! 802.1Q VLAN tags: per-socket configuration, the tag control word, and where
//! the network-layer header of a tagged or untagged frame starts.

use vstd::prelude::*;

use crate::bytes;
use crate::bytes::{push_bytes, read_be16, slice_of};
use crate::constants::{ETH_HEADER_LEN, ETH_TYPE_VLAN, VLAN_TAG_LEN};

verus! {

/// How a port filters inbound frames and tags outbound ones.
#[derive(Debug, Clone, PartialEq, Eq)]
pub enum VlanMode {
    /// One VLAN: inbound untagged frames and frames tagged with the configured
    /// VID pass, outbound frames are untagged.
    Access,
    /// Many VLANs: inbound frames tagged with an allowed VID pass, untagged ones
    /// pass if there is a native VLAN, outbound frames are tagged.
    Trunk {
        /// VIDs that may pass.
        allowed_vlans: Vec<u16>,
        /// If set, untagged frames pass and count as this VLAN.
        native_vlan: Option<u16>,
    },
    /// Strict: only frames tagged with the configured VID pass, outbound frames
    /// are tagged.
    PortTagging,
}

impl Default for VlanMode {
    fn default() -> (r: Self)
        ensures
            r is PortTagging,
    {
        VlanMode::PortTagging
    }
}

/// VLAN configuration of a socket.
///
/// The tag control word on the wire holds the priority in bits 15-13, the drop
/// eligible indicator in bit 12 and the VLAN identifier in bits 11-0.
#[derive(Debug, Clone, PartialEq, Eq)]
pub struct VlanConfig {
    /// VLAN identifier, 0 to 4094. 0 means priority-only tagging.
    pub vlan_id: u16,
    /// Priority code point, 0 to 7.
    pub priority: u8,
    /// Whether the frame may be dropped under congestion.
    pub dei: bool,
    pub mode: VlanMode,
    /// Insert and strip tags in software even where the NIC could.
    pub force_software: bool,
}

/// The tag control word for a priority, drop indicator and VLAN identifier, of
/// which the low 3 and the low 12 bits are kept.
pub open spec fn tci_word(priority: u8, dei: bool, vlan_id: u16) -> u16 {
    ((priority % 8) * 0x2000 + (if dei {
        0x1000int
    } else {
        0
    }) + vlan_id % 0x1000) as u16
}

/// The VLAN identifier in a tag control word.
pub open spec fn tci_vid(tci: u16) -> u16 {
    tci % 0x1000
}

/// The drop eligible indicator in a tag control word.
pub open spec fn tci_dei(tci: u16) -> bool {
    (tci / 0x1000) % 2 == 1
}

/// The priority in a tag control word.
pub open spec fn tci_priority(tci: u16) -> u8 {
    (tci / 0x2000) as u8
}

/// Whether `xs` holds `x`.
fn contains_vid(xs: &Vec<u16>, x: u16) -> (r: bool)
    ensures
        r == xs@.contains(x),
{
    let mut i: usize = 0;
    while i < xs.len()
        invariant
            i <= xs@.len(),
            forall|j: int| 0 <= j < i ==> xs@[j] != x,
        decreases xs@.len() - i,
    {
        if xs[i] == x {
            assert(xs@[i as int] == x);
            return true;
        }
        i = i + 1;
    }
    false
}

impl VlanConfig {
    /// Which inbound frames pass: `vid` is the VID of the frame, if it has one.
    pub open spec fn accepts(self, vid: Option<u16>) -> bool {
        match self.mode {
            VlanMode::Access => vid is None || vid == Some(self.vlan_id),
            VlanMode::Trunk { allowed_vlans, native_vlan } => match vid {
                Some(v) => allowed_vlans@.contains(v),
                None => native_vlan is Some,
            },
            VlanMode::PortTagging => vid == Some(self.vlan_id),
        }
    }

    /// The tag control word that this configuration puts on the wire.
    pub open spec fn tci(self) -> u16 {
        tci_word(self.priority, self.dei, self.vlan_id)
    }

    /// A configuration for `vlan_id` with priority 0, no drop indicator and
    /// strict tagging.
    pub fn new(vlan_id: u16) -> (r: Self)
        requires
            vlan_id <= 4094,
        ensures
            r.vlan_id == vlan_id,
            r.priority == 0,
            !r.dei,
            r.mode is PortTagging,
            !r.force_software,
    {
        VlanConfig {
            vlan_id,
            priority: 0,
            dei: false,
            mode: VlanMode::default(),
            force_software: false,
        }
    }

    /// Sets the priority code point.
    pub fn with_priority(self, priority: u8) -> (r: Self)
        requires
            priority <= 7,
        ensures
            r == (VlanConfig { priority, ..self }),
    {
        VlanConfig { priority, ..self }
    }

    /// Sets the drop eligible indicator.
    pub fn with_dei(self, dei: bool) -> (r: Self)
        ensures
            r == (VlanConfig { dei, ..self }),
    {
        VlanConfig { dei, ..self }
    }

    /// Sets the operating mode.
    pub fn with_mode(self, mode: VlanMode) -> (r: Self)
        ensures
            r == (VlanConfig { mode, ..self }),
    {
        VlanConfig { mode, ..self }
    }

    /// Configures an access port.
    pub fn access(self) -> (r: Self)
        ensures
            r == (VlanConfig { mode: VlanMode::Access, ..self }),
    {
        VlanConfig { mode: VlanMode::Access, ..self }
    }

    /// Configures a trunk port with the allowed VIDs and an optional native VLAN.
    pub fn trunk(self, allowed_vlans: Vec<u16>, native_vlan: Option<u16>) -> (r: Self)
        ensures
            r == (VlanConfig { mode: VlanMode::Trunk { allowed_vlans, native_vlan }, ..self }),
    {
        VlanConfig { mode: VlanMode::Trunk { allowed_vlans, native_vlan }, ..self }
    }

    /// Configures strict tagging.
    pub fn port_tagging(self) -> (r: Self)
        ensures
            r == (VlanConfig { mode: VlanMode::PortTagging, ..self }),
    {
        VlanConfig { mode: VlanMode::PortTagging, ..self }
    }

    /// Chooses whether tags are handled in software even where the NIC could.
    pub fn with_force_software(self, force: bool) -> (r: Self)
        ensures
            r == (VlanConfig { force_software: force, ..self }),
    {
        VlanConfig { force_software: force, ..self }
    }

    /// Whether outbound frames are tagged.
    pub fn tags_on_tx(&self) -> (r: bool)
        ensures
            r == !(self.mode is Access),
    {
        match self.mode {
            VlanMode::Access => false,
            _ => true,
        }
    }

    /// Whether an inbound frame with VID `frame_vid` (`None` for untagged)
    /// passes.
    pub fn accepts_frame(&self, frame_vid: Option<u16>) -> (r: bool)
        ensures
            r == self.accepts(frame_vid),
    {
        match &self.mode {
            VlanMode::Access => match frame_vid {
                None => true,
                Some(vid) => vid == self.vlan_id,
            },
            VlanMode::Trunk { allowed_vlans, native_vlan } => match frame_vid {
                Some(vid) => contains_vid(allowed_vlans, vid),
                None => native_vlan.is_some(),
            },
            VlanMode::PortTagging => match frame_vid {
                Some(vid) => vid == self.vlan_id,
                None => false,
            },
        }
    }

    /// The tag control word for the wire.
    pub fn encode_tci(&self) -> (r: u16)
        ensures
            r == self.tci(),
    {
        let pcp: u16 = (self.priority % 8) as u16 * 0x2000;
        let dei: u16 = if self.dei {
            0x1000
        } else {
            0
        };
        pcp + dei + self.vlan_id % 0x1000
    }

    /// The configuration, with strict tagging, that a tag control word describes.
    pub fn from_tci(tci: u16) -> (r: Self)
        ensures
            r.vlan_id == tci_vid(tci),
            r.priority == tci_priority(tci),
            r.dei == tci_dei(tci),
            r.mode is PortTagging,
            !r.force_software,
    {
        VlanConfig {
            vlan_id: tci % 0x1000,
            priority: (tci / 0x2000) as u8,
            dei: (tci / 0x1000) % 2 == 1,
            mode: VlanMode::default(),
            force_software: false,
        }
    }
}

/// Decoding the tag control word of a configuration gives back its VLAN
/// identifier, priority and drop indicator.
pub proof fn law_tci_decode_encode(priority: u8, dei: bool, vlan_id: u16)
    requires
        priority <= 7,
        vlan_id <= 0xFFF,
    ensures
        tci_vid(tci_word(priority, dei, vlan_id)) == vlan_id,
        tci_priority(tci_word(priority, dei, vlan_id)) == priority,
        tci_dei(tci_word(priority, dei, vlan_id)) == dei,
{
}

/// Encoding what a tag control word decodes to gives back the word.
pub proof fn law_tci_encode_decode(tci: u16)
    ensures
        tci_word(tci_priority(tci), tci_dei(tci), tci_vid(tci)) == tci,
{
}

/// Where the network-layer header of a frame starts and what it is.
#[derive(Debug, Clone, Copy)]
pub struct FrameLayout {
    /// EtherType of what the frame carries, behind the VLAN tag if it has one.
    pub ethertype: u16,
    /// Offset of the network-layer header.
    pub l3_offset: usize,
    /// Tag control word, if the frame is tagged.
    pub vlan_tci: Option<u16>,
}

/// The layout of a frame, `None` if it is too short to have one.
///
/// A frame whose tag the NIC has stripped is untagged in memory; `hw_vlan_tci`
/// is then the tag control word that the NIC reported.
pub open spec fn layout_of(frame: Seq<u8>, hw_vlan_tci: Option<u16>) -> Option<FrameLayout> {
    if frame.len() < ETH_HEADER_LEN {
        None
    } else if bytes::be16_at(frame, 12) != ETH_TYPE_VLAN {
        Some(
            FrameLayout {
                ethertype: bytes::be16_at(frame, 12),
                l3_offset: ETH_HEADER_LEN,
                vlan_tci: hw_vlan_tci,
            },
        )
    } else if frame.len() < ETH_HEADER_LEN + VLAN_TAG_LEN {
        None
    } else {
        Some(
            FrameLayout {
                ethertype: bytes::be16_at(frame, 16),
                l3_offset: (ETH_HEADER_LEN + VLAN_TAG_LEN) as usize,
                vlan_tci: Some(bytes::be16_at(frame, 14)),
            },
        )
    }
}

impl FrameLayout {
    /// Offset of the network-layer header.
    pub open spec fn l3(self) -> int {
        self.l3_offset as int
    }
}

/// The VLAN identifier of a frame with the given layout.
pub open spec fn layout_vid(layout: FrameLayout) -> Option<u16> {
    match layout.vlan_tci {
        Some(tci) => Some(tci_vid(tci)),
        None => None,
    }
}

/// Finds the network-layer header of a tagged or untagged frame.
pub fn detect_vlan(frame: &[u8], hw_vlan_tci: Option<u16>) -> (r: Option<FrameLayout>)
    ensures
        r == layout_of(frame@, hw_vlan_tci),
{
    if frame.len() < ETH_HEADER_LEN {
        return None;
    }
    let outer_ethertype = read_be16(frame, 12);
    if outer_ethertype == ETH_TYPE_VLAN {
        if frame.len() < ETH_HEADER_LEN + VLAN_TAG_LEN {
            return None;
        }
        Some(
            FrameLayout {
                ethertype: read_be16(frame, 16),
                l3_offset: ETH_HEADER_LEN + VLAN_TAG_LEN,
                vlan_tci: Some(read_be16(frame, 14)),
            },
        )
    } else {
        Some(
            FrameLayout {
                ethertype: outer_ethertype,
                l3_offset: ETH_HEADER_LEN,
                vlan_tci: hw_vlan_tci,
            },
        )
    }
}

/// The VLAN identifier of a frame with the given layout.
pub fn vlan_id_of(layout: &FrameLayout) -> (r: Option<u16>)
    ensures
        r == layout_vid(*layout),
{
    match layout.vlan_tci {
        Some(tci) => Some(tci % 0x1000),
        None => None,
    }
}

/// Whether a frame carries a VLAN tag.
pub open spec fn is_tagged(frame: Seq<u8>) -> bool {
    frame.len() >= ETH_HEADER_LEN + VLAN_TAG_LEN && bytes::be16_at(frame, 12) == ETH_TYPE_VLAN
}

/// A frame with a VLAN tag put in behind the two addresses.
pub open spec fn tagged(frame: Seq<u8>, tci: u16) -> Seq<u8> {
    frame.take(12) + bytes::be16_bytes(ETH_TYPE_VLAN) + bytes::be16_bytes(tci) + frame.skip(12)
}

/// A frame without its VLAN tag, as a NIC that strips tags hands it over.
pub open spec fn untagged(frame: Seq<u8>) -> Seq<u8> {
    if is_tagged(frame) {
        frame.take(12) + frame.skip(12 + VLAN_TAG_LEN)
    } else {
        frame
    }
}

/// Takes the VLAN tag out of a frame.
pub fn strip_tag(frame: &[u8]) -> (r: Vec<u8>)
    ensures
        r@ == untagged(frame@),
{
    let mut plain: Vec<u8> = Vec::new();
    if frame.len() >= ETH_HEADER_LEN + VLAN_TAG_LEN && read_be16(frame, 12) == ETH_TYPE_VLAN {
        push_bytes(&mut plain, slice_of(frame, 0, 12));
        push_bytes(&mut plain, slice_of(frame, 12 + VLAN_TAG_LEN, frame.len()));
    } else {
        push_bytes(&mut plain, frame);
    }
    assert(plain@ =~= untagged(frame@));
    plain
}

/// A tag that is put into an untagged frame is found there, and taking it out gives the frame
/// back.
pub proof fn law_untagged_undoes_tagged(frame: Seq<u8>, tci: u16)
    requires
        frame.len() >= ETH_HEADER_LEN,
        bytes::be16_at(frame, 12) != ETH_TYPE_VLAN,
    ensures
        is_tagged(tagged(frame, tci)),
        untagged(tagged(frame, tci)) == frame,
        layout_of(tagged(frame, tci), None) == Some(
            FrameLayout {
                ethertype: bytes::be16_at(frame, 12),
                l3_offset: (ETH_HEADER_LEN + VLAN_TAG_LEN) as usize,
                vlan_tci: Some(tci),
            },
        ),
{
    let t = tagged(frame, tci);
    bytes::lemma_be16_round_trip(ETH_TYPE_VLAN);
    bytes::lemma_be16_round_trip(tci);
    assert(t[12] == bytes::be16_bytes(ETH_TYPE_VLAN)[0]);
    assert(t[13] == bytes::be16_bytes(ETH_TYPE_VLAN)[1]);
    assert(t[14] == bytes::be16_bytes(tci)[0]);
    assert(t[15] == bytes::be16_bytes(tci)[1]);
    assert(t[16] == frame[12] && t[17] == frame[13]);
    assert(untagged(t) =~= frame);
}

} // verus!
