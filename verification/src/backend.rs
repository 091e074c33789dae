//! The packet backends that a socket can run on: which one to open, how large its
//! buffers are, and what a frame needs before a NIC with offloads sends it.

use vstd::prelude::*;
use vstd::string::StringExecFns;

use crate::bytes;
use crate::bytes::{high_byte, low_byte, read_be16};
use crate::constants::TOTAL_HEADER_LEN;
use crate::error::{ErrorKind, IoError};
use crate::parse;
use crate::parse::{chars_of, split_words};
use crate::text;
use crate::text::{append_decimal, string_of};
use crate::udp;
use crate::udp::udp_pseudo_header_checksum;

verus! {

// ---------------------------------------------------------------------------
// Selection
// ---------------------------------------------------------------------------

/// The kinds of packet backends.
#[derive(Debug, Clone, Copy, PartialEq, Eq, Structural)]
pub enum BackendType {
    /// DPDK.
    Dpdk,
    /// AF_PACKET with memory-mapped rings.
    RawSocketMmap,
    /// AF_PACKET with plain sends and receives.
    RawSocket,
    /// DPDK if it is there, otherwise AF_PACKET.
    Auto,
}

/// Which backend to use, and how.
#[derive(Debug, Clone)]
pub struct BackendConfig {
    pub backend_type: BackendType,
    /// The interface of an AF_PACKET backend.
    pub interface_name: Option<String>,
    pub dpdk_port_id: u16,
    pub use_mmap: bool,
    pub ring_frame_size: usize,
    pub ring_frame_count: usize,
    pub promiscuous: bool,
}

/// Size of a ring frame unless something else is configured.
pub const DEFAULT_RING_FRAME_SIZE: usize = 2048;

/// Frames in a ring unless something else is configured.
pub const DEFAULT_RING_FRAME_COUNT: usize = 256;

impl BackendConfig {
    /// The configuration that callers start from: anything that is there, port 0.
    pub open spec fn is_default(self) -> bool {
        &&& self.backend_type == BackendType::Auto
        &&& self.interface_name is None
        &&& self.dpdk_port_id == 0
        &&& self.use_mmap
        &&& self.ring_frame_size == DEFAULT_RING_FRAME_SIZE
        &&& self.ring_frame_count == DEFAULT_RING_FRAME_COUNT
        &&& !self.promiscuous
    }

    pub fn new() -> (r: Self)
        ensures
            r.is_default(),
    {
        BackendConfig {
            backend_type: BackendType::Auto,
            interface_name: None,
            dpdk_port_id: 0,
            use_mmap: true,
            ring_frame_size: DEFAULT_RING_FRAME_SIZE,
            ring_frame_count: DEFAULT_RING_FRAME_COUNT,
            promiscuous: false,
        }
    }

    /// DPDK on a port.
    pub fn with_dpdk(self, port_id: u16) -> (r: Self)
        ensures
            r == (BackendConfig { backend_type: BackendType::Dpdk, dpdk_port_id: port_id, ..self }),
    {
        BackendConfig { backend_type: BackendType::Dpdk, dpdk_port_id: port_id, ..self }
    }

    /// Plain AF_PACKET on an interface.
    pub fn with_raw_socket(self, interface: &str) -> (r: Self)
        ensures
            r.interface_name matches Some(name) && name@ == interface@,
            r == (BackendConfig {
                backend_type: BackendType::RawSocket,
                interface_name: r.interface_name,
                use_mmap: false,
                ..self
            }),
    {
        let name = String::from_str(interface);
        BackendConfig {
            backend_type: BackendType::RawSocket,
            interface_name: Some(name),
            use_mmap: false,
            ..self
        }
    }

    /// AF_PACKET with memory-mapped rings on an interface.
    pub fn with_raw_socket_mmap(self, interface: &str) -> (r: Self)
        ensures
            r.interface_name matches Some(name) && name@ == interface@,
            r == (BackendConfig {
                backend_type: BackendType::RawSocketMmap,
                interface_name: r.interface_name,
                use_mmap: true,
                ..self
            }),
    {
        let name = String::from_str(interface);
        BackendConfig {
            backend_type: BackendType::RawSocketMmap,
            interface_name: Some(name),
            use_mmap: true,
            ..self
        }
    }

    pub fn with_ring_frame_size(self, size: usize) -> (r: Self)
        ensures
            r == (BackendConfig { ring_frame_size: size, ..self }),
    {
        BackendConfig { ring_frame_size: size, ..self }
    }

    pub fn with_ring_frame_count(self, count: usize) -> (r: Self)
        ensures
            r == (BackendConfig { ring_frame_count: count, ..self }),
    {
        BackendConfig { ring_frame_count: count, ..self }
    }

    pub fn with_promiscuous(self, enable: bool) -> (r: Self)
        ensures
            r == (BackendConfig { promiscuous: enable, ..self }),
    {
        BackendConfig { promiscuous: enable, ..self }
    }
}

impl Default for BackendConfig {
    fn default() -> (r: Self)
        ensures
            r.is_default(),
    {
        BackendConfig::new()
    }
}

/// A backend to open.
#[derive(Debug, Clone)]
pub enum BackendChoice {
    Dpdk { port_id: u16 },
    RawSocketMmap { interface: String, frame_size: usize, frame_count: usize },
    RawSocket { interface: String },
}

/// What a choice says.
pub enum ChoiceView {
    Dpdk { port_id: u16 },
    RawSocketMmap { interface: Seq<char>, frame_size: usize, frame_count: usize },
    RawSocket { interface: Seq<char> },
}

impl View for BackendChoice {
    type V = ChoiceView;

    open spec fn view(&self) -> ChoiceView {
        match *self {
            BackendChoice::Dpdk { port_id } => ChoiceView::Dpdk { port_id },
            BackendChoice::RawSocketMmap {
                interface,
                frame_size,
                frame_count,
            } => ChoiceView::RawSocketMmap { interface: interface@, frame_size, frame_count },
            BackendChoice::RawSocket { interface } => ChoiceView::RawSocket {
                interface: interface@,
            },
        }
    }
}

/// What choices say.
pub open spec fn choice_views(choices: Seq<BackendChoice>) -> Seq<ChoiceView> {
    choices.map_values(|c: BackendChoice| c@)
}

/// The backends to try for a configuration, in this order; `None` if it names an
/// AF_PACKET backend without an interface.
pub open spec fn choices_for(config: BackendConfig) -> Option<Seq<ChoiceView>> {
    let dpdk = ChoiceView::Dpdk { port_id: config.dpdk_port_id };
    match (config.backend_type, config.interface_name) {
        (BackendType::Dpdk, _) => Some(seq![dpdk]),
        (BackendType::RawSocketMmap, Some(name)) => Some(
            seq![
                ChoiceView::RawSocketMmap {
                    interface: name@,
                    frame_size: config.ring_frame_size,
                    frame_count: config.ring_frame_count,
                },
            ],
        ),
        (BackendType::RawSocket, Some(name)) => Some(
            seq![ChoiceView::RawSocket { interface: name@ }],
        ),
        (BackendType::Auto, Some(name)) => Some(
            seq![
                dpdk,
                ChoiceView::RawSocketMmap {
                    interface: name@,
                    frame_size: config.ring_frame_size,
                    frame_count: config.ring_frame_count,
                },
                ChoiceView::RawSocket { interface: name@ },
            ],
        ),
        (BackendType::Auto, None) => Some(seq![dpdk]),
        (_, None) => None,
    }
}

fn mmap_choice(config: &BackendConfig, name: &String) -> (r: BackendChoice)
    ensures
        r@ == (ChoiceView::RawSocketMmap {
            interface: name@,
            frame_size: config.ring_frame_size,
            frame_count: config.ring_frame_count,
        }),
{
    BackendChoice::RawSocketMmap {
        interface: name.clone(),
        frame_size: config.ring_frame_size,
        frame_count: config.ring_frame_count,
    }
}

/// The backends to try for a configuration, in this order. The first that opens is the
/// one to use: `backend_step` leads through them.
pub fn create_backend(config: &BackendConfig) -> (r: Result<Vec<BackendChoice>, IoError>)
    ensures
        match choices_for(*config) {
            Some(choices) => r matches Ok(c) && choice_views(c@) == choices,
            None => r matches Err(e) && e.kind == ErrorKind::InvalidInput && e.message@
                == "Interface name required for raw socket backend"@,
        },
{
    let mut choices: Vec<BackendChoice> = Vec::new();
    if config.backend_type == BackendType::Dpdk || config.backend_type == BackendType::Auto {
        choices.push(BackendChoice::Dpdk { port_id: config.dpdk_port_id });
    }
    match &config.interface_name {
        Some(name) => {
            if config.backend_type == BackendType::RawSocketMmap || config.backend_type
                == BackendType::Auto {
                choices.push(mmap_choice(config, name));
            }
            if config.backend_type == BackendType::RawSocket || config.backend_type
                == BackendType::Auto {
                choices.push(BackendChoice::RawSocket { interface: name.clone() });
            }
        },
        None => {
            if choices.len() == 0 {
                return Err(
                    IoError::new(
                        ErrorKind::InvalidInput,
                        "Interface name required for raw socket backend",
                    ),
                );
            }
        },
    }
    assert(choice_views(choices@) =~= choices_for(*config)->Some_0);
    Ok(choices)
}

/// The error when no backend opened: the error of the one that was asked for, or that
/// there is none if any would have done.
pub fn backend_unavailable(config: &BackendConfig, last: IoError) -> (r: IoError)
    ensures
        is_unavailable(*config, last, r),
{
    if config.backend_type == BackendType::Auto {
        IoError::new(
            ErrorKind::Other,
            "No packet backend available (tried DPDK, AF_PACKET+mmap, AF_PACKET)",
        )
    } else {
        last
    }
}

/// Whether `e` is the error when no backend opened and the last one failed with `last`.
pub open spec fn is_unavailable(config: BackendConfig, last: IoError, e: IoError) -> bool {
    if config.backend_type == BackendType::Auto {
        e.kind == ErrorKind::Other && e.message@
            == "No packet backend available (tried DPDK, AF_PACKET+mmap, AF_PACKET)"@
    } else {
        e == last
    }
}

/// How the search for a backend goes on.
#[derive(Debug, Clone)]
pub enum BackendStep {
    /// The backend with this index among the choices is the one to use.
    Use(usize),
    /// The one with this index is tried next.
    Try(usize),
    /// None could be opened.
    Failed(IoError),
}

/// Whether the search goes on with `step` when the backend at `tried` was opened with
/// `outcome`: one that opened is used, after one that failed the next is tried, and when
/// none is left the search fails.
pub open spec fn goes_on(
    config: BackendConfig,
    tried: int,
    outcome: Result<(), IoError>,
    step: BackendStep,
) -> bool {
    match outcome {
        Ok(_) => step == BackendStep::Use(tried as usize),
        Err(last) => if tried + 1 < choices_for(config)->Some_0.len() {
            step == BackendStep::Try((tried + 1) as usize)
        } else {
            step matches BackendStep::Failed(e) && is_unavailable(config, last, e)
        },
    }
}

/// A step of the search for a backend, after the one with index `tried` among the choices
/// was opened with `outcome`.
pub fn backend_step(config: &BackendConfig, tried: usize, outcome: Result<(), IoError>) -> (r:
    BackendStep)
    requires
        choices_for(*config) matches Some(choices) && tried < choices.len(),
    ensures
        goes_on(*config, tried as int, outcome, r),
{
    match outcome {
        Ok(_) => BackendStep::Use(tried),
        Err(last) => {
            let count: usize = if config.backend_type == BackendType::Auto
                && config.interface_name.is_some() {
                3
            } else {
                1
            };
            if tried + 1 < count {
                BackendStep::Try(tried + 1)
            } else {
                BackendStep::Failed(backend_unavailable(config, last))
            }
        },
    }
}

/// Whether the search ends with `last` when it is at the backend with index `tried` and each
/// backend has the outcome at its index in `outcomes`.
pub open spec fn search_ends(
    config: BackendConfig,
    outcomes: Seq<Result<(), IoError>>,
    tried: int,
    last: BackendStep,
) -> bool
    decreases outcomes.len() - tried,
{
    if tried >= outcomes.len() {
        false
    } else {
        exists|step: BackendStep| #[trigger]
            goes_on(config, tried, outcomes[tried], step) && match step {
                BackendStep::Try(_) => search_ends(config, outcomes, tried + 1, last),
                _ => last == step,
            }
    }
}

// ---------------------------------------------------------------------------
// Starting DPDK
// ---------------------------------------------------------------------------

/// The arguments that DPDK starts with by default: a program name, one core and four
/// memory channels.
pub open spec fn default_eal_args() -> Seq<Seq<char>> {
    seq!["dpdk-app"@, "-l"@, "0"@, "-n"@, "4"@]
}

/// The texts of strings.
pub open spec fn string_views(strings: Seq<String>) -> Seq<Seq<char>> {
    strings.map_values(|s: String| s@)
}

/// The arguments that DPDK starts with: the words of the setting, if there is one.
pub fn eal_args(setting: Option<&str>) -> (r: Vec<String>)
    ensures
        string_views(r@) == match setting {
            Some(text) => parse::words(text@),
            None => default_eal_args(),
        },
{
    let mut args: Vec<String> = Vec::new();
    match setting {
        Some(text) => {
            let words = split_words(&chars_of(text));
            let mut i: usize = 0;
            assert(string_views(args@) =~= parse::texts(words@).take(0));
            while i < words.len()
                invariant
                    i <= words@.len(),
                    string_views(args@) == parse::texts(words@).take(i as int),
                decreases words@.len() - i,
            {
                let ghost before = string_views(args@);
                let word = string_of(&words[i]);
                args.push(word);
                assert(string_views(args@) =~= before.push(word@));
                assert(parse::texts(words@)[i as int] == word@);
                i = i + 1;
                assert(string_views(args@) =~= parse::texts(words@).take(i as int));
            }
            assert(parse::texts(words@).take(words@.len() as int) =~= parse::texts(words@));
        },
        None => {
            args.push(String::from_str("dpdk-app"));
            args.push(String::from_str("-l"));
            args.push(String::from_str("0"));
            args.push(String::from_str("-n"));
            args.push(String::from_str("4"));
            assert(string_views(args@) =~= default_eal_args());
        },
    }
    args
}

// ---------------------------------------------------------------------------
// Buffers
// ---------------------------------------------------------------------------

/// Room that DPDK keeps in front of the data of a buffer.
pub const MBUF_HEADROOM: u16 = 128;

/// Data room of a buffer for jumbo frames.
pub const JUMBO_DATA_ROOM_SIZE: u16 = 9344;

/// Most that the MTU of a port can be, so that the size of its buffers fits 16 bits.
pub const MAX_PORT_MTU: u16 = 65393;

/// The sizes of the buffers and rings of a port.
#[derive(Debug, Clone, Copy, PartialEq, Eq, Structural)]
pub struct PortSizing {
    /// Bytes in a buffer: MTU, Ethernet header and headroom.
    pub data_room_size: u16,
    /// Buffers in the pool.
    pub pool_size: u32,
    /// Descriptors in a ring.
    pub descriptors: u16,
}

/// The sizes of the buffers and rings of a port with an MTU. Jumbo frames get half as
/// many buffers.
pub fn port_sizing(mtu: u16) -> (r: PortSizing)
    requires
        mtu <= MAX_PORT_MTU,
    ensures
        r.data_room_size == mtu + 14 + 128,
        r.pool_size == if mtu > 1500 {
            4096u32
        } else {
            8192u32
        },
        r.descriptors == if mtu > 1500 {
            512u16
        } else {
            1024u16
        },
{
    let jumbo = mtu > 1500;
    PortSizing {
        data_room_size: mtu + 14 + MBUF_HEADROOM,
        pool_size: if jumbo {
            4096
        } else {
            8192
        },
        descriptors: if jumbo {
            512
        } else {
            1024
        },
    }
}

/// Checks that a frame of `len` bytes fits a buffer of `buf_len` bytes whose data
/// starts at `data_offset`.
pub fn check_frame_fits(len: usize, buf_len: usize, data_offset: usize) -> (r: Result<(), IoError>)
    requires
        data_offset <= buf_len,
    ensures
        r is Ok <==> len <= buf_len - data_offset,
        r matches Err(e) ==> e.kind == ErrorKind::InvalidInput && e.message@
            == "Frame too large for mbuf: "@ + text::decimal(len as nat) + " bytes needed, "@
            + text::decimal((buf_len - data_offset) as nat) + " available"@,
{
    let room = buf_len - data_offset;
    if room < len {
        let mut message = String::from_str("Frame too large for mbuf: ");
        append_decimal(&mut message, len as u64);
        message.append(" bytes needed, ");
        append_decimal(&mut message, room as u64);
        message.append(" available");
        return Err(IoError { kind: ErrorKind::InvalidInput, message });
    }
    Ok(())
}

// ---------------------------------------------------------------------------
// Offloads
// ---------------------------------------------------------------------------

/// What a NIC does for sent frames.
#[derive(Debug, Clone, Copy, PartialEq, Eq, Structural)]
pub struct HwTxOffload {
    pub ipv4_cksum: bool,
    pub udp_cksum: bool,
    pub vlan_insert: bool,
}

/// What a NIC does for received frames.
#[derive(Debug, Clone, Copy, PartialEq, Eq, Structural)]
pub struct HwRxOffload {
    pub ipv4_cksum: bool,
    pub udp_cksum: bool,
    pub vlan_strip: bool,
}

/// What the NIC is told about a frame.
#[derive(Debug, Clone, Copy, PartialEq, Eq, Structural)]
pub struct TxMetadata {
    /// Tag control word to insert.
    pub vlan_tci: Option<u16>,
    /// Compute the checksum of the IPv4 header.
    pub ip_cksum: bool,
    /// Compute the UDP checksum.
    pub udp_cksum: bool,
}

/// What the NIC is told about a frame of `len` bytes: the tag, if it inserts tags, and
/// the checksums that it computes, if the frame has the headers.
pub open spec fn tx_metadata(len: nat, offload: HwTxOffload, hw_vlan_tci: Option<u16>) -> TxMetadata {
    TxMetadata {
        vlan_tci: if offload.vlan_insert {
            hw_vlan_tci
        } else {
            None
        },
        ip_cksum: offload.ipv4_cksum && len >= TOTAL_HEADER_LEN,
        udp_cksum: offload.udp_cksum && len >= TOTAL_HEADER_LEN,
    }
}

/// The checksum of the IPv4 pseudo-header of an untagged frame.
pub open spec fn frame_pseudo_cksum(frame: Seq<u8>) -> u16 {
    udp::pseudo_cksum(
        frame.subrange(26, 30),
        frame.subrange(30, 34),
        bytes::be16_at(frame, 38),
    )
}

/// The frame that is handed to the NIC: a checksum field that the NIC fills holds zero
/// for IPv4 and the sum of the pseudo-header for UDP.
pub open spec fn offloaded(frame: Seq<u8>, meta: TxMetadata) -> Seq<u8> {
    let ip = if meta.ip_cksum {
        frame.update(24, 0u8).update(25, 0u8)
    } else {
        frame
    };
    if meta.udp_cksum {
        ip.update(40, bytes::be16_bytes(frame_pseudo_cksum(frame))[0]).update(
            41,
            bytes::be16_bytes(frame_pseudo_cksum(frame))[1],
        )
    } else {
        ip
    }
}

/// Prepares an untagged frame for a NIC with offloads.
pub fn prepare_tx(frame: &mut Vec<u8>, offload: &HwTxOffload, hw_vlan_tci: Option<u16>) -> (r: TxMetadata)
    ensures
        r == tx_metadata(old(frame)@.len(), *offload, hw_vlan_tci),
        final(frame)@ == offloaded(old(frame)@, r),
        final(frame)@.len() == old(frame)@.len(),
{
    let vlan_tci = if offload.vlan_insert {
        hw_vlan_tci
    } else {
        None
    };
    let whole = frame.len() >= TOTAL_HEADER_LEN;
    let meta = TxMetadata {
        vlan_tci,
        ip_cksum: offload.ipv4_cksum && whole,
        udp_cksum: offload.udp_cksum && whole,
    };
    let ghost before = frame@;
    if meta.ip_cksum {
        frame.set(24, 0);
        frame.set(25, 0);
    }
    if meta.udp_cksum {
        let src: [u8; 4] = [frame[26], frame[27], frame[28], frame[29]];
        let dst: [u8; 4] = [frame[30], frame[31], frame[32], frame[33]];
        let udp_len = read_be16(frame.as_slice(), 38);
        proof {
            assert(src@ =~= before.subrange(26, 30));
            assert(dst@ =~= before.subrange(30, 34));
            assert(udp_len == bytes::be16_at(before, 38));
        }
        let cksum = udp_pseudo_header_checksum(&src, &dst, udp_len);
        frame.set(40, high_byte(cksum));
        frame.set(41, low_byte(cksum));
    }
    assert(frame@ =~= offloaded(before, meta));
    meta
}

// ---------------------------------------------------------------------------
// Laws
// ---------------------------------------------------------------------------

/// Preparing a frame touches the two checksum fields and nothing else.
pub proof fn law_offload_touches_checksums_only(frame: Seq<u8>, meta: TxMetadata, i: int)
    requires
        frame.len() >= TOTAL_HEADER_LEN,
        0 <= i < frame.len(),
        i != 24 && i != 25 && i != 40 && i != 41,
    ensures
        offloaded(frame, meta)[i] == frame[i],
        offloaded(frame, meta).len() == frame.len(),
{
}

/// The first choice of an automatic configuration is DPDK, and a configuration that
/// names a backend gets that one or none.
pub proof fn law_choices(config: BackendConfig)
    ensures
        config.backend_type == BackendType::Auto ==> choices_for(config) is Some && choices_for(
            config,
        ).unwrap()[0] == (ChoiceView::Dpdk { port_id: config.dpdk_port_id }),
        config.backend_type != BackendType::Auto && choices_for(config) is Some ==> choices_for(
            config,
        ).unwrap().len() == 1,
{
}

/// How a search ends that has come to the backend with index `tried`.
proof fn lemma_search_from(
    config: BackendConfig,
    outcomes: Seq<Result<(), IoError>>,
    tried: int,
    last: BackendStep,
)
    requires
        choices_for(config) matches Some(choices) && outcomes.len() == choices.len(),
        0 <= tried < outcomes.len(),
        search_ends(config, outcomes, tried, last),
    ensures
        match last {
            BackendStep::Use(i) => {
                &&& tried <= i < outcomes.len()
                &&& outcomes[i as int] is Ok
                &&& forall|j: int| tried <= j < i ==> outcomes[j] is Err
            },
            BackendStep::Try(_) => false,
            BackendStep::Failed(e) => {
                &&& forall|j: int| tried <= j < outcomes.len() ==> outcomes[j] is Err
                &&& is_unavailable(config, outcomes.last()->Err_0, e)
            },
        },
    decreases outcomes.len() - tried,
{
    let step = choose|step: BackendStep| #[trigger]
        goes_on(config, tried, outcomes[tried], step) && match step {
            BackendStep::Try(_) => search_ends(config, outcomes, tried + 1, last),
            _ => last == step,
        };
    if let BackendStep::Try(_) = step {
        lemma_search_from(config, outcomes, tried + 1, last);
    }
}

/// A search finds a backend that opens behind some that do not.
proof fn lemma_search_finds(
    config: BackendConfig,
    outcomes: Seq<Result<(), IoError>>,
    tried: int,
    i: usize,
)
    requires
        choices_for(config) matches Some(choices) && outcomes.len() == choices.len(),
        0 <= tried <= i < outcomes.len(),
        outcomes[i as int] is Ok,
        forall|j: int| tried <= j < i ==> outcomes[j] is Err,
    ensures
        search_ends(config, outcomes, tried, BackendStep::Use(i)),
    decreases i - tried,
{
    if tried == i {
        assert(goes_on(config, tried, outcomes[tried], BackendStep::Use(i)));
    } else {
        lemma_search_finds(config, outcomes, tried + 1, i);
        assert(goes_on(config, tried, outcomes[tried], BackendStep::Try((tried + 1) as usize)));
    }
}

/// A search fails when no backend opens.
proof fn lemma_search_fails(
    config: BackendConfig,
    outcomes: Seq<Result<(), IoError>>,
    tried: int,
    e: IoError,
)
    requires
        choices_for(config) matches Some(choices) && outcomes.len() == choices.len(),
        0 <= tried < outcomes.len(),
        forall|j: int| tried <= j < outcomes.len() ==> outcomes[j] is Err,
        is_unavailable(config, outcomes.last()->Err_0, e),
    ensures
        search_ends(config, outcomes, tried, BackendStep::Failed(e)),
    decreases outcomes.len() - tried,
{
    if tried + 1 == outcomes.len() {
        assert(goes_on(config, tried, outcomes[tried], BackendStep::Failed(e)));
    } else {
        lemma_search_fails(config, outcomes, tried + 1, e);
        assert(goes_on(config, tried, outcomes[tried], BackendStep::Try((tried + 1) as usize)));
    }
}

/// The first backend that opens is used. A search that starts with the first choice ends with
/// the first one that opens, if there is one, and otherwise fails, with the error of the one
/// that was asked for or with that there is none.
pub proof fn law_first_that_opens_is_used(
    config: BackendConfig,
    outcomes: Seq<Result<(), IoError>>,
    last: BackendStep,
)
    requires
        choices_for(config) matches Some(choices) && outcomes.len() == choices.len(),
    ensures
        search_ends(config, outcomes, 0, last) ==> match last {
            BackendStep::Use(i) => {
                &&& i < outcomes.len()
                &&& outcomes[i as int] is Ok
                &&& forall|j: int| 0 <= j < i ==> outcomes[j] is Err
            },
            BackendStep::Try(_) => false,
            BackendStep::Failed(e) => {
                &&& forall|j: int| 0 <= j < outcomes.len() ==> outcomes[j] is Err
                &&& is_unavailable(config, outcomes.last()->Err_0, e)
            },
        },
        forall|i: usize|
            i < outcomes.len() && (#[trigger] outcomes[i as int]) is Ok && (forall|j: int|
                0 <= j < i ==> outcomes[j] is Err) ==> search_ends(
                config,
                outcomes,
                0,
                BackendStep::Use(i),
            ),
        (forall|j: int| 0 <= j < outcomes.len() ==> outcomes[j] is Err) ==> forall|e: IoError|
            is_unavailable(config, outcomes.last()->Err_0, e) ==> #[trigger] search_ends(
                config,
                outcomes,
                0,
                BackendStep::Failed(e),
            ),
{
    if search_ends(config, outcomes, 0, last) {
        lemma_search_from(config, outcomes, 0, last);
    }
    assert forall|i: usize|
        i < outcomes.len() && (#[trigger] outcomes[i as int]) is Ok && (forall|j: int|
            0 <= j < i ==> outcomes[j] is Err) implies search_ends(
        config,
        outcomes,
        0,
        BackendStep::Use(i),
    ) by {
        lemma_search_finds(config, outcomes, 0, i);
    }
    if forall|j: int| 0 <= j < outcomes.len() ==> outcomes[j] is Err {
        assert forall|e: IoError|
            is_unavailable(config, outcomes.last()->Err_0, e) implies #[trigger] search_ends(
            config,
            outcomes,
            0,
            BackendStep::Failed(e),
        ) by {
            lemma_search_fails(config, outcomes, 0, e);
        }
    }
}

} // verus!
