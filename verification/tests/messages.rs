//! Error messages, checksums with known values, and responses of synthetic sockets.

use dpdk_udp::addr::{Ipv4Addr, Ipv6Addr, MacAddress};
use dpdk_udp::error::UdpError;
use dpdk_udp::synthetic::{SyntheticUdpSocket, UdpHandler};
use dpdk_udp::text::{append_ipv4, append_ipv6};
use dpdk_udp::udp::{
    build_udp_frame, build_udp_packet, ipv4_checksum, parse_udp_from_mbuf, parse_udp_packet,
    udp_checksum, verify_ipv4_checksum, verify_udp_checksum,
};

#[test]
fn errors_have_messages() {
    let messages = [
        (UdpError::InvalidPacket, "Invalid packet format"),
        (UdpError::ChecksumMismatch, "Checksum mismatch"),
        (
            UdpError::PacketTooShort { expected: 42, actual: 10 },
            "Packet too short: expected at least 42, got 10",
        ),
        (
            UdpError::PayloadTooLarge { max: 1472, actual: 1473 },
            "Payload too large: max 1472, got 1473",
        ),
        (UdpError::PortNotStarted, "Port not started"),
        (UdpError::NotConnected, "No destination address (socket not connected)"),
        (UdpError::Ipv6NotSupported, "IPv6 not supported"),
    ];
    for (error, message) in messages {
        assert_eq!(error.message(), message);
    }
}

fn ipv6_text(segments: [u16; 8]) -> String {
    let [a, b, c, d, e, f, g, h] = segments;
    let mut text = String::new();
    append_ipv6(&mut text, &Ipv6Addr::new(a, b, c, d, e, f, g, h));
    text
}

#[test]
fn addresses_are_written_as_usual() {
    let mut text = String::new();
    append_ipv4(&mut text, &Ipv4Addr::new(192, 168, 0, 10));
    assert_eq!(text, "192.168.0.10");
    assert_eq!(ipv6_text([0; 8]), "::");
    assert_eq!(ipv6_text([0, 0, 0, 0, 0, 0, 0, 1]), "::1");
    assert_eq!(ipv6_text([0xfe80, 0, 0, 0, 0x12, 0, 0, 1]), "fe80::12:0:0:1");
    assert_eq!(ipv6_text([1, 0, 2, 0, 0, 3, 0, 0]), "1:0:2::3:0:0");
    assert_eq!(ipv6_text([1, 2, 3, 4, 5, 6, 7, 0]), "1:2:3:4:5:6:7:0");
    assert_eq!(ipv6_text([0, 0, 0, 0, 0, 0xffff, 0x0102, 0x0304]), "::ffff:1.2.3.4");
}

#[test]
fn checksums_have_known_values() {
    let header = [
        0x45, 0x00, 0x00, 0x73, 0x00, 0x00, 0x40, 0x00, 0x40, 0x11, 0x00, 0x00, 0xc0, 0xa8, 0x00,
        0x01, 0xc0, 0xa8, 0x00, 0xc7,
    ];
    assert_eq!(ipv4_checksum(&header), 0xb861);
    assert_eq!(ipv4_checksum(&[]), 0xffff);
    assert_eq!(ipv4_checksum(&[0x12]), !0x1200);
    let udp = [0x30, 0x39, 0x23, 0x28, 0x00, 0x0c, 0xde, 0xad];
    assert_eq!(udp_checksum(&[192, 168, 1, 1], &[192, 168, 1, 2], &udp, b"test"), 0x4147);
}

#[test]
fn packet_is_written_into_a_buffer() {
    let (src, dst) = (MacAddress::new([1; 6]), MacAddress::new([2; 6]));
    let (src_ip, dst_ip) = (Ipv4Addr::new(10, 0, 0, 1), Ipv4Addr::new(10, 0, 0, 2));
    let expected = build_udp_frame(&[1; 6], &[2; 6], src_ip, dst_ip, 1, 2, b"abc", 64).unwrap();
    let mut data = [0xAAu8; 50];
    let len = build_udp_packet(Some(&mut data), &src, &dst, src_ip, dst_ip, 1, 2, b"abc", 64);
    assert_eq!(len, Ok(45));
    assert_eq!(&data[..45], &expected[..]);
    assert_eq!(&data[45..], &[0xAA; 5]);
    assert_eq!(parse_udp_from_mbuf(Some(&data)).unwrap().payload, b"abc");
    assert!(parse_udp_from_mbuf(None).is_none());
}

#[test]
fn packet_buffer_may_be_too_small() {
    let mac = MacAddress::new([1; 6]);
    let ip = Ipv4Addr::new(10, 0, 0, 1);
    let mut data = [0u8; 44];
    let err = build_udp_packet(Some(&mut data), &mac, &mac, ip, ip, 1, 2, b"abc", 64);
    assert_eq!(err, Err(UdpError::PayloadTooLarge { max: 2, actual: 3 }));
    assert_eq!(data, [0; 44]);
    let err = build_udp_packet(None, &mac, &mac, ip, ip, 1, 2, b"abc", 64);
    assert_eq!(err, Err(UdpError::InvalidPacket));
    let err = build_udp_packet(None, &mac, &mac, ip, ip, 1, 2, &[0; 8974], 64);
    assert_eq!(err, Err(UdpError::PayloadTooLarge { max: 8973, actual: 8974 }));
}

struct Loud;

impl UdpHandler for Loud {
    fn on_packet(
        &self,
        _src_ip: [u8; 4],
        _src_port: u16,
        _dst_ip: [u8; 4],
        _dst_port: u16,
        payload: &[u8],
    ) -> Option<Vec<u8>> {
        if payload.is_empty() {
            None
        } else {
            Some(payload.to_ascii_uppercase())
        }
    }
}

fn request(dst_port: u16, payload: &[u8]) -> Vec<u8> {
    let (src_ip, dst_ip) = (Ipv4Addr::new(10, 0, 0, 1), Ipv4Addr::new(192, 168, 1, 1));
    build_udp_frame(&[1; 6], &[2; 6], src_ip, dst_ip, 12345, dst_port, payload, 64).unwrap()
}

#[test]
fn response_goes_back_to_the_sender() {
    let socket = SyntheticUdpSocket::new([192, 168, 1, 1], 9000, Box::new(Loud));
    let reply = socket.parse_and_handle(&request(9000, b"hello")).unwrap().unwrap();
    assert!(verify_ipv4_checksum(&reply) && verify_udp_checksum(&reply));
    let parsed = parse_udp_packet(&reply).unwrap();
    assert_eq!((parsed.src_mac, parsed.dst_mac), ([2; 6], [1; 6]));
    assert_eq!(parsed.src_ip, Ipv4Addr::new(192, 168, 1, 1));
    assert_eq!(parsed.dst_ip, Ipv4Addr::new(10, 0, 0, 1));
    assert_eq!((parsed.src_port, parsed.dst_port), (9000, 12345));
    assert_eq!(parsed.payload, b"HELLO");
}

#[test]
fn handler_may_be_a_trait_object() {
    let handler: Box<dyn UdpHandler> = Box::new(Loud);
    let socket = SyntheticUdpSocket::new([192, 168, 1, 1], 9000, handler);
    let reply = socket.parse_and_handle(&request(9000, b"hello")).unwrap().unwrap();
    assert_eq!(&reply[42..], b"HELLO");
}

#[test]
fn handler_and_address_decide_about_a_response() {
    let socket = SyntheticUdpSocket::new([192, 168, 1, 1], 9000, Box::new(Loud));
    assert_eq!(socket.parse_and_handle(&request(9000, b"")), Ok(None));
    assert_eq!(socket.parse_and_handle(&request(9001, b"hello")), Ok(None));
    let other = SyntheticUdpSocket::new([192, 168, 1, 2], 9000, Box::new(Loud));
    assert_eq!(other.parse_and_handle(&request(9000, b"hello")), Ok(None));
    let mut tcp = request(9000, b"hello");
    tcp[23] = 6;
    assert_eq!(socket.parse_and_handle(&tcp), Ok(None));
    assert_eq!(
        socket.parse_and_handle(&[0; 41]),
        Err(UdpError::PacketTooShort { expected: 42, actual: 41 })
    );
}
