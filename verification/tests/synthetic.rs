//! Sockets whose packets are answered by a handler.

use dpdk_udp::constants::{
    ETH_HEADER_LEN, ETH_TYPE_IPV4, IPV4_HEADER_LEN, IP_PROTO_UDP, TOTAL_HEADER_LEN,
};
use dpdk_udp::synthetic::{SyntheticUdpSocket, UdpHandler};

struct EchoHandler;
impl UdpHandler for EchoHandler {
    fn on_packet(&self, _src_ip: [u8; 4], _src_port: u16, _dst_ip: [u8; 4], _dst_port: u16, payload: &[u8]) -> Option<Vec<u8>> {
        Some(payload.to_vec())
    }
}

#[test]
fn test_synthetic_socket_echo() {
    let socket = SyntheticUdpSocket::new([192, 168, 1, 1], 9000, Box::new(EchoHandler));

    // Build a test packet
    let mut frame = vec![0u8; TOTAL_HEADER_LEN + 4];

    // Ethernet
    frame[0..6].copy_from_slice(&[0x11, 0x22, 0x33, 0x44, 0x55, 0x66]); // dst mac
    frame[6..12].copy_from_slice(&[0xaa, 0xbb, 0xcc, 0xdd, 0xee, 0xff]); // src mac
    frame[12..14].copy_from_slice(&ETH_TYPE_IPV4.to_be_bytes());

    // IP header
    let ip_start = ETH_HEADER_LEN;
    frame[ip_start] = 0x45;
    frame[ip_start + 2..ip_start + 4].copy_from_slice(&32u16.to_be_bytes()); // total len
    frame[ip_start + 8] = 64; // TTL
    frame[ip_start + 9] = IP_PROTO_UDP;
    frame[ip_start + 12..ip_start + 16].copy_from_slice(&[10, 0, 0, 1]); // src ip
    frame[ip_start + 16..ip_start + 20].copy_from_slice(&[192, 168, 1, 1]); // dst ip

    // UDP header
    let udp_start = ETH_HEADER_LEN + IPV4_HEADER_LEN;
    frame[udp_start..udp_start + 2].copy_from_slice(&12345u16.to_be_bytes()); // src port
    frame[udp_start + 2..udp_start + 4].copy_from_slice(&9000u16.to_be_bytes()); // dst port
    frame[udp_start + 4..udp_start + 6].copy_from_slice(&12u16.to_be_bytes()); // length

    // Payload
    frame[TOTAL_HEADER_LEN..].copy_from_slice(b"test");

    let result = socket.parse_and_handle(&frame);
    assert!(result.is_ok());
    let response = result.unwrap();
    assert!(response.is_some());

    let resp_frame = response.unwrap();
    assert_eq!(&resp_frame[TOTAL_HEADER_LEN..], b"test");
}
