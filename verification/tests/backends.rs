//! Which backends are tried, and how frames are handed to a NIC.

use dpdk_udp::addr::Ipv4Addr;
use dpdk_udp::backend::{
    backend_step, backend_unavailable, check_frame_fits, create_backend, eal_args, port_sizing,
    prepare_tx, BackendChoice, BackendConfig, BackendStep, HwTxOffload, TxMetadata,
};
use dpdk_udp::error::{ErrorKind, IoError};
use dpdk_udp::udp::{build_udp_frame, udp_pseudo_header_checksum};

fn names(config: &BackendConfig) -> Vec<String> {
    let choices = create_backend(config).unwrap();
    choices.iter().map(|choice| format!("{:?}", choice)).collect()
}

#[test]
fn automatic_choice_falls_back() {
    let mut config = BackendConfig::new();
    assert_eq!(names(&config), vec!["Dpdk { port_id: 0 }"]);
    config.interface_name = Some(String::from("eth0"));
    let choices = create_backend(&config).unwrap();
    assert_eq!(choices.len(), 3);
    assert!(matches!(choices[0], BackendChoice::Dpdk { port_id: 0 }));
    match &choices[1] {
        BackendChoice::RawSocketMmap { interface, frame_size, frame_count } => {
            assert_eq!(interface, "eth0");
            assert_eq!(*frame_size, config.ring_frame_size);
            assert_eq!(*frame_count, config.ring_frame_count);
        }
        other => panic!("unexpected {:?}", other),
    }
    match &choices[2] {
        BackendChoice::RawSocket { interface } => assert_eq!(interface, "eth0"),
        other => panic!("unexpected {:?}", other),
    }
}

#[test]
fn named_backend_is_the_only_choice() {
    assert_eq!(names(&BackendConfig::new().with_dpdk(3)), vec!["Dpdk { port_id: 3 }"]);
    let raw = names(&BackendConfig::new().with_raw_socket("ens5"));
    assert_eq!(raw, vec!["RawSocket { interface: \"ens5\" }"]);
    let mmap = BackendConfig::new().with_raw_socket_mmap("ens5").with_ring_frame_size(4096);
    assert_eq!(create_backend(&mmap).unwrap().len(), 1);
}

#[test]
fn raw_socket_needs_an_interface() {
    for mut config in [
        BackendConfig::new().with_raw_socket("x"),
        BackendConfig::new().with_raw_socket_mmap("x"),
    ] {
        config.interface_name = None;
        let err = create_backend(&config).unwrap_err();
        assert_eq!(err.kind(), ErrorKind::InvalidInput);
        assert_eq!(err.message, "Interface name required for raw socket backend");
    }
}

/// The index of the backend that is used when the backends open as `opens` says, or the
/// error.
fn search(config: &BackendConfig, opens: &[bool]) -> Result<usize, IoError> {
    assert_eq!(create_backend(config).unwrap().len(), opens.len());
    let mut tried = 0;
    loop {
        let outcome = if opens[tried] {
            Ok(())
        } else {
            Err(IoError::new(ErrorKind::PermissionDenied, "no access"))
        };
        match backend_step(config, tried, outcome) {
            BackendStep::Use(index) => return Ok(index),
            BackendStep::Try(next) => tried = next,
            BackendStep::Failed(error) => return Err(error),
        }
    }
}

#[test]
fn first_backend_that_opens_is_used() {
    let auto = BackendConfig { interface_name: Some("eth0".into()), ..BackendConfig::new() };
    assert_eq!(search(&auto, &[true, true, true]), Ok(0));
    assert_eq!(search(&auto, &[true, false, false]), Ok(0));
    assert_eq!(search(&auto, &[false, true, true]), Ok(1));
    assert_eq!(search(&auto, &[false, false, true]), Ok(2));
    assert_eq!(search(&auto, &[false; 3]).unwrap_err().kind(), ErrorKind::Other);
    let nameless = BackendConfig::new();
    assert_eq!(search(&nameless, &[true]), Ok(0));
    assert_eq!(search(&nameless, &[false]).unwrap_err().kind(), ErrorKind::Other);
    for config in [
        BackendConfig::new().with_dpdk(1),
        BackendConfig::new().with_raw_socket("eth0"),
        BackendConfig::new().with_raw_socket_mmap("eth0"),
    ] {
        assert_eq!(search(&config, &[true]), Ok(0));
        let error = search(&config, &[false]).unwrap_err();
        assert_eq!(error, IoError::new(ErrorKind::PermissionDenied, "no access"));
    }
}

#[test]
fn error_tells_what_was_tried() {
    let last = IoError::new(ErrorKind::PermissionDenied, "no access");
    let named = backend_unavailable(&BackendConfig::new().with_raw_socket("x"), last.clone());
    assert_eq!(named, last);
    let any = backend_unavailable(&BackendConfig::new(), last);
    assert_eq!(any.kind(), ErrorKind::Other);
    assert_eq!(
        any.message,
        "No packet backend available (tried DPDK, AF_PACKET+mmap, AF_PACKET)"
    );
}

#[test]
fn dpdk_arguments_have_a_default() {
    assert_eq!(eal_args(None), vec!["dpdk-app", "-l", "0", "-n", "4"]);
    assert_eq!(eal_args(Some("  app -l 0-3\t--no-huge ")), vec!["app", "-l", "0-3", "--no-huge"]);
    assert!(eal_args(Some(" ")).is_empty());
}

#[test]
fn port_is_sized_by_its_mtu() {
    let standard = port_sizing(1500);
    assert_eq!((standard.data_room_size, standard.pool_size, standard.descriptors), (1642, 8192, 1024));
    let jumbo = port_sizing(9001);
    assert_eq!((jumbo.data_room_size, jumbo.pool_size, jumbo.descriptors), (9143, 4096, 512));
}

#[test]
fn frame_must_fit_its_buffer() {
    assert!(check_frame_fits(1500, 1628, 128).is_ok());
    let err = check_frame_fits(1501, 1628, 128).unwrap_err();
    assert_eq!(err.kind(), ErrorKind::InvalidInput);
    assert_eq!(err.message, "Frame too large for mbuf: 1501 bytes needed, 1500 available");
}

fn frame() -> Vec<u8> {
    build_udp_frame(
        &[0x02; 6],
        &[0x04; 6],
        Ipv4Addr::new(192, 168, 1, 1),
        Ipv4Addr::new(192, 168, 1, 2),
        12345,
        9000,
        b"test",
        64,
    )
    .unwrap()
}

#[test]
fn nothing_is_offloaded_by_default() {
    let offload = HwTxOffload { ipv4_cksum: false, udp_cksum: false, vlan_insert: false };
    let mut sent = frame();
    let meta = prepare_tx(&mut sent, &offload, Some(100));
    assert_eq!(meta, TxMetadata { vlan_tci: None, ip_cksum: false, udp_cksum: false });
    assert_eq!(sent, frame());
}

#[test]
fn offloaded_checksums_are_prepared() {
    let offload = HwTxOffload { ipv4_cksum: true, udp_cksum: true, vlan_insert: true };
    let mut sent = frame();
    let meta = prepare_tx(&mut sent, &offload, Some(100));
    assert_eq!(meta, TxMetadata { vlan_tci: Some(100), ip_cksum: true, udp_cksum: true });
    assert_eq!(&sent[24..26], &[0, 0]);
    let pseudo = udp_pseudo_header_checksum(&[192, 168, 1, 1], &[192, 168, 1, 2], 12);
    assert_eq!(pseudo, 0x8371);
    assert_eq!(&sent[40..42], &[0x83, 0x71]);
    let mut restored = sent.clone();
    restored[24..26].copy_from_slice(&frame()[24..26]);
    restored[40..42].copy_from_slice(&frame()[40..42]);
    assert_eq!(restored, frame());
}

#[test]
fn short_frame_is_not_offloaded() {
    let offload = HwTxOffload { ipv4_cksum: true, udp_cksum: true, vlan_insert: true };
    let mut sent = vec![1u8; 41];
    let meta = prepare_tx(&mut sent, &offload, None);
    assert_eq!(meta, TxMetadata { vlan_tci: None, ip_cksum: false, udp_cksum: false });
    assert_eq!(sent, vec![1u8; 41]);
}
