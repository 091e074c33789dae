//! Choice and sizing of backends.

use dpdk_udp::backend::{BackendConfig, BackendType};

#[test]
fn test_backend_config_default() {
    let config = BackendConfig::default();
    assert_eq!(config.backend_type, BackendType::Auto);
    assert!(config.interface_name.is_none());
    assert_eq!(config.dpdk_port_id, 0);
    assert!(config.use_mmap);
}

#[test]
fn test_backend_config_dpdk() {
    let config = BackendConfig::new().with_dpdk(1);
    assert_eq!(config.backend_type, BackendType::Dpdk);
    assert_eq!(config.dpdk_port_id, 1);
}

#[test]
fn test_backend_config_raw_socket() {
    let config = BackendConfig::new().with_raw_socket("eth0");
    assert_eq!(config.backend_type, BackendType::RawSocket);
    assert_eq!(config.interface_name.as_deref(), Some("eth0"));
    assert!(!config.use_mmap);
}

#[test]
fn test_backend_config_raw_socket_mmap() {
    let config = BackendConfig::new().with_raw_socket_mmap("ens5");
    assert_eq!(config.backend_type, BackendType::RawSocketMmap);
    assert_eq!(config.interface_name.as_deref(), Some("ens5"));
    assert!(config.use_mmap);
}

#[test]
fn test_backend_config_builder_chain() {
    let config = BackendConfig::new()
        .with_raw_socket_mmap("eth0")
        .with_ring_frame_size(4096)
        .with_ring_frame_count(512)
        .with_promiscuous(true);
    assert_eq!(config.ring_frame_size, 4096);
    assert_eq!(config.ring_frame_count, 512);
    assert!(config.promiscuous);
}

#[test]
fn test_backend_type_equality() {
    assert_eq!(BackendType::Dpdk, BackendType::Dpdk);
    assert_eq!(BackendType::RawSocket, BackendType::RawSocket);
    assert_eq!(BackendType::RawSocketMmap, BackendType::RawSocketMmap);
    assert_eq!(BackendType::Auto, BackendType::Auto);
    assert_ne!(BackendType::Dpdk, BackendType::RawSocket);
}
