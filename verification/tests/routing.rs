//! Next hops and the MTU.

use dpdk_udp::addr::Ipv4Addr;
use dpdk_udp::routing::{NetworkConfig, NextHop, RoutingTable};

fn gateway() -> Ipv4Addr {
    Ipv4Addr::new(10, 0, 1, 1)
}

fn table(prefix_len: u8) -> RoutingTable {
    let config = NetworkConfig::new(Ipv4Addr::new(10, 0, 1, 10), prefix_len);
    RoutingTable::with_config(config.with_gateway(gateway()))
}

#[test]
fn same_subnet_is_direct() {
    let table = table(24);
    let near = Ipv4Addr::new(10, 0, 1, 255);
    assert_eq!(table.lookup(near), NextHop::Direct(near));
    assert_eq!(table.lookup(near).ip(), near);
}

#[test]
fn other_subnet_goes_to_the_gateway() {
    let table = table(24);
    let far = Ipv4Addr::new(10, 0, 2, 0);
    assert_eq!(table.lookup(far), NextHop::Gateway(gateway()));
    assert_eq!(table.lookup(far).ip(), gateway());
}

#[test]
fn prefix_decides_what_is_near() {
    let far = Ipv4Addr::new(192, 168, 0, 1);
    assert_eq!(table(0).lookup(far), NextHop::Direct(far));
    let own = Ipv4Addr::new(10, 0, 1, 10);
    assert_eq!(table(32).lookup(own), NextHop::Direct(own));
    let next = Ipv4Addr::new(10, 0, 1, 11);
    assert_eq!(table(32).lookup(next), NextHop::Gateway(gateway()));
    assert_eq!(table(31).lookup(next), NextHop::Direct(next));
}

#[test]
fn without_a_gateway_all_is_direct() {
    let far = Ipv4Addr::new(8, 8, 8, 8);
    let config = NetworkConfig::new(Ipv4Addr::new(10, 0, 1, 10), 24);
    assert_eq!(RoutingTable::with_config(config).lookup(far), NextHop::Direct(far));
    assert_eq!(RoutingTable::new().lookup(far), NextHop::Direct(far));
}

#[test]
fn mtu_limits_the_payload() {
    let mut table = RoutingTable::default();
    assert_eq!((table.mtu(), table.max_udp_payload()), (1500, 1472));
    table.set_mtu(9001);
    assert_eq!(table.max_udp_payload(), 8973);
    table.set_mtu(28);
    assert_eq!(table.max_udp_payload(), 0);
    table.set_mtu(27);
    assert_eq!(table.max_udp_payload(), 0);
}
