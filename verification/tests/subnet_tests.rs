use subnet_calc::ip::Ipv4;
use subnet_calc::subnet::{
    calculate_broadcast_address, calculate_host_count, calculate_network_address,
    calculate_subnet_count, ones,
};

fn addr(o0: u8, o1: u8, o2: u8, o3: u8) -> Ipv4 {
    Ipv4 { o0, o1, o2, o3 }
}

#[test]
fn network_address_masks_each_octet() {
    let a = addr(192, 168, 1, 10);
    let m = addr(255, 255, 255, 0);
    assert_eq!(calculate_network_address(a, m), addr(192, 168, 1, 0));
}

#[test]
fn broadcast_address_sets_host_bits() {
    let a = addr(192, 168, 1, 10);
    let m = addr(255, 255, 255, 0);
    assert_eq!(calculate_broadcast_address(a, m), addr(192, 168, 1, 255));
}

#[test]
fn network_and_broadcast_on_uneven_mask() {
    let a = addr(10, 20, 33, 77);
    let m = addr(255, 255, 240, 0);
    assert_eq!(calculate_network_address(a, m), addr(10, 20, 32, 0));
    assert_eq!(calculate_broadcast_address(a, m), addr(10, 20, 47, 255));
}

#[test]
fn network_under_full_mask_is_identity() {
    let a = addr(172, 16, 254, 1);
    assert_eq!(calculate_network_address(a, addr(255, 255, 255, 255)), a);
}

#[test]
fn network_under_empty_mask_is_zero() {
    let a = addr(172, 16, 254, 1);
    assert_eq!(calculate_network_address(a, addr(0, 0, 0, 0)), addr(0, 0, 0, 0));
}

#[test]
fn ones_counts_mask_bits() {
    assert_eq!(ones(addr(255, 255, 255, 0)), 24);
    assert_eq!(ones(addr(255, 255, 255, 252)), 30);
    assert_eq!(ones(addr(0, 0, 0, 0)), 0);
    assert_eq!(ones(addr(255, 255, 255, 255)), 32);
    assert_eq!(ones(addr(255, 0, 255, 85)), 20);
}

#[test]
fn subnet_and_host_count_for_24_bit_mask() {
    let m = addr(255, 255, 255, 0);
    assert_eq!(calculate_subnet_count(m), 256);
    assert_eq!(calculate_host_count(m), 254);
}

#[test]
fn subnet_and_host_count_for_30_bit_mask() {
    let m = addr(255, 255, 255, 252);
    assert_eq!(calculate_subnet_count(m), 4);
    assert_eq!(calculate_host_count(m), 2);
}

#[test]
fn subnet_count_for_empty_mask_is_two_to_the_32() {
    let m = addr(0, 0, 0, 0);
    assert_eq!(calculate_subnet_count(m), 4_294_967_296);
    assert_eq!(calculate_host_count(m), 4_294_967_294);
}

#[test]
fn host_count_saturates_at_zero_for_tiny_subnets() {
    assert_eq!(calculate_subnet_count(addr(255, 255, 255, 255)), 1);
    assert_eq!(calculate_host_count(addr(255, 255, 255, 255)), 0);
    assert_eq!(calculate_subnet_count(addr(255, 255, 255, 254)), 2);
    assert_eq!(calculate_host_count(addr(255, 255, 255, 254)), 0);
}
