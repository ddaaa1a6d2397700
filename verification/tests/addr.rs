use risotto::addr::{map_to_ipv6, serialize_ip_addr, IpAddress};

#[test]
fn maps_ipv4_into_ipv6() {
    let mapped = map_to_ipv6(IpAddress::v4(10, 0, 1, 0));
    assert_eq!(mapped, IpAddress::V6(0xffff_0a00_0100));
}

#[test]
fn leaves_ipv6_unchanged() {
    let addr = IpAddress::V6(0x2001_0db8_0000_0000_0000_0000_0000_0001);
    assert_eq!(map_to_ipv6(addr), addr);
}

#[test]
fn serializes_sixteen_octets() {
    let octets = serialize_ip_addr(IpAddress::v4(192, 0, 2, 1));
    assert_eq!(octets, vec![0, 0, 0, 0, 0, 0, 0, 0, 0, 0, 0xff, 0xff, 192, 0, 2, 1]);
}

#[test]
fn tells_ipv4_from_ipv6() {
    assert!(IpAddress::v4(0, 0, 0, 0).is_ipv4());
    assert!(!IpAddress::V6(0xffff_0a00_0100).is_ipv4());
    assert_eq!(IpAddress::v4(255, 255, 255, 255), IpAddress::V4(u32::MAX));
    assert_eq!(IpAddress::v4(255, 255, 255, 255).to_bits(), 0xffff_ffff_ffff);
    assert_eq!(IpAddress::V6(u128::MAX).to_bits(), u128::MAX);
}
