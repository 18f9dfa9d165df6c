use ublox_sockets::net::{IpAddr, Ipv4Addr, Ipv6Addr, SocketAddr, SocketAddrV4, SocketAddrV6};

#[test]
fn only_zero_v4_address_is_unspecified() {
    assert!(IpAddr::V4(Ipv4Addr::new(0, 0, 0, 0)).is_unspecified());
    assert!(!IpAddr::V4(Ipv4Addr::new(1, 0, 0, 0)).is_unspecified());
    assert!(!IpAddr::V4(Ipv4Addr::new(0, 1, 0, 0)).is_unspecified());
    assert!(!IpAddr::V4(Ipv4Addr::new(0, 0, 1, 0)).is_unspecified());
    assert!(!IpAddr::V4(Ipv4Addr::new(0, 0, 0, 1)).is_unspecified());
}

#[test]
fn only_zero_v6_address_is_unspecified() {
    assert!(IpAddr::V6(Ipv6Addr::new([0; 8])).is_unspecified());
    for i in 0..8 {
        let mut segments = [0u16; 8];
        segments[i] = 1;
        assert!(!IpAddr::V6(Ipv6Addr::new(segments)).is_unspecified());
        segments[i] = 0x100;
        assert!(!IpAddr::V6(Ipv6Addr::new(segments)).is_unspecified());
    }
}

#[test]
fn socket_address_tells_port_and_ip() {
    let v4 = SocketAddrV4::new(Ipv4Addr::new(10, 0, 0, 1), 80);
    let addr = SocketAddr::from(v4);
    assert_eq!(addr, SocketAddr::V4(v4));
    assert_eq!(addr.port(), 80);
    assert_eq!(addr.ip(), IpAddr::V4(Ipv4Addr::new(10, 0, 0, 1)));

    let ip = Ipv6Addr::new([1, 2, 3, 4, 5, 6, 7, 8]);
    let v6 = SocketAddrV6::new(ip, 443, 1, 2);
    let addr = SocketAddr::from(v6);
    assert_eq!(addr, SocketAddr::V6(v6));
    assert_eq!(addr.port(), 443);
    assert_eq!(addr.ip(), IpAddr::V6(ip));
}

#[test]
fn pair_of_ip_and_port_is_a_socket_address() {
    let v4 = Ipv4Addr::new(10, 0, 0, 1);
    let v6 = Ipv6Addr::new([1, 2, 3, 4, 5, 6, 7, 8]);
    let expected_v4 = SocketAddr::V4(SocketAddrV4::new(v4, 80));
    let expected_v6 = SocketAddr::V6(SocketAddrV6::new(v6, 443, 0, 0));
    assert_eq!(SocketAddr::from((v4, 80)), expected_v4);
    assert_eq!(SocketAddr::from((v6, 443)), expected_v6);
    assert_eq!(SocketAddr::from((IpAddr::V4(v4), 80)), expected_v4);
    assert_eq!(SocketAddr::from((IpAddr::V6(v6), 443)), expected_v6);
}
