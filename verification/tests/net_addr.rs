use io2::net::Ipv6MulticastScope::{
    AdminLocal, Global, InterfaceLocal, LinkLocal, OrganizationLocal, RealmLocal, SiteLocal,
};
use io2::io::{Error, ErrorKind};
use io2::net::addr::{first_addr, parse_port, resolve_socket_addr, rposition, split_host_port};
use io2::net::text::find_zero_slice;
use io2::net::{
    each_addr, IpAddr, Ipv4Addr, Ipv6Addr, Ipv6MulticastScope, Shutdown, SocketAddr, ToIpAddr,
    ToSocketAddrs,
};

#[test]
fn ipv4_to_ipv6() {
    assert_eq!(
        Ipv6Addr::new(0, 0, 0, 0, 0, 0xffff, 0x1234, 0x5678),
        Ipv4Addr::new(0x12, 0x34, 0x56, 0x78).to_ipv6_mapped()
    );
    assert_eq!(
        Ipv6Addr::new(0, 0, 0, 0, 0, 0, 0x1234, 0x5678),
        Ipv4Addr::new(0x12, 0x34, 0x56, 0x78).to_ipv6_compatible()
    );
}

#[test]
fn ipv6_to_ipv4() {
    assert_eq!(
        Ipv6Addr::new(0, 0, 0, 0, 0, 0xffff, 0x1234, 0x5678).to_ipv4(),
        Some(Ipv4Addr::new(0x12, 0x34, 0x56, 0x78))
    );
    assert_eq!(
        Ipv6Addr::new(0, 0, 0, 0, 0, 0, 0x1234, 0x5678).to_ipv4(),
        Some(Ipv4Addr::new(0x12, 0x34, 0x56, 0x78))
    );
    assert_eq!(Ipv6Addr::new(0, 0, 1, 0, 0, 0, 0x1234, 0x5678).to_ipv4(), None);
}

#[test]
fn ipv4_properties() {
    fn check(
        octets: &[u8; 4],
        unspec: bool,
        loopback: bool,
        private: bool,
        link_local: bool,
        global: bool,
        multicast: bool,
    ) {
        println!("testing IPv4 address {:?}", octets);
        let ip = Ipv4Addr::new(octets[0], octets[1], octets[2], octets[3]);
        assert_eq!(octets, ip.octets());

        assert_eq!(ip.is_unspecified(), unspec);
        assert_eq!(ip.is_loopback(), loopback);
        assert_eq!(ip.is_private(), private);
        assert_eq!(ip.is_link_local(), link_local);
        assert_eq!(ip.is_global(), global);
        assert_eq!(ip.is_multicast(), multicast);
    }

    //    address                unspec loopbk privt  linloc global multicast
    check(&[0, 0, 0, 0], true, false, false, false, true, false);
    check(&[0, 0, 0, 1], false, false, false, false, true, false);
    check(&[1, 0, 0, 0], false, false, false, false, true, false);
    check(&[10, 9, 8, 7], false, false, true, false, false, false);
    check(&[127, 1, 2, 3], false, true, false, false, false, false);
    check(&[172, 31, 254, 253], false, false, true, false, false, false);
    check(&[169, 254, 253, 242], false, false, false, true, false, false);
    check(&[192, 168, 254, 253], false, false, true, false, false, false);
    check(&[224, 0, 0, 0], false, false, false, false, true, true);
    check(&[239, 255, 255, 255], false, false, false, false, true, true);
    check(&[255, 255, 255, 255], false, false, false, false, true, false);
}

#[test]
fn ipv6_properties() {
    fn check(
        str_addr: &str,
        ip: Ipv6Addr,
        unspec: bool,
        loopback: bool,
        unique_local: bool,
        global: bool,
        u_link_local: bool,
        u_site_local: bool,
        u_global: bool,
        m_scope: Option<Ipv6MulticastScope>,
    ) {
        println!("testing IPv6 address {:?}", str_addr);
        assert_eq!(str_addr, ip.to_string());

        assert_eq!(ip.is_unspecified(), unspec);
        assert_eq!(ip.is_loopback(), loopback);
        assert_eq!(ip.is_unique_local(), unique_local);
        assert_eq!(ip.is_global(), global);
        assert_eq!(ip.is_unicast_link_local(), u_link_local);
        assert_eq!(ip.is_unicast_site_local(), u_site_local);
        assert_eq!(ip.is_unicast_global(), u_global);
        assert_eq!(ip.multicast_scope(), m_scope);
        assert_eq!(ip.is_multicast(), m_scope.is_some());
    }
    fn first(seg: u16) -> Ipv6Addr {
        Ipv6Addr::new(seg, 0, 0, 0, 0, 0, 0, 0)
    }

    //    unspec loopbk uniqlo global unill  unisl  uniglo mscope
    check("::", first(0), true, false, false, true, false, false, true, None);
    check("::1", Ipv6Addr::new(0, 0, 0, 0, 0, 0, 0, 1), false, true, false, false, false, false, false, None);
    check("::0.0.0.2", Ipv6Addr::new(0, 0, 0, 0, 0, 0, 0, 2), false, false, false, true, false, false, true, None);
    check("1::", first(1), false, false, false, true, false, false, true, None);
    check("fc00::", first(0xfc00), false, false, true, false, false, false, false, None);
    check(
        "fdff:ffff::",
        Ipv6Addr::new(0xfdff, 0xffff, 0, 0, 0, 0, 0, 0),
        false, false, true, false, false, false, false, None,
    );
    check(
        "fe80:ffff::",
        Ipv6Addr::new(0xfe80, 0xffff, 0, 0, 0, 0, 0, 0),
        false, false, false, false, true, false, false, None,
    );
    check(
        "febf:ffff::",
        Ipv6Addr::new(0xfebf, 0xffff, 0, 0, 0, 0, 0, 0),
        false, false, false, false, true, false, false, None,
    );
    check("fec0::", first(0xfec0), false, false, false, false, false, true, false, None);
    check("ff01::", first(0xff01), false, false, false, false, false, false, false, Some(InterfaceLocal));
    check("ff02::", first(0xff02), false, false, false, false, false, false, false, Some(LinkLocal));
    check("ff03::", first(0xff03), false, false, false, false, false, false, false, Some(RealmLocal));
    check("ff04::", first(0xff04), false, false, false, false, false, false, false, Some(AdminLocal));
    check("ff05::", first(0xff05), false, false, false, false, false, false, false, Some(SiteLocal));
    check("ff08::", first(0xff08), false, false, false, false, false, false, false, Some(OrganizationLocal));
    check("ff0e::", first(0xff0e), false, false, false, true, false, false, false, Some(Global));
}

#[test]
fn to_socket_addr_socketaddr() {
    let a = SocketAddr { ip: IpAddr::new_v4(77, 88, 21, 11), port: 12345 };
    assert_eq!(Ok(vec![a]), a.to_socket_addrs());
}

#[test]
fn to_socket_addr_ipaddr_u16() {
    let a = IpAddr::new_v4(77, 88, 21, 11);
    let p = 12345u16;
    let e = SocketAddr { ip: a, port: p };
    assert_eq!(Ok(vec![e]), (a, p).to_socket_addrs());
}

#[test]
fn to_socket_addr_through_a_reference() {
    let a = SocketAddr { ip: IpAddr::new_v6(0x2a02, 0x6b8, 0, 1, 0, 0, 0, 1), port: 53 };
    assert_eq!(Ok(vec![a]), (&a).to_socket_addrs());
}

#[test]
fn ip_addr_of_either_family() {
    let v4 = Ipv4Addr::new(1, 2, 3, 4);
    assert_eq!(v4.to_ip_addr(), IpAddr::V4(v4));
    assert_eq!(IpAddr::new_v4(1, 2, 3, 4), IpAddr::V4(v4));
    let v6 = Ipv6Addr::new(1, 2, 3, 4, 5, 6, 7, 8);
    assert_eq!(v6.segments(), &[1, 2, 3, 4, 5, 6, 7, 8]);
    assert_eq!(v6.to_ip_addr(), IpAddr::V6(v6));
    assert_eq!(IpAddr::new_v6(1, 2, 3, 4, 5, 6, 7, 8).to_ip_addr(), IpAddr::V6(v6));
    assert!(Shutdown::Read != Shutdown::Both);
}

#[test]
fn ipv6_global_unicast_gap() {
    let ip = Ipv6Addr::new(0xfe00, 0, 0, 0, 0, 0, 0, 0);
    assert!(ip.is_unicast_global());
    assert!(ip.is_global());
    let ip = Ipv6Addr::new(0xfe7f, 0, 0, 0, 0, 0, 0, 0);
    assert!(ip.is_unicast_global());
    let ip = Ipv6Addr::new(0xff0f, 0, 0, 0, 0, 0, 0, 0);
    assert_eq!(ip.multicast_scope(), None);
    assert!(ip.is_multicast());
    assert!(!ip.is_global());
}

#[test]
fn ipv4_embedded_in_ipv6_comes_back() {
    for a in [0u8, 1, 127, 128, 255] {
        for b in [0u8, 9, 255] {
            let v4 = Ipv4Addr::new(a, b, b, a);
            assert_eq!(v4.to_ipv6_mapped().to_ipv4(), Some(v4));
            assert_eq!(v4.to_ipv6_compatible().to_ipv4(), Some(v4));
        }
    }
}

fn sock(last: u8, port: u16) -> SocketAddr {
    SocketAddr { ip: IpAddr::new_v4(10, 0, 0, last), port }
}

#[test]
fn each_addr_returns_the_first_success() {
    let addrs = vec![sock(1, 80), sock(2, 80), sock(3, 80)];
    let r = each_addr(&addrs, |a| {
        if a.ip == IpAddr::new_v4(10, 0, 0, 1) {
            Err(Error::new(ErrorKind::ConnectionRefused, "refused", None))
        } else {
            Ok(*a)
        }
    });
    assert_eq!(r, Ok(sock(2, 80)));
}

#[test]
fn each_addr_returns_the_last_failure() {
    let addrs = vec![sock(1, 80), sock(2, 80)];
    let r: Result<(), Error> = each_addr(&addrs, |a| {
        if a.ip == IpAddr::new_v4(10, 0, 0, 1) {
            Err(Error::new(ErrorKind::ConnectionRefused, "refused", None))
        } else {
            Err(Error::new(ErrorKind::TimedOut, "timed out", None))
        }
    });
    assert_eq!(r.unwrap_err().kind(), ErrorKind::TimedOut);
}

#[test]
fn each_addr_without_addresses() {
    let r: Result<(), Error> = each_addr(&Vec::new(), |_| Ok(()));
    let e = r.unwrap_err();
    assert_eq!(e.kind(), ErrorKind::InvalidInput);
    assert_eq!(e.description(), "could not resolve to any addresses");
}

#[test]
fn resolved_addresses_get_the_port() {
    let found = vec![Ok(sock(1, 0)), Ok(sock(2, 7))];
    assert_eq!(resolve_socket_addr(found, 443), Ok(vec![sock(1, 443), sock(2, 443)]));
    assert_eq!(resolve_socket_addr(Vec::new(), 443), Ok(Vec::new()));
    let found = vec![
        Ok(sock(1, 0)),
        Err(Error::new(ErrorKind::InvalidInput, "invalid argument", None)),
        Err(Error::new(ErrorKind::Other, "later", None)),
    ];
    assert_eq!(resolve_socket_addr(found, 443).unwrap_err().description(), "invalid argument");
}

#[test]
fn ipv6_addr_to_string() {
    // ipv4-mapped address
    let a1 = Ipv6Addr::new(0, 0, 0, 0, 0, 0xffff, 0xc000, 0x280);
    assert_eq!(a1.to_string(), "::ffff:192.0.2.128");

    // ipv4-compatible address
    let a1 = Ipv6Addr::new(0, 0, 0, 0, 0, 0, 0xc000, 0x280);
    assert_eq!(a1.to_string(), "::192.0.2.128");

    // v6 address with no zero segments
    assert_eq!(Ipv6Addr::new(8, 9, 10, 11, 12, 13, 14, 15).to_string(), "8:9:a:b:c:d:e:f");

    // reduce a single run of zeros
    assert_eq!(
        "ae::ffff:102:304",
        Ipv6Addr::new(0xae, 0, 0, 0, 0, 0xffff, 0x0102, 0x0304).to_string()
    );

    // don't reduce just a single zero segment
    assert_eq!("1:2:3:4:5:6:0:8", Ipv6Addr::new(1, 2, 3, 4, 5, 6, 0, 8).to_string());

    // 'any' address
    assert_eq!("::", Ipv6Addr::new(0, 0, 0, 0, 0, 0, 0, 0).to_string());

    // loopback address
    assert_eq!("::1", Ipv6Addr::new(0, 0, 0, 0, 0, 0, 0, 1).to_string());

    // ends in zeros
    assert_eq!("1::", Ipv6Addr::new(1, 0, 0, 0, 0, 0, 0, 0).to_string());

    // two runs of zeros, second one is longer
    assert_eq!("1:0:0:4::8", Ipv6Addr::new(1, 0, 0, 4, 0, 0, 0, 8).to_string());

    // two runs of zeros, equal length
    assert_eq!("1::4:5:0:0:8", Ipv6Addr::new(1, 0, 0, 4, 5, 0, 0, 8).to_string());
}

#[test]
fn addresses_in_writing() {
    assert_eq!(Ipv4Addr::new(0, 9, 10, 255).to_string(), "0.9.10.255");
    assert_eq!(Ipv4Addr::new(127, 0, 0, 1).to_string(), "127.0.0.1");
    assert_eq!(IpAddr::new_v4(100, 99, 101, 200).to_string(), "100.99.101.200");
    assert_eq!(IpAddr::new_v6(0xffff, 0x10, 0x100, 0x1000, 0, 0xabcd, 0, 0).to_string(), "ffff:10:100:1000:0:abcd::");
    assert_eq!(sock(7, 0).to_string(), "10.0.0.7:0");
    assert_eq!(sock(7, 65535).to_string(), "10.0.0.7:65535");
    let a = SocketAddr { ip: IpAddr::new_v6(0x2a02, 0x6b8, 0, 1, 0, 0, 0, 1), port: 53 };
    assert_eq!(a.to_string(), "[2a02:6b8:0:1::1]:53");
    assert_eq!(Ipv6Addr::new(0xfe80, 0, 0, 0, 1, 2, 3, 4).to_string(), "fe80::1:2:3:4");
    assert_eq!(Ipv6Addr::new(0, 0, 0, 0, 0, 0xfffe, 1, 2).to_string(), "::fffe:1:2");
    assert_eq!(Ipv6Addr::new(0, 0, 0, 0, 0, 0, 1, 0).to_string(), "::0.1.0.0");
}

#[test]
fn longest_run_of_zeros() {
    assert_eq!(find_zero_slice(&[1, 2, 3, 4, 5, 6, 7, 8]), (0, 0));
    assert_eq!(find_zero_slice(&[1, 0, 3, 4, 5, 6, 7, 0]), (1, 1));
    assert_eq!(find_zero_slice(&[1, 0, 0, 4, 0, 0, 0, 8]), (4, 3));
    assert_eq!(find_zero_slice(&[1, 0, 0, 4, 5, 0, 0, 8]), (1, 2));
    assert_eq!(find_zero_slice(&[0, 0, 0, 0, 0, 0, 0, 0]), (0, 8));
    assert_eq!(find_zero_slice(&[1, 2, 3, 4, 5, 6, 0, 0]), (6, 2));
}

#[test]
fn ports_in_writing() {
    for text in [
        "0", "80", "+80", "00080", "65535", "65536", "99999", "655350", "", "+", "-1", "8a", "a8",
        " 80", "80 ", "++80", "4294967376", "000000000000000000000000065535", "18446744073709551696",
    ] {
        assert_eq!(parse_port(text.as_bytes()), text.parse::<u16>().ok(), "{:?}", text);
    }
    for n in [0u16, 1, 9, 10, 99, 100, 12345, 65534, 65535] {
        assert_eq!(parse_port(n.to_string().as_bytes()), Some(n));
    }
}

#[test]
fn hosts_with_ports() {
    assert_eq!(split_host_port(b"localhost:12345"), Ok((b"localhost".to_vec(), 12345)));
    assert_eq!(split_host_port(b"a:b:80"), Ok((b"a:b".to_vec(), 80)));
    assert_eq!(split_host_port(b":0"), Ok((Vec::new(), 0)));
    let e = split_host_port(b"localhost").unwrap_err();
    assert_eq!((e.kind(), e.description()), (ErrorKind::InvalidInput, "invalid socket address"));
    let e = split_host_port(b"").unwrap_err();
    assert_eq!(e.description(), "invalid socket address");
    let e = split_host_port(b"localhost:").unwrap_err();
    assert_eq!((e.kind(), e.description()), (ErrorKind::InvalidInput, "invalid port value"));
    let e = split_host_port(b"localhost:123456").unwrap_err();
    assert_eq!(e.description(), "invalid port value");
    let e = split_host_port(b"localhost:http").unwrap_err();
    assert_eq!(e.description(), "invalid port value");
    assert_eq!(rposition(b"a:b:c", b':'), Some(3));
    assert_eq!(rposition(b"abc", b':'), None);
}

#[test]
fn datagrams_go_to_the_first_address() {
    assert_eq!(first_addr(&vec![sock(1, 9), sock(2, 9)]), Ok(sock(1, 9)));
    let e = first_addr(&Vec::new()).unwrap_err();
    assert_eq!(e.kind(), ErrorKind::InvalidInput);
    assert_eq!(e.description(), "no addresses to send data to");
}
