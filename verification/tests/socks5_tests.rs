use onionws::addr::{addr_to_vec, sockaddr_string, IpRepr, SockAddrRepr};
use onionws::models::Cmds;
use onionws::socks5;

#[test]
fn greeting_method_scan() {
    assert!(socks5::has_no_auth(&[0u8]));
    assert!(socks5::has_no_auth(&[2u8, 0, 1]));
    assert!(!socks5::has_no_auth(&[2u8, 1]));
    assert!(!socks5::has_no_auth(&[]));
}

#[test]
fn socks5_reply_shape() {
    assert_eq!(socks5::reply_bytes(0), vec![5u8, 0, 0, 1, 0, 0, 0, 0, 0, 0]);
    assert_eq!(socks5::reply_bytes(5), vec![5u8, 5, 0, 1, 0, 0, 0, 0, 0, 0]);
    assert_eq!(socks5::reply_bytes(7), vec![5u8, 7, 0, 1, 0, 0, 0, 0, 0, 0]);
    assert_eq!(socks5::reply_bytes(8), vec![5u8, 8, 0, 1, 0, 0, 0, 0, 0, 0]);
}

#[test]
fn socks5_command_mapping() {
    assert_eq!(socks5::socks5_cmd(1), Ok(Cmds::Connect));
    assert_eq!(socks5::socks5_cmd(2), Ok(Cmds::Bind));
    assert_eq!(socks5::socks5_cmd(3), Ok(Cmds::UdpAssoc));
    assert_eq!(socks5::socks5_cmd(0), Err(7));
    assert_eq!(socks5::socks5_cmd(9), Err(7));
}

#[test]
fn request_addr_v4() {
    let buf = [127u8, 0, 0, 1, 0x1f, 0x90];
    let s = socks5::socks5_addr_from_bytes(1, &buf).unwrap();
    assert_eq!(s, "127.0.0.1:8080");
}

#[test]
fn request_addr_domain() {
    let mut buf = b"example.com".to_vec();
    buf.push(0x01);
    buf.push(0xbb);
    let s = socks5::socks5_addr_from_bytes(3, &buf).unwrap();
    assert_eq!(s, "example.com:443");
}

#[test]
fn request_addr_v6() {
    let mut buf = vec![0u8; 15];
    buf.push(1);
    buf.push(0);
    buf.push(80);
    let s = socks5::socks5_addr_from_bytes(4, &buf).unwrap();
    assert_eq!(s, "[::1]:80");
}

#[test]
fn request_addr_unsupported_atyp() {
    assert_eq!(socks5::socks5_addr_from_bytes(5, &[0u8; 6]), Err(8));
    assert_eq!(socks5::socks5_addr_from_bytes(0, &[]), Err(8));
    let bad_utf8 = [0xffu8, 0xfe, 0x00, 0x50];
    assert_eq!(socks5::socks5_addr_from_bytes(3, &bad_utf8), Err(8));
}

#[test]
fn v6_text_canonical_forms() {
    let cases: Vec<([u16; 8], &str)> = vec![
        ([0, 0, 0, 0, 0, 0, 0, 1], "[::1]:443"),
        ([0, 0, 0, 0, 0, 0, 0, 0], "[::]:443"),
        ([0x2001, 0x0db8, 0, 0, 1, 0, 0, 1], "[2001:db8::1:0:0:1]:443"),
        (
            [0x2001, 0x0db8, 0x85a3, 0x08d3, 0x1319, 0x8a2e, 0x0370, 0x7348],
            "[2001:db8:85a3:8d3:1319:8a2e:370:7348]:443",
        ),
        ([0, 0, 0, 0, 0, 0xffff, 0xc0a8, 0x0001], "[::ffff:192.168.0.1]:443"),
        ([0xfe80, 0, 0, 0, 0x0202, 0xb3ff, 0xfe1e, 0x8329], "[fe80::202:b3ff:fe1e:8329]:443"),
    ];
    for (segs, expected) in cases.iter() {
        let sa = SockAddrRepr { ip: IpRepr::V6 { segs: segs.to_vec() }, port: 443 };
        assert_eq!(&sockaddr_string(&sa), expected);
    }
}

#[test]
fn udp_frame_round_trip() {
    let payload = [1u8, 2, 3];
    let mut pkt = vec![0u8, 0, 0, 1, 0xc0, 0xa8, 0x00, 0x01, 0x00, 0x50];
    pkt.extend_from_slice(&payload);

    let (dest, idx) = socks5::parse_udp_packet(&pkt).unwrap();
    assert_eq!(idx, 10);
    assert_eq!(&pkt[idx..], &payload);
    match dest {
        socks5::UdpDest::Fixed { addr } => {
            assert_eq!(sockaddr_string(&addr), "192.168.0.1:80");
            let rebuilt = socks5::build_udp_frame(&addr, &payload);
            assert_eq!(rebuilt, pkt);
            assert_eq!(&rebuilt[..10], &pkt[..10]);
        },
        _ => panic!("wrong destination kind"),
    }
}

#[test]
fn udp_frame_domain() {
    let mut pkt = vec![0u8, 0, 0, 3, 11];
    pkt.extend_from_slice(b"example.com");
    pkt.push(0x00);
    pkt.push(0x35);
    pkt.extend_from_slice(&[9u8, 9]);

    let (dest, idx) = socks5::parse_udp_packet(&pkt).unwrap();
    assert_eq!(idx, 18);
    match dest {
        socks5::UdpDest::Domain { host, port } => {
            assert_eq!(host, "example.com");
            assert_eq!(port, 53);
        },
        _ => panic!("wrong destination kind"),
    }
}

#[test]
fn udp_frame_rejects_fragments_and_noise() {
    assert!(socks5::parse_udp_packet(&[0u8, 0, 1, 1, 1, 2, 3, 4, 0, 9]).is_none());
    assert!(socks5::parse_udp_packet(&[0u8, 0, 0, 9, 1, 2]).is_none());
    assert!(socks5::parse_udp_packet(&[0u8, 0, 0]).is_none());
    assert!(socks5::parse_udp_packet(&[0u8, 0, 0, 1, 1, 2]).is_none());
}

#[test]
fn addr_vec_layout() {
    let sa = SockAddrRepr { ip: IpRepr::V4 { a: 10, b: 0, c: 0, d: 7 }, port: 258 };
    assert_eq!(addr_to_vec(&sa), vec![1u8, 10, 0, 0, 7, 1, 2]);

    let sa6 = SockAddrRepr { ip: IpRepr::V6 { segs: vec![0, 0, 0, 0, 0, 0, 0, 1] }, port: 80 };
    let v = addr_to_vec(&sa6);
    assert_eq!(v.len(), 19);
    assert_eq!(v[0], 4);
    assert_eq!(v[16], 1);
    assert_eq!(&v[17..], &[0u8, 80]);
}
