//! SOCKS5 wire logic: method negotiation, request address parsing for
//! the three address types, the fixed ten-byte reply, and the UDP
//! datagram header that the pumps rewrite in both directions.

use vstd::prelude::*;
use vstd::utf8::{decode_utf8, valid_utf8};

use crate::addr::{
    be16, be16_exec, spec_addr_vec, spec_sockaddr_chars, IpRepr, SockAddrRepr,
};
use crate::models::Cmds;
use crate::strutil;

verus! {

/// Whether the offered method list contains no-auth (`0x00`).
pub fn has_no_auth(methods: &[u8]) -> (r: bool)
    ensures
        r == exists|i: int| 0 <= i < methods@.len() && methods@[i] == 0u8,
{
    let n = methods.len();
    let mut i: usize = 0;
    while i < n
        invariant
            i <= n,
            n == methods@.len(),
            forall|j: int| 0 <= j < i ==> methods@[j] != 0u8,
        decreases n - i,
    {
        if methods[i] == 0 {
            return true;
        }
        i = i + 1;
    }
    false
}

/// The fixed ten-byte SOCKS5 reply with a zero IPv4 address.
pub fn reply_bytes(code: u8) -> (r: Vec<u8>)
    ensures
        r@ == seq![5u8, code, 0u8, 1u8, 0u8, 0u8, 0u8, 0u8, 0u8, 0u8],
{
    let mut r: Vec<u8> = Vec::new();
    r.push(5);
    r.push(code);
    r.push(0);
    r.push(1);
    r.push(0);
    r.push(0);
    r.push(0);
    r.push(0);
    r.push(0);
    r.push(0);
    proof {
        assert(r@ =~= seq![5u8, code, 0u8, 1u8, 0u8, 0u8, 0u8, 0u8, 0u8, 0u8]);
    }
    r
}

/// Map a SOCKS5 command byte to the tunnel command, or to the
/// command-not-supported reply code.
pub fn socks5_cmd(cmd: u8) -> (r: Result<Cmds, u8>)
    ensures
        match r {
            Ok(c) => (cmd == 1 && c == Cmds::Connect) || (cmd == 2 && c == Cmds::Bind) || (cmd == 3
                && c == Cmds::UdpAssoc),
            Err(e) => e == 7 && (cmd == 0 || cmd > 3),
        },
{
    match cmd {
        1 => Ok(Cmds::Connect),
        2 => Ok(Cmds::Bind),
        3 => Ok(Cmds::UdpAssoc),
        _ => Err(7),
    }
}

/// The eight 16-bit groups read big-endian from sixteen bytes at `off`.
pub open spec fn spec_groups(buf: Seq<u8>, off: int) -> Seq<u16> {
    Seq::new(8, |j: int| be16(buf[off + 2 * j], buf[off + 2 * j + 1]))
}

fn groups_from_bytes(buf: &[u8], off: usize) -> (r: Vec<u16>)
    requires
        off + 16 <= buf@.len(),
    ensures
        r@ == spec_groups(buf@, off as int),
        r@.len() == 8,
{
    let n = buf.len();
    let mut r: Vec<u16> = Vec::new();
    let mut j: usize = 0;
    while j < 8
        invariant
            j <= 8,
            off + 16 <= n,
            n == buf@.len(),
            r@.len() == j,
            forall|t: int|
                0 <= t < j ==> r@[t] == be16(buf@[off + 2 * t], #[trigger] buf@[off + 2 * t + 1]),
        decreases 8 - j,
    {
        r.push(be16_exec(buf[off + 2 * j], buf[off + 2 * j + 1]));
        j = j + 1;
    }
    proof {
        assert(r@ =~= spec_groups(buf@, off as int));
    }
    r
}

/// What the request address bytes denote for an address type: the
/// canonical `host:port` text, or nothing where the type is unknown, the
/// byte count is wrong, or a domain is not UTF-8.
pub open spec fn spec_socks5_addr(atyp: u8, buf: Seq<u8>) -> Option<Seq<char>> {
    if atyp == 1 {
        if buf.len() == 6 {
            Some(
                spec_sockaddr_chars(
                    IpRepr::V4 { a: buf[0], b: buf[1], c: buf[2], d: buf[3] },
                    be16(buf[4], buf[5]),
                ),
            )
        } else {
            None
        }
    } else if atyp == 3 {
        if buf.len() >= 2 {
            let db = buf.subrange(0, buf.len() - 2);
            if valid_utf8(db) {
                Some(
                    decode_utf8(db) + seq![':'] + strutil::dec_of(
                        be16(buf[buf.len() - 2], buf[buf.len() - 1]) as nat,
                    ),
                )
            } else {
                None
            }
        } else {
            None
        }
    } else if atyp == 4 {
        if buf.len() == 18 {
            Some(spec_socks5_addr_v6(buf))
        } else {
            None
        }
    } else {
        None
    }
}

/// The canonical text for an IPv6 request address.
pub open spec fn spec_socks5_addr_v6(buf: Seq<u8>) -> Seq<char> {
    seq!['['] + crate::addr::spec_v6_chars(spec_groups(buf, 0)) + seq![']', ':'] + strutil::dec_of(
        be16(buf[16], buf[17]) as nat,
    )
}

/// Parse the address part of a SOCKS5 request: `buf` holds exactly the
/// address-and-port bytes for the given address type (for a domain, the
/// name bytes then two port bytes). `Err(8)` is the
/// address-type-not-supported reply code.
pub fn socks5_addr_from_bytes(atyp: u8, buf: &[u8]) -> (r: Result<String, u8>)
    ensures
        match r {
            Ok(s) => spec_socks5_addr(atyp, buf@) == Some(s@),
            Err(e) => e == 8 && spec_socks5_addr(atyp, buf@) is None,
        },
{
    if atyp == 1 {
        if buf.len() != 6 {
            return Err(8);
        }
        let sa = SockAddrRepr {
            ip: IpRepr::V4 { a: buf[0], b: buf[1], c: buf[2], d: buf[3] },
            port: be16_exec(buf[4], buf[5]),
        };
        Ok(crate::addr::sockaddr_string(&sa))
    } else if atyp == 3 {
        if buf.len() < 2 {
            return Err(8);
        }
        let dlen = buf.len() - 2;
        let domain = vstd::slice::slice_subrange(buf, 0, dlen);
        match strutil::bytes_to_string(domain) {
            Some(host) => {
                let port = be16_exec(buf[dlen], buf[dlen + 1]);
                let mut v = strutil::string_to_chars(host.as_str());
                v.push(':');
                let mut p = strutil::dec_chars(port as usize);
                v.append(&mut p);
                proof {
                    assert(v@ =~= decode_utf8(buf@.subrange(0, buf@.len() - 2)) + seq![':']
                        + strutil::dec_of(
                        be16(buf@[buf@.len() - 2], buf@[buf@.len() - 1]) as nat,
                    ));
                }
                Ok(strutil::chars_to_string(&v))
            },
            None => Err(8),
        }
    } else if atyp == 4 {
        if buf.len() != 18 {
            return Err(8);
        }
        let segs = groups_from_bytes(buf, 0);
        let sa = SockAddrRepr { ip: IpRepr::V6 { segs }, port: be16_exec(buf[16], buf[17]) };
        let s = crate::addr::sockaddr_string(&sa);
        proof {
            assert(s@ =~= spec_socks5_addr_v6(buf@));
        }
        Ok(s)
    } else {
        Err(8)
    }
}

/// The destination a SOCKS5 UDP datagram names.
pub enum UdpDest {
    Fixed { addr: SockAddrRepr },
    Domain { host: String, port: u16 },
}

/// The spec-level destination of a SOCKS5 UDP datagram.
pub enum UdpDestSpec {
    V4 { a: u8, b: u8, c: u8, d: u8, port: u16 },
    V6 { segs: Seq<u16>, port: u16 },
    Domain { host: Seq<char>, port: u16 },
}

/// What parsing a SOCKS5 UDP datagram header yields: the destination and
/// the index where the payload starts. The header is `00 00 00 ATYP ADDR
/// PORT`; a fragmented datagram (nonzero third byte) or an unknown
/// address type yields nothing.
pub open spec fn spec_parse_udp(buf: Seq<u8>) -> Option<(UdpDestSpec, int)> {
    if buf.len() < 4 || buf[0] != 0 || buf[1] != 0 || buf[2] != 0 {
        None
    } else if buf[3] == 1 {
        if buf.len() >= 10 {
            Some(
                (
                    UdpDestSpec::V4 {
                        a: buf[4],
                        b: buf[5],
                        c: buf[6],
                        d: buf[7],
                        port: be16(buf[8], buf[9]),
                    },
                    10int,
                ),
            )
        } else {
            None
        }
    } else if buf[3] == 3 {
        if buf.len() >= 5 && buf.len() >= 7 + buf[4] {
            let l = buf[4] as int;
            let db = buf.subrange(5, 5 + l);
            if valid_utf8(db) {
                Some(
                    (
                        UdpDestSpec::Domain {
                            host: decode_utf8(db),
                            port: be16(buf[5 + l], buf[6 + l]),
                        },
                        7 + l,
                    ),
                )
            } else {
                None
            }
        } else {
            None
        }
    } else if buf[3] == 4 {
        if buf.len() >= 22 {
            Some((UdpDestSpec::V6 { segs: spec_groups(buf, 4), port: be16(buf[20], buf[21]) }, 22int))
        } else {
            None
        }
    } else {
        None
    }
}

/// Whether an executable destination value denotes a spec-level one.
pub open spec fn dest_matches(d: UdpDest, s: UdpDestSpec) -> bool {
    match d {
        UdpDest::Fixed { addr } => match addr.ip {
            IpRepr::V4 { a, b, c, d: dd } => s matches UdpDestSpec::V4 {
                a: sa,
                b: sb,
                c: sc,
                d: sd,
                port,
            } && sa == a && sb == b && sc == c && sd == dd && port == addr.port,
            IpRepr::V6 { segs } => s matches UdpDestSpec::V6 { segs: ss, port } && ss == segs@
                && segs@.len() == 8 && port == addr.port,
        },
        UdpDest::Domain { host, port } => s matches UdpDestSpec::Domain { host: sh, port: sp }
            && sh == host@ && sp == port,
    }
}

/// Parse the header of a SOCKS5 UDP datagram; on success the payload is
/// `buf[idx..]`.
pub fn parse_udp_packet(buf: &[u8]) -> (r: Option<(UdpDest, usize)>)
    ensures
        match r {
            Some(p) => spec_parse_udp(buf@) matches Some(sp) && dest_matches(p.0, sp.0) && p.1
                == sp.1 && p.1 <= buf@.len(),
            None => spec_parse_udp(buf@) is None,
        },
{
    if buf.len() < 4 {
        return None;
    }
    if !(buf[0] == 0 && buf[1] == 0 && buf[2] == 0) {
        return None;
    }
    let atyp = buf[3];
    if atyp == 1 {
        if buf.len() < 10 {
            return None;
        }
        let addr = SockAddrRepr {
            ip: IpRepr::V4 { a: buf[4], b: buf[5], c: buf[6], d: buf[7] },
            port: be16_exec(buf[8], buf[9]),
        };
        Some((UdpDest::Fixed { addr }, 10))
    } else if atyp == 3 {
        if buf.len() < 5 {
            return None;
        }
        let l = buf[4] as usize;
        if buf.len() < 7 + l {
            return None;
        }
        let db = vstd::slice::slice_subrange(buf, 5, 5 + l);
        match strutil::bytes_to_string(db) {
            Some(host) => {
                let port = be16_exec(buf[5 + l], buf[6 + l]);
                Some((UdpDest::Domain { host, port }, 7 + l))
            },
            None => None,
        }
    } else if atyp == 4 {
        if buf.len() < 22 {
            return None;
        }
        let segs = groups_from_bytes(buf, 4);
        let addr = SockAddrRepr { ip: IpRepr::V6 { segs }, port: be16_exec(buf[20], buf[21]) };
        Some((UdpDest::Fixed { addr }, 22))
    } else {
        None
    }
}

/// Frame a UDP reply for the wire: `00 00 00` then the sender's
/// `ATYP ADDR PORT` bytes, then the payload.
pub fn build_udp_frame(sa: &SockAddrRepr, payload: &[u8]) -> (r: Vec<u8>)
    requires
        sa.wf(),
    ensures
        r@ == seq![0u8, 0u8, 0u8] + spec_addr_vec(sa.ip, sa.port) + payload@,
{
    let mut r: Vec<u8> = Vec::new();
    r.push(0);
    r.push(0);
    r.push(0);
    let mut a = crate::addr::addr_to_vec(sa);
    r.append(&mut a);
    let n = payload.len();
    let ghost mid = r@;
    let mut i: usize = 0;
    while i < n
        invariant
            i <= n,
            n == payload@.len(),
            r@ == mid + payload@.subrange(0, i as int),
        decreases n - i,
    {
        r.push(payload[i]);
        i = i + 1;
        proof {
            assert(r@ =~= mid + payload@.subrange(0, i as int));
        }
    }
    proof {
        assert(r@ =~= seq![0u8, 0u8, 0u8] + spec_addr_vec(sa.ip, sa.port) + payload@);
    }
    r
}

/// Framing a reply from a fixed address and parsing it back yields that
/// same address, with the payload exactly after the header.
pub proof fn lemma_udp_frame_round_trip(ip: IpRepr, port: u16, payload: Seq<u8>)
    requires
        ip.wf(),
    ensures
        ({
            let buf = seq![0u8, 0u8, 0u8] + spec_addr_vec(ip, port) + payload;
            match ip {
                IpRepr::V4 { a, b, c, d } => spec_parse_udp(buf) == Some(
                    (UdpDestSpec::V4 { a, b, c, d, port }, 10int),
                ) && buf.subrange(10, buf.len() as int) == payload,
                IpRepr::V6 { segs } => spec_parse_udp(buf) == Some(
                    (UdpDestSpec::V6 { segs: segs@, port }, 22int),
                ) && buf.subrange(22, buf.len() as int) == payload,
            }
        }),
{
    let buf = seq![0u8, 0u8, 0u8] + spec_addr_vec(ip, port) + payload;
    match ip {
        IpRepr::V4 { a, b, c, d } => {
            assert(buf[0] == 0 && buf[1] == 0 && buf[2] == 0 && buf[3] == 1);
            assert(buf[4] == a && buf[5] == b && buf[6] == c && buf[7] == d);
            assert(buf[8] == (port / 256) as u8 && buf[9] == (port % 256) as u8);
            assert(be16(buf[8], buf[9]) == port);
            assert(buf.subrange(10, buf.len() as int) =~= payload);
        },
        IpRepr::V6 { segs } => {
            assert(buf[0] == 0 && buf[1] == 0 && buf[2] == 0 && buf[3] == 4);
            assert forall|j: int| 0 <= j < 8 implies spec_groups(buf, 4)[j] == segs@[j] by {
                assert(buf[4 + 2 * j] == (segs@[j] / 256) as u8);
                assert(buf[4 + 2 * j + 1] == (segs@[j] % 256) as u8);
            }
            assert(spec_groups(buf, 4) =~= segs@);
            assert(buf[20] == (port / 256) as u8 && buf[21] == (port % 256) as u8);
            assert(be16(buf[20], buf[21]) == port);
            assert(buf.subrange(22, buf.len() as int) =~= payload);
        },
    }
}

} // verus!
