//! Socket addresses as plain values: the library's own IPv4/IPv6 model,
//! canonical text formatting (IPv6 with zero-run compression and the
//! v4-mapped form, as std prints them), and the SOCKS5 `ATYP ADDR PORT`
//! byte form.

use vstd::prelude::*;

use crate::strutil;
use crate::strutil::{dec_chars, dec_of};

verus! {

/// An IP address held as plain values.
pub enum IpRepr {
    V4 { a: u8, b: u8, c: u8, d: u8 },
    V6 { segs: Vec<u16> },
}

/// A socket address held as plain values.
pub struct SockAddrRepr {
    pub ip: IpRepr,
    pub port: u16,
}

impl IpRepr {
    /// An IPv6 address carries exactly its eight 16-bit groups.
    pub open spec fn wf(&self) -> bool {
        match self {
            IpRepr::V4 { .. } => true,
            IpRepr::V6 { segs } => segs@.len() == 8,
        }
    }
}

impl SockAddrRepr {
    pub open spec fn wf(&self) -> bool {
        self.ip.wf()
    }
}

/// The two big-endian bytes of a 16-bit value.
pub open spec fn be_bytes(x: u16) -> Seq<u8> {
    seq![(x / 256) as u8, (x % 256) as u8]
}

/// The 16-bit value read from two big-endian bytes.
pub open spec fn be16(hi: u8, lo: u8) -> u16 {
    (hi as u16 * 256 + lo as u16) as u16
}

pub fn be16_exec(hi: u8, lo: u8) -> (r: u16)
    ensures
        r == be16(hi, lo),
{
    (hi as u16) * 256 + (lo as u16)
}

pub fn be_bytes_exec(x: u16) -> (r: (u8, u8))
    ensures
        seq![r.0, r.1] == be_bytes(x),
        be16(r.0, r.1) == x,
{
    ((x / 256) as u8, (x % 256) as u8)
}

/// The hexadecimal digit characters, lowercase.
pub open spec fn hex_digit_char(d: int) -> char {
    if d < 10 {
        strutil::digit_char(d)
    } else if d == 10 {
        'a'
    } else if d == 11 {
        'b'
    } else if d == 12 {
        'c'
    } else if d == 13 {
        'd'
    } else if d == 14 {
        'e'
    } else {
        'f'
    }
}

/// The canonical lowercase hexadecimal form, without leading zeros.
pub open spec fn hex_of(n: nat) -> Seq<char>
    decreases n,
{
    if n < 16 {
        seq![hex_digit_char(n as int)]
    } else {
        hex_of(n / 16) + seq![hex_digit_char((n % 16) as int)]
    }
}

fn hex_digit_of(d: u16) -> (c: char)
    requires
        d < 16,
    ensures
        c == hex_digit_char(d as int),
{
    match d {
        0 => '0',
        1 => '1',
        2 => '2',
        3 => '3',
        4 => '4',
        5 => '5',
        6 => '6',
        7 => '7',
        8 => '8',
        9 => '9',
        10 => 'a',
        11 => 'b',
        12 => 'c',
        13 => 'd',
        14 => 'e',
        _ => 'f',
    }
}

/// The hexadecimal digits of a 16-bit group.
pub fn hex_chars(n: u16) -> (r: Vec<char>)
    ensures
        r@ == hex_of(n as nat),
    decreases n,
{
    if n < 16 {
        let mut r: Vec<char> = Vec::new();
        r.push(hex_digit_of(n));
        proof {
            assert(r@ =~= hex_of(n as nat));
        }
        r
    } else {
        let mut r = hex_chars(n / 16);
        r.push(hex_digit_of(n % 16));
        proof {
            assert(r@ =~= hex_of(n as nat));
        }
        r
    }
}

/// The dotted-quad text of an IPv4 address.
pub open spec fn spec_v4_chars(a: u8, b: u8, c: u8, d: u8) -> Seq<char> {
    dec_of(a as nat) + seq!['.'] + dec_of(b as nat) + seq!['.'] + dec_of(c as nat) + seq!['.']
        + dec_of(d as nat)
}

pub fn v4_chars(a: u8, b: u8, c: u8, d: u8) -> (r: Vec<char>)
    ensures
        r@ == spec_v4_chars(a, b, c, d),
{
    let mut r = dec_chars(a as usize);
    r.push('.');
    let mut t = dec_chars(b as usize);
    r.append(&mut t);
    r.push('.');
    let mut t2 = dec_chars(c as usize);
    r.append(&mut t2);
    r.push('.');
    let mut t3 = dec_chars(d as usize);
    r.append(&mut t3);
    proof {
        assert(r@ =~= spec_v4_chars(a, b, c, d));
    }
    r
}

/// The length of the zero run in `s` starting at `i`.
pub open spec fn run_at(s: Seq<u16>, i: int) -> int
    decreases s.len() - i,
{
    if i < 0 || i >= s.len() || s[i] != 0 {
        0
    } else {
        1 + run_at(s, i + 1)
    }
}

/// The leftmost longest zero run in `s[i..]`, as `(start, length)`.
pub open spec fn best_run(s: Seq<u16>, i: int) -> (int, int)
    decreases s.len() - i,
{
    if i >= s.len() {
        (i, 0)
    } else {
        let cur = run_at(s, i);
        let rest = best_run(s, i + 1);
        if cur >= rest.1 {
            (i, cur)
        } else {
            rest
        }
    }
}

fn run_at_exec(s: &Vec<u16>, i: usize) -> (r: usize)
    requires
        i <= s@.len(),
    ensures
        r == run_at(s@, i as int),
        i + r <= s@.len(),
    decreases s@.len() - i,
{
    if i >= s.len() {
        0
    } else if s[i] != 0 {
        0
    } else {
        1 + run_at_exec(s, i + 1)
    }
}

fn best_run_exec(s: &Vec<u16>, i: usize) -> (r: (usize, usize))
    requires
        i <= s@.len(),
    ensures
        (r.0 as int, r.1 as int) == best_run(s@, i as int),
        i <= r.0,
        r.0 + r.1 <= s@.len() || r.1 == 0,
    decreases s@.len() - i,
{
    if i >= s.len() {
        (i, 0)
    } else {
        let cur = run_at_exec(s, i);
        let rest = best_run_exec(s, i + 1);
        if cur >= rest.1 {
            (i, cur)
        } else {
            rest
        }
    }
}

/// The hexadecimal groups `from..to`, joined with `':'`.
pub open spec fn hex_groups(s: Seq<u16>, from: int, to: int) -> Seq<char>
    decreases to - from,
{
    if from >= to {
        seq![]
    } else if from == to - 1 {
        hex_of(s[from] as nat)
    } else {
        hex_groups(s, from, to - 1) + seq![':'] + hex_of(s[to - 1] as nat)
    }
}

fn hex_groups_exec(s: &Vec<u16>, from: usize, to: usize) -> (r: Vec<char>)
    requires
        from <= to <= s@.len(),
    ensures
        r@ == hex_groups(s@, from as int, to as int),
    decreases to - from,
{
    if from >= to {
        let r: Vec<char> = Vec::new();
        proof {
            assert(r@ =~= hex_groups(s@, from as int, to as int));
        }
        r
    } else if from == to - 1 {
        hex_chars(s[from])
    } else {
        let mut r = hex_groups_exec(s, from, to - 1);
        r.push(':');
        let mut t = hex_chars(s[to - 1]);
        r.append(&mut t);
        proof {
            assert(r@ =~= hex_groups(s@, from as int, to as int));
        }
        r
    }
}

/// Whether eight groups are an IPv4-mapped IPv6 address (`::ffff:a.b.c.d`).
pub open spec fn v4_mapped(s: Seq<u16>) -> bool {
    &&& s.len() == 8
    &&& s[0] == 0
    &&& s[1] == 0
    &&& s[2] == 0
    &&& s[3] == 0
    &&& s[4] == 0
    &&& s[5] == 0xffff
}

/// The canonical text of an IPv6 address: the v4-mapped form where it
/// applies, else the groups in lowercase hex with the leftmost longest
/// zero run of length at least two compressed to `::`.
pub open spec fn spec_v6_chars(s: Seq<u16>) -> Seq<char> {
    if v4_mapped(s) {
        "::ffff:"@ + spec_v4_chars(
            (s[6] / 256) as u8,
            (s[6] % 256) as u8,
            (s[7] / 256) as u8,
            (s[7] % 256) as u8,
        )
    } else {
        let br = best_run(s, 0);
        if br.1 < 2 {
            hex_groups(s, 0, 8)
        } else {
            hex_groups(s, 0, br.0) + "::"@ + hex_groups(s, br.0 + br.1, 8)
        }
    }
}

pub fn v6_chars(s: &Vec<u16>) -> (r: Vec<char>)
    requires
        s@.len() == 8,
    ensures
        r@ == spec_v6_chars(s@),
{
    if s[0] == 0 && s[1] == 0 && s[2] == 0 && s[3] == 0 && s[4] == 0 && s[5] == 0xffff {
        let mut r = strutil::string_to_chars("::ffff:");
        let mut t = v4_chars(
            (s[6] / 256) as u8,
            (s[6] % 256) as u8,
            (s[7] / 256) as u8,
            (s[7] % 256) as u8,
        );
        r.append(&mut t);
        proof {
            assert(r@ =~= spec_v6_chars(s@));
        }
        r
    } else {
        let (bs, bl) = best_run_exec(s, 0);
        if bl < 2 {
            hex_groups_exec(s, 0, 8)
        } else {
            let mut r = hex_groups_exec(s, 0, bs);
            let mut m = strutil::string_to_chars("::");
            r.append(&mut m);
            let mut t = hex_groups_exec(s, bs + bl, 8);
            r.append(&mut t);
            proof {
                assert(r@ =~= spec_v6_chars(s@));
            }
            r
        }
    }
}

/// The canonical `host:port` text of a socket address; an IPv6 host
/// stands in brackets.
pub open spec fn spec_sockaddr_chars(ip: IpRepr, port: u16) -> Seq<char> {
    match ip {
        IpRepr::V4 { a, b, c, d } => spec_v4_chars(a, b, c, d) + seq![':'] + dec_of(port as nat),
        IpRepr::V6 { segs } => seq!['['] + spec_v6_chars(segs@) + seq![']', ':'] + dec_of(
            port as nat,
        ),
    }
}

/// The `host:port` text of a socket address.
pub fn sockaddr_string(sa: &SockAddrRepr) -> (r: String)
    requires
        sa.wf(),
    ensures
        r@ == spec_sockaddr_chars(sa.ip, sa.port),
{
    let mut v: Vec<char> = Vec::new();
    match &sa.ip {
        IpRepr::V4 { a, b, c, d } => {
            let mut t = v4_chars(*a, *b, *c, *d);
            v.append(&mut t);
        },
        IpRepr::V6 { segs } => {
            v.push('[');
            let mut t = v6_chars(segs);
            v.append(&mut t);
            v.push(']');
        },
    }
    v.push(':');
    let mut p = dec_chars(sa.port as usize);
    v.append(&mut p);
    proof {
        assert(v@ =~= spec_sockaddr_chars(sa.ip, sa.port));
    }
    strutil::chars_to_string(&v)
}

/// The SOCKS5 address bytes of an IP: the ATYP byte then the octets.
pub open spec fn spec_ip_bytes(ip: IpRepr) -> Seq<u8> {
    match ip {
        IpRepr::V4 { a, b, c, d } => seq![1u8, a, b, c, d],
        IpRepr::V6 { segs } => seq![4u8] + be_bytes(segs@[0]) + be_bytes(segs@[1]) + be_bytes(
            segs@[2],
        ) + be_bytes(segs@[3]) + be_bytes(segs@[4]) + be_bytes(segs@[5]) + be_bytes(segs@[6])
            + be_bytes(segs@[7]),
    }
}

/// The SOCKS5 `ATYP ADDR PORT` bytes of a socket address.
pub open spec fn spec_addr_vec(ip: IpRepr, port: u16) -> Seq<u8> {
    spec_ip_bytes(ip) + be_bytes(port)
}

/// The `ATYP ADDR PORT` byte form used in SOCKS5 replies and UDP frames.
pub fn addr_to_vec(sa: &SockAddrRepr) -> (r: Vec<u8>)
    requires
        sa.wf(),
    ensures
        r@ == spec_addr_vec(sa.ip, sa.port),
{
    let mut r: Vec<u8> = Vec::new();
    match &sa.ip {
        IpRepr::V4 { a, b, c, d } => {
            r.push(1);
            r.push(*a);
            r.push(*b);
            r.push(*c);
            r.push(*d);
        },
        IpRepr::V6 { segs } => {
            r.push(4);
            let mut i: usize = 0;
            while i < 8
                invariant
                    i <= 8,
                    segs@.len() == 8,
                    r@.len() == 1 + 2 * i,
                    r@[0] == 4u8,
                    forall|j: int|
                        0 <= j < i ==> r@[1 + 2 * j] == (#[trigger] segs@[j] / 256) as u8 && r@[2
                            + 2 * j] == (segs@[j] % 256) as u8,
                decreases 8 - i,
            {
                let (hi, lo) = be_bytes_exec(segs[i]);
                r.push(hi);
                r.push(lo);
                i = i + 1;
            }
            proof {
                assert(r@ =~= spec_ip_bytes(sa.ip));
            }
        },
    }
    let (hi, lo) = be_bytes_exec(sa.port);
    r.push(hi);
    r.push(lo);
    proof {
        assert(r@ =~= spec_addr_vec(sa.ip, sa.port));
    }
    r
}

} // verus!
