//! Small verified helpers on strings, byte slices and character vectors:
//! conversions, comparisons, decimal formatting and the scanners the JSON
//! codec builds on.

use vstd::prelude::*;
use vstd::string::*;
use vstd::utf8::{decode_utf8, encode_utf8, valid_utf8};

verus! {

/// What `String::from_utf8_lossy` yields on a byte sequence.
pub uninterp spec fn lossy_of(bytes: Seq<u8>) -> Seq<char>;

/// Relies on std's `String: FromIterator<char>` through `Iterator::collect`:
/// collecting chars yields the string of exactly those chars in order.
#[verifier::external_body]
pub(crate) fn chars_to_string(v: &Vec<char>) -> (r: String)
    ensures
        r@ == v@,
{
    v.iter().collect()
}

/// Relies on std's `str::from_utf8`: it succeeds exactly on valid UTF-8
/// and yields the string whose byte encoding is the input.
#[verifier::external_body]
pub(crate) fn bytes_to_string(v: &[u8]) -> (r: Option<String>)
    ensures
        r is Some <==> valid_utf8(v@),
        r is Some ==> r.unwrap()@ == decode_utf8(v@) && encode_utf8(r.unwrap()@) == v@,
{
    match core::str::from_utf8(v) {
        Ok(s) => Some(s.to_string()),
        Err(_) => None,
    }
}

/// Relies on std's `String::from_utf8_lossy`: the result is a function of
/// the bytes alone, and valid UTF-8 bytes decode to their own chars.
#[verifier::external_body]
pub(crate) fn bytes_to_string_lossy(v: &[u8]) -> (r: String)
    ensures
        r@ == lossy_of(v@),
        valid_utf8(v@) ==> r@ == decode_utf8(v@),
{
    String::from_utf8_lossy(v).to_string()
}

/// The characters of a string, as a vector.
pub fn string_to_chars(s: &str) -> (r: Vec<char>)
    ensures
        r@ == s@,
{
    let n = s.unicode_len();
    let mut r: Vec<char> = Vec::new();
    let mut i: usize = 0;
    while i < n
        invariant
            i <= n,
            n == s@.len(),
            r@ == s@.subrange(0, i as int),
        decreases n - i,
    {
        r.push(s.get_char(i));
        i = i + 1;
        proof {
            assert(r@ =~= s@.subrange(0, i as int));
        }
    }
    proof {
        assert(r@ =~= s@);
    }
    r
}

/// Byte-slice equality by contents.
pub fn bytes_eq(a: &[u8], b: &[u8]) -> (r: bool)
    ensures
        r == (a@ == b@),
{
    if a.len() != b.len() {
        proof {
            assert(a@ != b@);
        }
        return false;
    }
    let n = a.len();
    let mut i: usize = 0;
    while i < n
        invariant
            i <= n,
            n == a@.len() == b@.len(),
            forall|j: int| 0 <= j < i ==> a@[j] == b@[j],
        decreases n - i,
    {
        if a[i] != b[i] {
            proof {
                assert(a@[i as int] != b@[i as int]);
            }
            return false;
        }
        i = i + 1;
    }
    proof {
        assert(a@ =~= b@);
    }
    true
}

/// String equality by contents, through the UTF-8 encodings.
pub fn str_eq(a: &str, b: &str) -> (r: bool)
    ensures
        r == (a@ == b@),
{
    let e = bytes_eq(a.as_bytes(), b.as_bytes());
    proof {
        if e {
            vstd::utf8::encode_utf8_decode_utf8(a@);
            vstd::utf8::encode_utf8_decode_utf8(b@);
        }
    }
    e
}

/// The decimal digit characters.
pub open spec fn digit_char(d: int) -> char {
    if d == 0 {
        '0'
    } else if d == 1 {
        '1'
    } else if d == 2 {
        '2'
    } else if d == 3 {
        '3'
    } else if d == 4 {
        '4'
    } else if d == 5 {
        '5'
    } else if d == 6 {
        '6'
    } else if d == 7 {
        '7'
    } else if d == 8 {
        '8'
    } else {
        '9'
    }
}

/// The canonical decimal form of a number, without leading zeros.
pub open spec fn dec_of(n: nat) -> Seq<char>
    decreases n,
{
    if n < 10 {
        seq![digit_char(n as int)]
    } else {
        dec_of(n / 10) + seq![digit_char((n % 10) as int)]
    }
}

fn digit_of(d: usize) -> (c: char)
    requires
        d < 10,
    ensures
        c == digit_char(d as int),
{
    match d {
        0 => '0',
        1 => '1',
        2 => '2',
        3 => '3',
        4 => '4',
        5 => '5',
        6 => '6',
        7 => '7',
        8 => '8',
        _ => '9',
    }
}

/// The decimal digits of a number.
pub fn dec_chars(n: usize) -> (r: Vec<char>)
    ensures
        r@ == dec_of(n as nat),
    decreases n,
{
    if n < 10 {
        let mut r: Vec<char> = Vec::new();
        r.push(digit_of(n));
        proof {
            assert(r@ =~= dec_of(n as nat));
        }
        r
    } else {
        let mut r = dec_chars(n / 10);
        r.push(digit_of(n % 10));
        proof {
            assert(r@ =~= dec_of(n as nat));
        }
        r
    }
}

/// Whether `lit` occurs in `s` starting at position `i`.
pub open spec fn match_at(s: Seq<char>, i: int, lit: Seq<char>) -> bool {
    &&& 0 <= i
    &&& i + lit.len() <= s.len()
    &&& s.subrange(i, i + lit.len()) == lit
}

/// The position of the first `'"'` in `s` at or after `i`, or `-1`.
pub open spec fn find_q(s: Seq<char>, i: int) -> int
    decreases s.len() - i,
{
    if i < 0 || i >= s.len() {
        -1
    } else if s[i] == '"' {
        i
    } else {
        find_q(s, i + 1)
    }
}

pub proof fn lemma_find_q_hit(s: Seq<char>, i: int, k: int)
    requires
        0 <= i <= k < s.len(),
        s[k] == '"',
        forall|j: int| i <= j < k ==> s[j] != '"',
    ensures
        find_q(s, i) == k,
    decreases k - i,
{
    if i < k {
        lemma_find_q_hit(s, i + 1, k);
    }
}

pub proof fn lemma_find_q_none(s: Seq<char>, i: int)
    requires
        0 <= i,
        forall|j: int| i <= j < s.len() ==> s[j] != '"',
    ensures
        find_q(s, i) == -1,
    decreases s.len() - i,
{
    if i < s.len() {
        lemma_find_q_none(s, i + 1);
    }
}

/// Scan for the first `'"'` at or after `start`.
pub fn find_quote(v: &Vec<char>, start: usize) -> (r: Option<usize>)
    requires
        start <= v@.len(),
    ensures
        match r {
            Some(k) => start <= k < v@.len() && v@[k as int] == '"' && find_q(
                v@,
                start as int,
            ) == k,
            None => find_q(v@, start as int) == -1,
        },
{
    let n = v.len();
    let mut i: usize = start;
    while i < n
        invariant
            start <= i <= n,
            n == v@.len(),
            forall|j: int| start <= j < i ==> v@[j] != '"',
        decreases n - i,
    {
        if v[i] == '"' {
            proof {
                lemma_find_q_hit(v@, start as int, i as int);
            }
            return Some(i);
        }
        i = i + 1;
    }
    proof {
        lemma_find_q_none(v@, start as int);
    }
    None
}

/// Whether the literal occurs in `v` at position `i`.
pub fn match_lit(v: &Vec<char>, i: usize, lit: &str) -> (r: bool)
    requires
        i <= v@.len(),
    ensures
        r == match_at(v@, i as int, lit@),
{
    let n = lit.unicode_len();
    let vn = v.len();
    if n > vn - i {
        proof {
            assert(!match_at(v@, i as int, lit@));
        }
        return false;
    }
    let mut j: usize = 0;
    while j < n
        invariant
            j <= n,
            n == lit@.len(),
            i + n <= vn,
            vn == v@.len(),
            forall|t: int| 0 <= t < j ==> v@[i + t] == lit@[t],
        decreases n - j,
    {
        if v[i + j] != lit.get_char(j) {
            proof {
                assert(v@.subrange(i as int, i + lit@.len())[j as int] != lit@[j as int]);
            }
            return false;
        }
        j = j + 1;
    }
    proof {
        assert(v@.subrange(i as int, i + lit@.len()) =~= lit@);
    }
    true
}

/// Append a byte slice to a vector.
pub fn push_bytes(v: &mut Vec<u8>, b: &[u8])
    ensures
        final(v)@ == old(v)@ + b@,
{
    let n = b.len();
    let ghost base = v@;
    let mut i: usize = 0;
    while i < n
        invariant
            i <= n,
            n == b@.len(),
            v@ == base + b@.subrange(0, i as int),
        decreases n - i,
    {
        v.push(b[i]);
        i = i + 1;
        proof {
            assert(v@ =~= base + b@.subrange(0, i as int));
        }
    }
    proof {
        assert(v@ =~= base + b@);
    }
}

/// Whether `v` starts with `p`.
pub open spec fn starts_with(s: Seq<u8>, p: Seq<u8>) -> bool {
    p.len() <= s.len() && s.subrange(0, p.len() as int) == p
}

/// Whether `v` ends with `p`.
pub open spec fn ends_with(s: Seq<u8>, p: Seq<u8>) -> bool {
    p.len() <= s.len() && s.subrange(s.len() - p.len(), s.len() as int) == p
}

pub fn bytes_start_with(v: &[u8], p: &[u8]) -> (r: bool)
    ensures
        r == starts_with(v@, p@),
{
    let n = p.len();
    if n > v.len() {
        proof {
            assert(!starts_with(v@, p@));
        }
        return false;
    }
    let mut i: usize = 0;
    while i < n
        invariant
            i <= n,
            n == p@.len(),
            n <= v@.len(),
            forall|j: int| 0 <= j < i ==> v@[j] == p@[j],
        decreases n - i,
    {
        if v[i] != p[i] {
            proof {
                assert(v@.subrange(0, p@.len() as int)[i as int] != p@[i as int]);
            }
            return false;
        }
        i = i + 1;
    }
    proof {
        assert(v@.subrange(0, p@.len() as int) =~= p@);
    }
    true
}

pub fn bytes_end_with(v: &[u8], p: &[u8]) -> (r: bool)
    ensures
        r == ends_with(v@, p@),
{
    let n = p.len();
    let vn = v.len();
    if n > vn {
        proof {
            assert(!ends_with(v@, p@));
        }
        return false;
    }
    let off = vn - n;
    let mut i: usize = 0;
    while i < n
        invariant
            i <= n,
            n == p@.len(),
            vn == v@.len(),
            off == vn - n,
            forall|j: int| 0 <= j < i ==> v@[off + j] == p@[j],
        decreases n - i,
    {
        if v[off + i] != p[i] {
            proof {
                assert(v@.subrange(v@.len() - p@.len(), v@.len() as int)[i as int] != p@[
                i as int]);
            }
            return false;
        }
        i = i + 1;
    }
    proof {
        assert(v@.subrange(v@.len() - p@.len(), v@.len() as int) =~= p@);
    }
    true
}

/// A fresh vector with the same bytes.
pub fn copy_bytes(v: &Vec<u8>) -> (r: Vec<u8>)
    ensures
        r@ == v@,
{
    let n = v.len();
    let mut r: Vec<u8> = Vec::new();
    let mut i: usize = 0;
    while i < n
        invariant
            i <= n,
            n == v@.len(),
            r@ == v@.subrange(0, i as int),
        decreases n - i,
    {
        r.push(v[i]);
        i = i + 1;
        proof {
            assert(r@ =~= v@.subrange(0, i as int));
        }
    }
    proof {
        assert(r@ =~= v@);
    }
    r
}

/// The slice of a character vector as a new vector.
pub fn sub_chars(v: &Vec<char>, a: usize, b: usize) -> (r: Vec<char>)
    requires
        a <= b <= v@.len(),
    ensures
        r@ == v@.subrange(a as int, b as int),
{
    let mut r: Vec<char> = Vec::new();
    let mut i: usize = a;
    while i < b
        invariant
            a <= i <= b <= v@.len(),
            r@ == v@.subrange(a as int, i as int),
        decreases b - i,
    {
        r.push(v[i]);
        i = i + 1;
        proof {
            assert(r@ =~= v@.subrange(a as int, i as int));
        }
    }
    r
}

} // verus!
