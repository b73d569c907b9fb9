//! The HTTP-side target extraction: from the first buffered bytes of a
//! local connection, take the request line's second token and turn it
//! into `host:port` (best effort: a bare token that is no URL is handed
//! back as it stands).

use vstd::prelude::*;

use crate::strutil;
use crate::urlinfo;

verus! {

/// The request separator bytes: space, CR, LF.
pub open spec fn is_sep(b: u8) -> bool {
    b == 32 || b == 13 || b == 10
}

/// The position of the first separator at or after `i`, or `-1`.
pub open spec fn find_sep(s: Seq<u8>, i: int) -> int
    decreases s.len() - i,
{
    if i < 0 || i >= s.len() {
        -1
    } else if is_sep(s[i]) {
        i
    } else {
        find_sep(s, i + 1)
    }
}

proof fn lemma_find_sep_hit(s: Seq<u8>, i: int, k: int)
    requires
        0 <= i <= k < s.len(),
        is_sep(s[k]),
        forall|j: int| i <= j < k ==> !is_sep(s[j]),
    ensures
        find_sep(s, i) == k,
    decreases k - i,
{
    if i < k {
        lemma_find_sep_hit(s, i + 1, k);
    }
}

proof fn lemma_find_sep_none(s: Seq<u8>, i: int)
    requires
        0 <= i,
        forall|j: int| i <= j < s.len() ==> !is_sep(s[j]),
    ensures
        find_sep(s, i) == -1,
    decreases s.len() - i,
{
    if i < s.len() {
        lemma_find_sep_none(s, i + 1);
    }
}

fn find_sep_exec(v: &[u8], start: usize) -> (r: Option<usize>)
    requires
        start <= v@.len(),
    ensures
        match r {
            Some(k) => start <= k < v@.len() && is_sep(v@[k as int]) && find_sep(
                v@,
                start as int,
            ) == k,
            None => find_sep(v@, start as int) == -1,
        },
{
    let n = v.len();
    let mut i: usize = start;
    while i < n
        invariant
            start <= i <= n,
            n == v@.len(),
            forall|j: int| start <= j < i ==> !is_sep(v@[j]),
        decreases n - i,
    {
        let b = v[i];
        if b == 32 || b == 13 || b == 10 {
            proof {
                lemma_find_sep_hit(v@, start as int, i as int);
            }
            return Some(i);
        }
        i = i + 1;
    }
    proof {
        lemma_find_sep_none(v@, start as int);
    }
    None
}

/// Whether the buffer holds a complete header: a `\r\n\r\n`.
pub open spec fn contains_crlf2(s: Seq<u8>) -> bool {
    exists|i: int|
        0 <= i && i + 4 <= s.len() && s[i] == 13 && s[i + 1] == 10 && s[i + 2] == 13 && #[trigger] s[i
            + 3] == 10
}

fn has_crlf2(v: &[u8]) -> (r: bool)
    ensures
        r == contains_crlf2(v@),
{
    let n = v.len();
    if n < 4 {
        return false;
    }
    let mut i: usize = 0;
    while i <= n - 4
        invariant
            n >= 4,
            i <= n - 3,
            n == v@.len(),
            forall|j: int|
                0 <= j < i ==> !(v@[j] == 13 && v@[j + 1] == 10 && v@[j + 2] == 13 && #[trigger] v@[j
                    + 3] == 10),
        decreases n - i,
    {
        if v[i] == 13 && v[i + 1] == 10 && v[i + 2] == 13 && v[i + 3] == 10 {
            return true;
        }
        i = i + 1;
    }
    false
}

/// The second whitespace-separated token of the buffer: the bytes
/// between the first separator and the next one (or the end).
pub open spec fn spec_second_token(s: Seq<u8>) -> Seq<u8> {
    let e0 = find_sep(s, 0);
    let e1 = find_sep(s, e0 + 1);
    if e1 < 0 {
        s.subrange(e0 + 1, s.len() as int)
    } else {
        s.subrange(e0 + 1, e1)
    }
}

/// What target the first buffered bytes denote: where the header is
/// complete and a second token exists, that token as `host:port` (or the
/// token itself where it is no URL with a host); else nothing.
pub open spec fn spec_parse_header(s: Seq<u8>) -> Option<Seq<char>> {
    if contains_crlf2(s) && find_sep(s, 0) >= 0 {
        let tok = strutil::lossy_of(spec_second_token(s));
        match urlinfo::spec_get_addr(tok) {
            Some(addr) => Some(addr),
            None => Some(tok),
        }
    } else {
        None
    }
}

/// Extract the request target from the first buffered bytes.
pub fn parse_header(buff: &[u8]) -> (r: Option<String>)
    ensures
        match r {
            Some(s) => spec_parse_header(buff@) == Some(s@),
            None => spec_parse_header(buff@) is None,
        },
{
    let n = buff.len();
    if !has_crlf2(buff) {
        return None;
    }
    let e0 = match find_sep_exec(buff, 0) {
        Some(k) => k,
        None => {
            return None;
        },
    };
    let e1 = match find_sep_exec(buff, e0 + 1) {
        Some(k) => k,
        None => n,
    };
    let tok = vstd::slice::slice_subrange(buff, e0 + 1, e1);
    let tok_str = strutil::bytes_to_string_lossy(tok);
    match urlinfo::get_addr(tok_str.as_str()) {
        Some(addr) => Some(addr),
        None => Some(tok_str),
    }
}

} // verus!
