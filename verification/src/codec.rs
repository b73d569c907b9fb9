//! The wire codec for header frames.
//!
//! A [`HeaderFrame`] travels as compact JSON whose byte fields are base64
//! strings: `{"cmd":<digit>,"param":"<b64>","padding":"<b64>"}`. An
//! [`EncHeader`] travels as `{"nonce":"<b64>","pubkey":"<b64>",
//! "ciphertext":"<b64>"}` in one WebSocket text frame. The encoders and
//! parsers here are verified against spec-level definitions, and encoding
//! followed by parsing is proved to give the frame back.

use vstd::prelude::*;
use vstd::string::*;
use vstd::utf8::{decode_utf8, encode_utf8, valid_utf8};

use crate::crypto;
use crate::models::{cmd_code, cmd_from_byte, cmd_to_byte, EncHeader, HeaderFrame};
use crate::strutil;
use crate::strutil::{find_q, match_at};
use crate::utils;

verus! {

/// A text with no `'"'` in it, so that a quote scan runs past it.
pub open spec fn quote_free(s: Seq<char>) -> bool {
    forall|i: int| 0 <= i < s.len() ==> s[i] != '"'
}

/// Parameters of at most this many UTF-8 bytes keep the header JSON
/// below [`crypto::AES_TEXT_MAX`], so encrypting such a frame succeeds.
pub const HEADER_PARAM_MAX: usize = 0x0100_0000;

/// The same bound for the padding bytes.
pub const HEADER_PADDING_MAX: usize = 0x0100_0000;

pub open spec fn is_cmd_digit(c: char) -> bool {
    c == '0' || c == '1' || c == '2' || c == '3'
}

pub open spec fn digit_val(c: char) -> u8 {
    if c == '0' {
        0
    } else if c == '1' {
        1
    } else if c == '2' {
        2
    } else {
        3
    }
}

/// The header-frame JSON text assembled from a command byte and the two
/// base64 segments.
pub open spec fn hdr_json_of(cmd: u8, pseg: Seq<char>, qseg: Seq<char>) -> Seq<char> {
    "{\"cmd\":"@ + seq![strutil::digit_char(cmd as int)] + ",\"param\":\""@ + pseg
        + "\",\"padding\":\""@ + qseg + "\"}"@
}

/// The canonical JSON text of a header frame.
pub open spec fn spec_header_json(h: HeaderFrame) -> Seq<char> {
    hdr_json_of(
        cmd_code(h.cmd),
        crypto::b64_of(encode_utf8(h.param@)),
        crypto::b64_of(h.padding@),
    )
}

/// What parsing a header-frame JSON text yields: the command byte, the
/// parameter characters and the padding bytes.
pub open spec fn parse_header_json(s: Seq<char>) -> Option<(u8, Seq<char>, Seq<u8>)> {
    let lita = "{\"cmd\":"@;
    let litb = ",\"param\":\""@;
    let litc = "\",\"padding\":\""@;
    let litd = "\"}"@;
    if !match_at(s, 0, lita) {
        None
    } else {
        let i = lita.len() as int;
        if !(i < s.len() && is_cmd_digit(s[i])) {
            None
        } else {
            let cmd = digit_val(s[i]);
            if !match_at(s, i + 1, litb) {
                None
            } else {
                let p0 = i + 1 + litb.len();
                let p1 = find_q(s, p0);
                if p1 < 0 {
                    None
                } else {
                    let pseg = s.subrange(p0, p1);
                    if !match_at(s, p1, litc) {
                        None
                    } else {
                        let q0 = p1 + litc.len();
                        let q1 = find_q(s, q0);
                        if q1 < 0 {
                            None
                        } else {
                            let qseg = s.subrange(q0, q1);
                            if !(match_at(s, q1, litd) && q1 + litd.len() == s.len()) {
                                None
                            } else {
                                match (crypto::b64_decode_of(pseg), crypto::b64_decode_of(qseg)) {
                                    (Some(pb), Some(qb)) => {
                                        if valid_utf8(pb) {
                                            Some((cmd, decode_utf8(pb), qb))
                                        } else {
                                            None
                                        }
                                    },
                                    _ => None,
                                }
                            }
                        }
                    }
                }
            }
        }
    }
}

/// The encrypted-header JSON text assembled from three base64 segments.
pub open spec fn enc_json_of(nseg: Seq<char>, kseg: Seq<char>, cseg: Seq<char>) -> Seq<char> {
    "{\"nonce\":\""@ + nseg + "\",\"pubkey\":\""@ + kseg + "\",\"ciphertext\":\""@ + cseg + "\"}"@
}

/// The canonical JSON text of an encrypted header.
pub open spec fn spec_enc_header_json(e: EncHeader) -> Seq<char> {
    enc_json_of(crypto::b64_of(e.nonce@), crypto::b64_of(e.pubkey@), crypto::b64_of(e.ciphertext@))
}

/// What parsing an encrypted-header JSON text yields: nonce, public key
/// (exactly 32 bytes) and ciphertext.
pub open spec fn parse_enc_header_json(s: Seq<char>) -> Option<(Seq<u8>, Seq<u8>, Seq<u8>)> {
    let lita = "{\"nonce\":\""@;
    let litb = "\",\"pubkey\":\""@;
    let litc = "\",\"ciphertext\":\""@;
    let litd = "\"}"@;
    if !match_at(s, 0, lita) {
        None
    } else {
        let n0 = lita.len() as int;
        let n1 = find_q(s, n0);
        if n1 < 0 {
            None
        } else {
            let nseg = s.subrange(n0, n1);
            if !match_at(s, n1, litb) {
                None
            } else {
                let k0 = n1 + litb.len();
                let k1 = find_q(s, k0);
                if k1 < 0 {
                    None
                } else {
                    let kseg = s.subrange(k0, k1);
                    if !match_at(s, k1, litc) {
                        None
                    } else {
                        let c0 = k1 + litc.len();
                        let c1 = find_q(s, c0);
                        if c1 < 0 {
                            None
                        } else {
                            let cseg = s.subrange(c0, c1);
                            if !(match_at(s, c1, litd) && c1 + litd.len() == s.len()) {
                                None
                            } else {
                                match (
                                    crypto::b64_decode_of(nseg),
                                    crypto::b64_decode_of(kseg),
                                    crypto::b64_decode_of(cseg),
                                ) {
                                    (Some(nb), Some(kb), Some(cb)) => {
                                        if kb.len() == 32 {
                                            Some((nb, kb, cb))
                                        } else {
                                            None
                                        }
                                    },
                                    _ => None,
                                }
                            }
                        }
                    }
                }
            }
        }
    }
}

/// A quote-free segment sits at `i` in `s` with a quote right after it:
/// the quote scan stops exactly at its end.
proof fn lemma_scan_seg(s: Seq<char>, i: int, seg: Seq<char>)
    requires
        0 <= i,
        i + seg.len() < s.len(),
        quote_free(seg),
        forall|j: int| 0 <= j < seg.len() ==> s[i + j] == seg[j],
        s[i + seg.len()] == '"',
    ensures
        find_q(s, i) == i + seg.len(),
        s.subrange(i, i + seg.len()) == seg,
{
    assert forall|j: int| i <= j < i + seg.len() implies s[j] != '"' by {
        assert(s[j] == seg[j - i]);
    }
    strutil::lemma_find_q_hit(s, i, i + seg.len());
    assert(s.subrange(i, i + seg.len()) =~= seg);
}

/// Parsing the assembled header-frame JSON of a command byte and two
/// quote-free base64 segments gives back what the segments decode to.
pub proof fn lemma_parse_header_canonical(
    cmd: u8,
    pseg: Seq<char>,
    pb: Seq<u8>,
    qseg: Seq<char>,
    qb: Seq<u8>,
)
    requires
        cmd < 4,
        crypto::b64_decode_of(pseg) == Some(pb),
        quote_free(pseg),
        crypto::b64_decode_of(qseg) == Some(qb),
        quote_free(qseg),
        valid_utf8(pb),
    ensures
        parse_header_json(hdr_json_of(cmd, pseg, qseg)) == Some((cmd, decode_utf8(pb), qb)),
{
    let lita = "{\"cmd\":"@;
    let litb = ",\"param\":\""@;
    let litc = "\",\"padding\":\""@;
    let litd = "\"}"@;
    reveal_strlit("{\"cmd\":");
    reveal_strlit(",\"param\":\"");
    reveal_strlit("\",\"padding\":\"");
    reveal_strlit("\"}");
    let d = seq![strutil::digit_char(cmd as int)];
    let s = hdr_json_of(cmd, pseg, qseg);
    assert(s == lita + d + litb + pseg + litc + qseg + litd);
    let la = lita.len() as int;
    let lb = litb.len() as int;
    let lc = litc.len() as int;
    let ld = litd.len() as int;
    let pl = pseg.len() as int;
    let ql = qseg.len() as int;
    assert(s.len() == la + 1 + lb + pl + lc + ql + ld);

    assert(s.subrange(0, la) =~= lita);
    assert(match_at(s, 0, lita));

    assert(s[la] == strutil::digit_char(cmd as int));
    assert(is_cmd_digit(s[la]));
    assert(digit_val(s[la]) == cmd);

    assert(s.subrange(la + 1, la + 1 + lb) =~= litb);
    assert(match_at(s, la + 1, litb));

    let p0 = la + 1 + lb;
    assert forall|j: int| 0 <= j < pl implies s[p0 + j] == pseg[j] by {}
    assert(s[p0 + pl] == litc[0]);
    assert(litc[0] == '"');
    lemma_scan_seg(s, p0, pseg);
    let p1 = p0 + pl;

    assert(s.subrange(p1, p1 + lc) =~= litc);
    assert(match_at(s, p1, litc));

    let q0 = p1 + lc;
    assert forall|j: int| 0 <= j < ql implies s[q0 + j] == qseg[j] by {}
    assert(s[q0 + ql] == litd[0]);
    assert(litd[0] == '"');
    lemma_scan_seg(s, q0, qseg);
    let q1 = q0 + ql;

    assert(s.subrange(q1, q1 + ld) =~= litd);
    assert(match_at(s, q1, litd));
    assert(q1 + ld == s.len());

    assert(s.subrange(p0, p1) == pseg);
    assert(s.subrange(q0, q1) == qseg);
}

/// Parsing the assembled encrypted-header JSON of three quote-free base64
/// segments gives back what the segments decode to.
pub proof fn lemma_parse_enc_canonical(
    nseg: Seq<char>,
    nb: Seq<u8>,
    kseg: Seq<char>,
    kb: Seq<u8>,
    cseg: Seq<char>,
    cb: Seq<u8>,
)
    requires
        crypto::b64_decode_of(nseg) == Some(nb),
        quote_free(nseg),
        crypto::b64_decode_of(kseg) == Some(kb),
        quote_free(kseg),
        kb.len() == 32,
        crypto::b64_decode_of(cseg) == Some(cb),
        quote_free(cseg),
    ensures
        parse_enc_header_json(enc_json_of(nseg, kseg, cseg)) == Some((nb, kb, cb)),
{
    let lita = "{\"nonce\":\""@;
    let litb = "\",\"pubkey\":\""@;
    let litc = "\",\"ciphertext\":\""@;
    let litd = "\"}"@;
    reveal_strlit("{\"nonce\":\"");
    reveal_strlit("\",\"pubkey\":\"");
    reveal_strlit("\",\"ciphertext\":\"");
    reveal_strlit("\"}");
    let s = enc_json_of(nseg, kseg, cseg);
    assert(s == lita + nseg + litb + kseg + litc + cseg + litd);
    let la = lita.len() as int;
    let lb = litb.len() as int;
    let lc = litc.len() as int;
    let ld = litd.len() as int;
    let nl = nseg.len() as int;
    let kl = kseg.len() as int;
    let cl = cseg.len() as int;
    assert(s.len() == la + nl + lb + kl + lc + cl + ld);

    assert(s.subrange(0, la) =~= lita);
    assert(match_at(s, 0, lita));

    let n0 = la;
    assert forall|j: int| 0 <= j < nl implies s[n0 + j] == nseg[j] by {}
    assert(s[n0 + nl] == litb[0]);
    assert(litb[0] == '"');
    lemma_scan_seg(s, n0, nseg);
    let n1 = n0 + nl;

    assert(s.subrange(n1, n1 + lb) =~= litb);
    assert(match_at(s, n1, litb));

    let k0 = n1 + lb;
    assert forall|j: int| 0 <= j < kl implies s[k0 + j] == kseg[j] by {}
    assert(s[k0 + kl] == litc[0]);
    assert(litc[0] == '"');
    lemma_scan_seg(s, k0, kseg);
    let k1 = k0 + kl;

    assert(s.subrange(k1, k1 + lc) =~= litc);
    assert(match_at(s, k1, litc));

    let c0 = k1 + lc;
    assert forall|j: int| 0 <= j < cl implies s[c0 + j] == cseg[j] by {}
    assert(s[c0 + cl] == litd[0]);
    assert(litd[0] == '"');
    lemma_scan_seg(s, c0, cseg);
    let c1 = c0 + cl;

    assert(s.subrange(c1, c1 + ld) =~= litd);
    assert(match_at(s, c1, litd));
    assert(c1 + ld == s.len());

    assert(s.subrange(n0, n1) == nseg);
    assert(s.subrange(k0, k1) == kseg);
    assert(s.subrange(c0, c1) == cseg);
}

/// A base64 text never holds a quote.
proof fn lemma_b64_quote_free(s: Seq<char>)
    requires
        forall|i: int| 0 <= i < s.len() ==> crypto::is_b64_char(#[trigger] s[i]),
    ensures
        quote_free(s),
{
    assert forall|i: int| 0 <= i < s.len() implies s[i] != '"' by {
        assert(crypto::is_b64_char(s[i]));
    }
}

fn digit_str(b: u8) -> (r: &'static str)
    requires
        b < 4,
    ensures
        r@ == seq![strutil::digit_char(b as int)],
{
    proof {
        reveal_strlit("0");
        reveal_strlit("1");
        reveal_strlit("2");
        reveal_strlit("3");
    }
    let r: &'static str = match b {
        0 => "0",
        1 => "1",
        2 => "2",
        _ => "3",
    };
    proof {
        assert(r@ =~= seq![strutil::digit_char(b as int)]);
    }
    r
}

/// Serialize a header frame to its canonical JSON text. Parsing the
/// result gives the frame back, and a frame within the size bounds
/// serializes to a text the cipher accepts.
pub fn header_to_json(h: &HeaderFrame) -> (r: String)
    ensures
        r@ == spec_header_json(*h),
        parse_header_json(r@) == Some((cmd_code(h.cmd), h.param@, h.padding@)),
        (encode_utf8(h.param@).len() <= HEADER_PARAM_MAX && h.padding@.len()
            <= HEADER_PADDING_MAX) ==> r@.len() <= crypto::AES_TEXT_MAX,
{
    let pseg = crypto::b64_encode(h.param.as_str().as_bytes());
    let qseg = crypto::b64_encode(h.padding.as_slice());
    let mut out = String::from_str("{\"cmd\":");
    out.append(digit_str(cmd_to_byte(h.cmd)));
    out.append(",\"param\":\"");
    out.append(pseg.as_str());
    out.append("\",\"padding\":\"");
    out.append(qseg.as_str());
    out.append("\"}");
    proof {
        assert(out@ == spec_header_json(*h));
        lemma_b64_quote_free(pseg@);
        lemma_b64_quote_free(qseg@);
        vstd::utf8::encode_utf8_valid_utf8(h.param@);
        vstd::utf8::encode_utf8_decode_utf8(h.param@);
        lemma_parse_header_canonical(
            cmd_code(h.cmd),
            pseg@,
            encode_utf8(h.param@),
            qseg@,
            h.padding@,
        );
        reveal_strlit("{\"cmd\":");
        reveal_strlit(",\"param\":\"");
        reveal_strlit("\",\"padding\":\"");
        reveal_strlit("\"}");
        assert(out@.len() == 33 + pseg@.len() + qseg@.len());
        if encode_utf8(h.param@).len() <= HEADER_PARAM_MAX && h.padding@.len()
            <= HEADER_PADDING_MAX {
            vstd::arithmetic::div_mod::lemma_div_is_ordered(
                encode_utf8(h.param@).len() + 2int,
                HEADER_PARAM_MAX + 2int,
                3,
            );
            vstd::arithmetic::div_mod::lemma_div_is_ordered(
                h.padding@.len() + 2int,
                HEADER_PADDING_MAX + 2int,
                3,
            );
            assert(out@.len() <= crypto::AES_TEXT_MAX);
        }
    }
    out
}

/// Parse a header frame from JSON text; succeeds exactly where the
/// spec-level parse does, and yields the same frame.
pub fn parse_header_from_json(s: &str) -> (r: Option<HeaderFrame>)
    ensures
        match r {
            Some(h) => parse_header_json(s@) == Some((cmd_code(h.cmd), h.param@, h.padding@)),
            None => parse_header_json(s@) is None,
        },
{
    let v = strutil::string_to_chars(s);
    if !strutil::match_lit(&v, 0, "{\"cmd\":") {
        return None;
    }
    let i = "{\"cmd\":".unicode_len();
    if i >= v.len() {
        return None;
    }
    let c = v[i];
    if !(c == '0' || c == '1' || c == '2' || c == '3') {
        return None;
    }
    let cmd_b: u8 = if c == '0' {
        0
    } else if c == '1' {
        1
    } else if c == '2' {
        2
    } else {
        3
    };
    if !strutil::match_lit(&v, i + 1, ",\"param\":\"") {
        return None;
    }
    let p0 = i + 1 + ",\"param\":\"".unicode_len();
    let p1 = match strutil::find_quote(&v, p0) {
        Some(k) => k,
        None => {
            return None;
        },
    };
    if !strutil::match_lit(&v, p1, "\",\"padding\":\"") {
        return None;
    }
    let q0 = p1 + "\",\"padding\":\"".unicode_len();
    let q1 = match strutil::find_quote(&v, q0) {
        Some(k) => k,
        None => {
            return None;
        },
    };
    if !strutil::match_lit(&v, q1, "\"}") {
        return None;
    }
    if q1 + "\"}".unicode_len() != v.len() {
        return None;
    }
    let pseg = strutil::sub_chars(&v, p0, p1);
    let pstr = strutil::chars_to_string(&pseg);
    let pb = match crypto::b64_decode(pstr.as_str()) {
        Some(b) => b,
        None => {
            return None;
        },
    };
    let qseg = strutil::sub_chars(&v, q0, q1);
    let qstr = strutil::chars_to_string(&qseg);
    let qb = match crypto::b64_decode(qstr.as_str()) {
        Some(b) => b,
        None => {
            return None;
        },
    };
    let param = match strutil::bytes_to_string(pb.as_slice()) {
        Some(p) => p,
        None => {
            return None;
        },
    };
    let cmd = match cmd_from_byte(cmd_b) {
        Some(cm) => cm,
        None => {
            return None;
        },
    };
    Some(HeaderFrame { cmd, param, padding: qb })
}

impl EncHeader {
    /// Serialize to the canonical JSON wire text. Parsing the result
    /// gives the three byte fields back (the public key must be the
    /// 32 bytes the data model asks for).
    pub fn to_string(&self) -> (r: Option<String>)
        ensures
            r matches Some(s) && s@ == spec_enc_header_json(*self),
            self.pubkey@.len() == 32 ==> parse_enc_header_json(spec_enc_header_json(*self))
                == Some((self.nonce@, self.pubkey@, self.ciphertext@)),
    {
        let nseg = crypto::b64_encode(self.nonce.as_slice());
        let kseg = crypto::b64_encode(self.pubkey.as_slice());
        let cseg = crypto::b64_encode(self.ciphertext.as_slice());
        let mut out = String::from_str("{\"nonce\":\"");
        out.append(nseg.as_str());
        out.append("\",\"pubkey\":\"");
        out.append(kseg.as_str());
        out.append("\",\"ciphertext\":\"");
        out.append(cseg.as_str());
        out.append("\"}");
        proof {
            assert(out@ == spec_enc_header_json(*self));
            if self.pubkey@.len() == 32 {
                lemma_b64_quote_free(nseg@);
                lemma_b64_quote_free(kseg@);
                lemma_b64_quote_free(cseg@);
                lemma_parse_enc_canonical(
                    nseg@,
                    self.nonce@,
                    kseg@,
                    self.pubkey@,
                    cseg@,
                    self.ciphertext@,
                );
            }
        }
        Some(out)
    }
}

/// Parse an encrypted header from one wire text frame; succeeds exactly
/// where the spec-level parse does, and yields the same fields.
pub fn parse_enc_header(s: &str) -> (r: Option<EncHeader>)
    ensures
        match r {
            Some(e) => parse_enc_header_json(s@) == Some((e.nonce@, e.pubkey@, e.ciphertext@))
                && e.pubkey@.len() == 32,
            None => parse_enc_header_json(s@) is None,
        },
{
    let v = strutil::string_to_chars(s);
    if !strutil::match_lit(&v, 0, "{\"nonce\":\"") {
        return None;
    }
    let n0 = "{\"nonce\":\"".unicode_len();
    let n1 = match strutil::find_quote(&v, n0) {
        Some(k) => k,
        None => {
            return None;
        },
    };
    if !strutil::match_lit(&v, n1, "\",\"pubkey\":\"") {
        return None;
    }
    let k0 = n1 + "\",\"pubkey\":\"".unicode_len();
    let k1 = match strutil::find_quote(&v, k0) {
        Some(k) => k,
        None => {
            return None;
        },
    };
    if !strutil::match_lit(&v, k1, "\",\"ciphertext\":\"") {
        return None;
    }
    let c0 = k1 + "\",\"ciphertext\":\"".unicode_len();
    let c1 = match strutil::find_quote(&v, c0) {
        Some(k) => k,
        None => {
            return None;
        },
    };
    if !strutil::match_lit(&v, c1, "\"}") {
        return None;
    }
    if c1 + "\"}".unicode_len() != v.len() {
        return None;
    }
    let nseg = strutil::sub_chars(&v, n0, n1);
    let nb = match crypto::b64_decode(strutil::chars_to_string(&nseg).as_str()) {
        Some(b) => b,
        None => {
            return None;
        },
    };
    let kseg = strutil::sub_chars(&v, k0, k1);
    let kb = match crypto::b64_decode(strutil::chars_to_string(&kseg).as_str()) {
        Some(b) => b,
        None => {
            return None;
        },
    };
    let cseg = strutil::sub_chars(&v, c0, c1);
    let cb = match crypto::b64_decode(strutil::chars_to_string(&cseg).as_str()) {
        Some(b) => b,
        None => {
            return None;
        },
    };
    if kb.len() != 32 {
        return None;
    }
    Some(EncHeader { nonce: nb, pubkey: kb, ciphertext: cb })
}

impl HeaderFrame {
    /// Encrypt this frame for one hop: serialize to JSON, encrypt the
    /// text under the SHA-256 of the shared key string with a fresh
    /// nonce, and return the wire header together with the confirmation
    /// hash `SHA256(key || plaintext_json)` the hop owes back. Succeeds
    /// on every frame within the size bounds.
    pub fn encrypt(&self, key: &str, pubkey: &Vec<u8>) -> (r: Option<(EncHeader, Vec<u8>)>)
        requires
            pubkey@.len() == 32,
        ensures
            r matches Some(p) ==> {
                &&& p.0.wf()
                &&& p.0.pubkey@ == pubkey@
                &&& p.0.ciphertext@ == crypto::aes_seal_of(
                    crypto::sha256_of(key@),
                    p.0.nonce@,
                    spec_header_json(*self),
                )
                &&& p.1@ == crypto::sha256_of(key@ + spec_header_json(*self))
                &&& parse_header_json(spec_header_json(*self)) == Some(
                    (cmd_code(self.cmd), self.param@, self.padding@),
                )
            },
            (encode_utf8(self.param@).len() <= HEADER_PARAM_MAX && self.padding@.len()
                <= HEADER_PADDING_MAX) ==> r is Some,
    {
        let text = header_to_json(self);
        match utils::aes_encrypt(text.as_str(), key) {
            Some((nonce, ciphertext)) => {
                let hash_input = String::from_str(key).concat(text.as_str());
                let hash = crypto::sha256(hash_input.as_str());
                let pk = strutil::copy_bytes(pubkey);
                Some((EncHeader { nonce, pubkey: pk, ciphertext }, hash))
            },
            None => None,
        }
    }
}

impl EncHeader {
    /// Decrypt one wire header under a shared key string. On an honest
    /// encryption under the same key this returns the frame that was
    /// encrypted and
    /// the same confirmation hash the encryptor computed.
    pub fn decrypt(&self, key: &str) -> (r: Option<(HeaderFrame, Vec<u8>)>)
        ensures
            self.nonce@.len() != 12 ==> r is None,
            r matches Some(p) ==> {
                let pt = crypto::aes_open_of(crypto::sha256_of(key@), self.nonce@, self.ciphertext@);
                &&& parse_header_json(pt) == Some((cmd_code(p.0.cmd), p.0.param@, p.0.padding@))
                &&& p.1@ == crypto::sha256_of(key@ + pt)
            },
            forall|pt: Seq<char>|
                (self.nonce@.len() == 12 && self.ciphertext@ == crypto::aes_seal_of(
                    crypto::sha256_of(key@),
                    self.nonce@,
                    pt,
                ) && parse_header_json(pt) is Some) ==> (r matches Some(p) && parse_header_json(pt)
                    == Some((cmd_code(p.0.cmd), p.0.param@, p.0.padding@)) && p.1@
                    == crypto::sha256_of(key@ + pt)),
    {
        let text = match utils::aes_decrypt(&self.nonce, &self.ciphertext, key) {
            Some(t) => t,
            None => {
                return None;
            },
        };
        let header = match parse_header_from_json(text.as_str()) {
            Some(h) => h,
            None => {
                return None;
            },
        };
        let hash_input = String::from_str(key).concat(text.as_str());
        let hash = crypto::sha256(hash_input.as_str());
        Some((header, hash))
    }
}

} // verus!
