//! Verified utilities over the crypto primitives: random byte vectors,
//! string-level AES-256-GCM, and X25519 key handling in base64 form.

use vstd::prelude::*;

use vstd::utf8::encode_utf8;

use crate::crypto;
use crate::strutil;

verus! {

/// A vector of `len` random bytes.
pub fn rand_vec8(len: usize) -> (r: Vec<u8>)
    ensures
        r@.len() == len,
{
    let mut r: Vec<u8> = Vec::new();
    let mut i: usize = 0;
    while i < len
        invariant
            i <= len,
            r@.len() == i,
        decreases len - i,
    {
        r.push(crypto::rand_byte());
        i = i + 1;
    }
    r
}

/// Random bytes of a length drawn uniformly from `[min, max)`.
pub fn rand_str(min: usize, max: usize) -> (r: Vec<u8>)
    requires
        min < max,
    ensures
        min <= r@.len() < max,
{
    let len = crypto::rand_range(min, max);
    rand_vec8(len)
}

/// The random padding carried inside every header frame.
pub fn rand_padding() -> (r: Vec<u8>)
    ensures
        128 <= r@.len() < 1024,
{
    rand_str(128, 1024)
}

/// Encrypt a text under the SHA-256 of a key string, with a fresh random
/// 96-bit nonce. Returns the nonce and the ciphertext (the text's UTF-8
/// bytes plus the 16-byte tag). Succeeds on every text below the
/// AES-GCM message bound.
pub fn aes_encrypt(text: &str, key: &str) -> (r: Option<(Vec<u8>, Vec<u8>)>)
    ensures
        r matches Some(p) ==> {
            &&& p.0@.len() == 12
            &&& p.1@ == crypto::aes_seal_of(crypto::sha256_of(key@), p.0@, text@)
            &&& p.1@.len() == encode_utf8(text@).len() + 16
        },
        text@.len() <= crypto::AES_TEXT_MAX ==> r is Some,
{
    let key_hash = crypto::sha256(key);
    let nonce = rand_vec8(12);
    match crypto::aes_seal(&key_hash, &nonce, text) {
        Some(ciphertext) => Some((nonce, ciphertext)),
        None => None,
    }
}

/// Decrypt a ciphertext under the SHA-256 of a key string. Succeeds on
/// exactly what [`aes_encrypt`] produced under the same key and nonce.
pub fn aes_decrypt(nonce: &Vec<u8>, ciphertext: &Vec<u8>, key: &str) -> (r: Option<String>)
    ensures
        nonce@.len() != 12 ==> r is None,
        r matches Some(s) ==> s@ == crypto::aes_open_of(
            crypto::sha256_of(key@),
            nonce@,
            ciphertext@,
        ),
        forall|pt: Seq<char>|
            nonce@.len() == 12 && ciphertext@ == crypto::aes_seal_of(
                crypto::sha256_of(key@),
                nonce@,
                pt,
            ) ==> (r matches Some(s) && s@ == pt),
{
    if nonce.len() != 12 {
        return None;
    }
    let key_hash = crypto::sha256(key);
    crypto::aes_open(&key_hash, nonce, ciphertext)
}

/// Whether a base64 secret key and a base64 public key form an X25519
/// keypair.
pub open spec fn spec_is_keypair(secret_b64: Seq<char>, pubkey_b64: Seq<char>) -> bool {
    match crypto::b64_decode_of(secret_b64) {
        Some(b) => b.len() == 32 && crypto::b64_of(crypto::x25519_pub_of(b)) == pubkey_b64,
        None => false,
    }
}

/// A fresh X25519 keypair as `(public, secret)`, both base64.
pub fn generate_x25519_keypair() -> (r: (String, String))
    ensures
        spec_is_keypair(r.1@, r.0@),
        exists|s: Seq<u8>|
            {
                &&& crypto::b64_decode_of(r.1@) == Some(s)
                &&& s.len() == 32
                &&& r.0@ == #[trigger] crypto::b64_of(crypto::x25519_pub_of(s))
                &&& crypto::b64_decode_of(r.0@) == Some(crypto::x25519_pub_of(s))
            },
{
    let secret = crypto::generate_secret();
    let pristr = crypto::b64_encode(secret.as_slice());
    let pubkey = crypto::x25519_derive_public(&secret);
    let pubstr = crypto::b64_encode(pubkey.as_slice());
    proof {
        assert(crypto::b64_decode_of(pristr@) == Some(secret@));
        assert(pubstr@ == crypto::b64_of(crypto::x25519_pub_of(secret@)));
    }
    (pubstr, pristr)
}

/// Decode a base64 X25519 secret key; `None` unless the text decodes to
/// exactly 32 bytes.
pub fn b64_to_secret(b64: &str) -> (r: Option<Vec<u8>>)
    ensures
        match r {
            Some(v) => crypto::b64_decode_of(b64@) == Some(v@) && v@.len() == 32,
            None => !(crypto::b64_decode_of(b64@) matches Some(b) && b.len() == 32),
        },
{
    match crypto::b64_decode(b64) {
        Some(v) => {
            if v.len() == 32 {
                Some(v)
            } else {
                None
            }
        },
        None => None,
    }
}

/// Decode a base64 X25519 public key; `None` unless the text decodes to
/// exactly 32 bytes.
pub fn b64_to_pubkey(b64: &str) -> (r: Option<Vec<u8>>)
    ensures
        match r {
            Some(v) => crypto::b64_decode_of(b64@) == Some(v@) && v@.len() == 32,
            None => !(crypto::b64_decode_of(b64@) matches Some(b) && b.len() == 32),
        },
{
    match crypto::b64_decode(b64) {
        Some(v) => {
            if v.len() == 32 {
                Some(v)
            } else {
                None
            }
        },
        None => None,
    }
}

/// Whether the base64 secret and public key belong together.
pub fn is_keypair(secret: &str, pubkey: &str) -> (r: bool)
    ensures
        r == spec_is_keypair(secret@, pubkey@),
{
    match b64_to_secret(secret) {
        Some(prikey) => {
            let derived = crypto::x25519_derive_public(&prikey);
            let pubstr = crypto::b64_encode(derived.as_slice());
            strutil::str_eq(pubstr.as_str(), pubkey)
        },
        None => false,
    }
}

/// The base64 shared key for one hop: the X25519 shared secret between
/// the client's ephemeral secret and the hop's static public key, base64
/// encoded. Agrees with what the hop computes from its static secret and
/// the client's ephemeral public key.
pub fn shared_key(secret: &Vec<u8>, their_public: &Vec<u8>) -> (r: String)
    requires
        secret@.len() == 32,
        their_public@.len() == 32,
    ensures
        r@ == crypto::b64_of(crypto::dh_of(secret@, their_public@)),
        forall|s2: Seq<u8>|
            their_public@ == #[trigger] crypto::x25519_pub_of(s2) ==> r@ == crypto::b64_of(
                crypto::dh_of(s2, crypto::x25519_pub_of(secret@)),
            ),
{
    let shared = crypto::x25519_shared(secret, their_public);
    crypto::b64_encode(shared.as_slice())
}

} // verus!
