//! Cryptographic primitives: SHA-256, AES-256-GCM, X25519 and base64,
//! together with the random-byte helpers the chain builder uses.
//!
//! Every call into an outside crate stands behind a trusted wrapper whose
//! contract names the result; everything built on top is verified.

use aes_gcm::aead::generic_array::GenericArray;
use aes_gcm::aead::{Aead, NewAead};
use rand::Rng;
use rand_chacha::rand_core::SeedableRng;
use sha2::Digest;
use vstd::prelude::*;
use vstd::utf8::encode_utf8;

verus! {

/// Texts of at most this many characters always encrypt: UTF-8 spends at
/// most four bytes per character, so the plaintext stays far below the
/// 2^36-byte bound above which AES-GCM refuses a message.
pub const AES_TEXT_MAX: usize = 0x4000_0000;

/// The SHA-256 digest of a text, as the `sha2` crate computes it.
pub uninterp spec fn sha256_of(text: Seq<char>) -> Seq<u8>;

/// The AES-256-GCM ciphertext (tag appended) for a key, nonce and plaintext.
pub uninterp spec fn aes_seal_of(key: Seq<u8>, nonce: Seq<u8>, plaintext: Seq<char>) -> Seq<u8>;

/// The plaintext that AES-256-GCM decryption yields on a key, nonce and
/// ciphertext, where decryption succeeds and the plaintext is valid UTF-8.
pub uninterp spec fn aes_open_of(key: Seq<u8>, nonce: Seq<u8>, ciphertext: Seq<u8>) -> Seq<char>;

/// The standard-alphabet base64 encoding of a byte sequence.
pub uninterp spec fn b64_of(bytes: Seq<u8>) -> Seq<char>;

/// What standard-alphabet base64 decoding yields on a text, `None` where
/// the text is not valid base64.
pub uninterp spec fn b64_decode_of(text: Seq<char>) -> Option<Seq<u8>>;

/// The X25519 public key derived from 32 secret-key bytes.
pub uninterp spec fn x25519_pub_of(secret: Seq<u8>) -> Seq<u8>;

/// The X25519 shared secret computed from 32 secret-key bytes and a
/// 32-byte public key.
pub uninterp spec fn dh_of(secret: Seq<u8>, their_public: Seq<u8>) -> Seq<u8>;

/// The characters the standard base64 alphabet and its padding use.
pub open spec fn is_b64_char(c: char) -> bool {
    ||| 'A' <= c && c <= 'Z'
    ||| 'a' <= c && c <= 'z'
    ||| '0' <= c && c <= '9'
    ||| c == '+'
    ||| c == '/'
    ||| c == '='
}

/// Relies on sha2's `Sha256`: the digest is a function of the input text
/// alone and is 32 bytes long.
#[verifier::external_body]
pub fn sha256(text: &str) -> (r: Vec<u8>)
    ensures
        r@ == sha256_of(text@),
        r@.len() == 32,
{
    let mut hasher = sha2::Sha256::new();
    hasher.update(text.as_bytes());
    hasher.finalize().to_vec()
}

/// Relies on aes_gcm's `Aes256Gcm::encrypt` (via `NewAead` and `Aead`):
/// the ciphertext is a function of key, nonce and plaintext alone, is the
/// plaintext's bytes plus the 16-byte tag long, and the call fails only
/// above 2^36 plaintext bytes. `GenericArray::from_slice` panics on a
/// wrong length, so the lengths are required.
#[verifier::external_body]
pub(crate) fn aes_seal(key_hash: &Vec<u8>, nonce: &Vec<u8>, text: &str) -> (r: Option<Vec<u8>>)
    requires
        key_hash@.len() == 32,
        nonce@.len() == 12,
    ensures
        r is Some ==> r.unwrap()@ == aes_seal_of(key_hash@, nonce@, text@),
        r matches Some(ct) ==> ct@.len() == encode_utf8(text@).len() + 16,
        text@.len() <= AES_TEXT_MAX ==> r is Some,
{
    let cipher = aes_gcm::Aes256Gcm::new(GenericArray::from_slice(key_hash));
    match cipher.encrypt(GenericArray::from_slice(nonce), text.as_bytes()) {
        Ok(ct) => Some(ct),
        Err(_) => None,
    }
}

/// Relies on aes_gcm's `Aes256Gcm::decrypt`: decryption inverts encryption
/// under the same key and nonce, and its result is a function of key,
/// nonce and ciphertext alone. The UTF-8 check mirrors the plaintext
/// having come from a string.
#[verifier::external_body]
pub(crate) fn aes_open(key_hash: &Vec<u8>, nonce: &Vec<u8>, ciphertext: &Vec<u8>) -> (r: Option<
    String,
>)
    requires
        key_hash@.len() == 32,
        nonce@.len() == 12,
    ensures
        r is Some ==> r.unwrap()@ == aes_open_of(key_hash@, nonce@, ciphertext@),
        forall|pt: Seq<char>|
            ciphertext@ == aes_seal_of(key_hash@, nonce@, pt) ==> r is Some && r.unwrap()@ == pt,
{
    let cipher = aes_gcm::Aes256Gcm::new(GenericArray::from_slice(key_hash));
    match cipher.decrypt(GenericArray::from_slice(nonce), ciphertext.as_slice()) {
        Ok(pt) => match String::from_utf8(pt) {
            Ok(s) => Some(s),
            Err(_) => None,
        },
        Err(_) => None,
    }
}

/// Relies on base64's `encode` (standard alphabet): the encoding is a
/// function of the bytes alone, decodes back to them, uses only the
/// standard alphabet and `=` padding, and is four characters for every
/// started group of three bytes.
#[verifier::external_body]
pub(crate) fn b64_encode(bytes: &[u8]) -> (r: String)
    ensures
        r@ == b64_of(bytes@),
        b64_decode_of(r@) == Some(bytes@),
        forall|i: int| 0 <= i < r@.len() ==> is_b64_char(#[trigger] r@[i]),
        r@.len() == 4 * ((bytes@.len() + 2) / 3),
{
    base64::encode(bytes)
}

/// Relies on base64's `decode` (standard alphabet): the result is a
/// function of the text alone.
#[verifier::external_body]
pub(crate) fn b64_decode(text: &str) -> (r: Option<Vec<u8>>)
    ensures
        match r {
            Some(v) => b64_decode_of(text@) == Some(v@),
            None => b64_decode_of(text@) is None,
        },
{
    match base64::decode(text) {
        Ok(v) => Some(v),
        Err(_) => None,
    }
}

/// Relies on x25519_dalek's `StaticSecret::random_from_rng` seeded from
/// rand_chacha's `ChaCha20Rng::from_entropy`: a fresh 32-byte secret.
/// Nothing more is claimed of a random value.
#[verifier::external_body]
pub fn generate_secret() -> (r: Vec<u8>)
    ensures
        r@.len() == 32,
{
    let rng = rand_chacha::ChaCha20Rng::from_entropy();
    x25519_dalek::StaticSecret::random_from_rng(rng).to_bytes().to_vec()
}

/// Relies on x25519_dalek's `PublicKey::from(&StaticSecret)`: the public
/// key is a function of the 32 secret bytes alone and is 32 bytes long.
#[verifier::external_body]
pub(crate) fn x25519_derive_public(secret: &Vec<u8>) -> (r: Vec<u8>)
    requires
        secret@.len() == 32,
    ensures
        r@ == x25519_pub_of(secret@),
        r@.len() == 32,
{
    let mut bytes = [0u8; 32];
    bytes.copy_from_slice(secret.as_slice());
    let sec = x25519_dalek::StaticSecret::from(bytes);
    x25519_dalek::PublicKey::from(&sec).as_bytes().to_vec()
}

/// Relies on x25519_dalek's `StaticSecret::diffie_hellman`: the shared
/// secret is a function of the two arguments alone, is 32 bytes long,
/// and agrees between the two sides of a Diffie-Hellman exchange.
#[verifier::external_body]
pub(crate) fn x25519_shared(secret: &Vec<u8>, their_public: &Vec<u8>) -> (r: Vec<u8>)
    requires
        secret@.len() == 32,
        their_public@.len() == 32,
    ensures
        r@ == dh_of(secret@, their_public@),
        r@.len() == 32,
        forall|s2: Seq<u8>|
            their_public@ == #[trigger] x25519_pub_of(s2) ==> r@ == dh_of(
                s2,
                x25519_pub_of(secret@),
            ),
{
    let mut sb = [0u8; 32];
    sb.copy_from_slice(secret.as_slice());
    let mut pb = [0u8; 32];
    pb.copy_from_slice(their_public.as_slice());
    let sec = x25519_dalek::StaticSecret::from(sb);
    let theirs = x25519_dalek::PublicKey::from(pb);
    sec.diffie_hellman(&theirs).to_bytes().to_vec()
}

/// Relies on rand's `random::<u8>`. Nothing is claimed of a random value.
#[verifier::external_body]
pub(crate) fn rand_byte() -> u8 {
    rand::random::<u8>()
}

/// Relies on rand's `Rng::gen_range` on a half-open range: the result is
/// uniform in `[min, max)`; the call panics on an empty range, so the
/// bound is required.
#[verifier::external_body]
pub(crate) fn rand_range(min: usize, max: usize) -> (r: usize)
    requires
        min < max,
    ensures
        min <= r < max,
{
    rand::thread_rng().gen_range(min..max)
}

} // verus!
