//! The relay server's decisions: read one text frame, decrypt one layer
//! under the static secret, dispatch on the command, and frame the BIND
//! status replies. The sockets live with the runtime.

use vstd::prelude::*;

use crate::addr::{spec_addr_vec, SockAddrRepr};
use crate::codec;
use crate::codec::{parse_enc_header_json, parse_header_json};
use crate::crypto;
use crate::models::{cmd_code, Cmds, HeaderFrame};
use crate::utils;

verus! {

/// Decrypt the one header frame a fresh connection owes, under the
/// relay's static secret and the ephemeral public key the frame carries.
///
/// Every success is the decryption of the parsed header under the
/// Diffie-Hellman key of the relay's secret and the carried ephemeral
/// public key, with the echo hash `SHA256(key || plaintext)`. The final
/// clause is the handshake agreement: where the text is an honest
/// encryption under the key the client derived from the relay's public
/// key, decryption succeeds, recovers the client's frame, and the hash
/// equals the one the client expects — the two sides' Diffie-Hellman
/// keys agree.
pub fn decrypt_client_header(secret: &Vec<u8>, text: &str) -> (r: Option<(HeaderFrame, Vec<u8>)>)
    requires
        secret@.len() == 32,
    ensures
        parse_enc_header_json(text@) is None ==> r is None,
        r matches Some(p) ==> (parse_enc_header_json(text@) matches Some(t) && {
            let key = crypto::b64_of(crypto::dh_of(secret@, t.1));
            let pt = crypto::aes_open_of(crypto::sha256_of(key), t.0, t.2);
            &&& t.0.len() == 12
            &&& parse_header_json(pt) == Some((cmd_code(p.0.cmd), p.0.param@, p.0.padding@))
            &&& p.1@ == crypto::sha256_of(key + pt)
        }),
        forall|eph: Seq<u8>, n: Seq<u8>, pt: Seq<char>|
            (parse_enc_header_json(text@) matches Some(t) && t.0 == n && t.1 == crypto::x25519_pub_of(
                eph,
            ) && n.len() == 12 && t.2 == #[trigger] crypto::aes_seal_of(
                crypto::sha256_of(crypto::b64_of(crypto::dh_of(eph, crypto::x25519_pub_of(secret@)))),
                n,
                pt,
            ) && parse_header_json(pt) is Some) ==> (r matches Some(p) && parse_header_json(pt)
                == Some((cmd_code(p.0.cmd), p.0.param@, p.0.padding@)) && p.1@ == crypto::sha256_of(
                crypto::b64_of(crypto::dh_of(eph, crypto::x25519_pub_of(secret@))) + pt,
            )),
{
    let enc = match codec::parse_enc_header(text) {
        Some(e) => e,
        None => {
            return None;
        },
    };
    let key = utils::shared_key(secret, &enc.pubkey);
    enc.decrypt(key.as_str())
}

/// What the relay does after a successful handshake.
#[derive(Debug)]
pub enum RelayAction {
    Forward { next: String },
    Egress { target: String },
    Listen { at: String },
    UdpRelay,
}

/// Dispatch on the decrypted command: relay onward, connect out, bind
/// and listen, or open the UDP leg.
pub fn dispatch(header: HeaderFrame) -> (r: RelayAction)
    ensures
        match header.cmd {
            Cmds::Relay => r matches RelayAction::Forward { next } && next@ == header.param@,
            Cmds::Connect => r matches RelayAction::Egress { target } && target@ == header.param@,
            Cmds::Bind => r matches RelayAction::Listen { at } && at@ == header.param@,
            Cmds::UdpAssoc => r is UdpRelay,
        },
{
    match header.cmd {
        Cmds::Relay => RelayAction::Forward { next: header.param },
        Cmds::Connect => RelayAction::Egress { target: header.param },
        Cmds::Bind => RelayAction::Listen { at: header.param },
        Cmds::UdpAssoc => RelayAction::UdpRelay,
    }
}

/// The binary status frame BIND sends for a bound or accepted address:
/// `05 00 00` then `ATYP ADDR PORT`.
pub fn bind_status_frame(sa: &SockAddrRepr) -> (r: Vec<u8>)
    requires
        sa.wf(),
    ensures
        r@ == seq![5u8, 0u8, 0u8] + spec_addr_vec(sa.ip, sa.port),
{
    let mut r: Vec<u8> = Vec::new();
    r.push(5);
    r.push(0);
    r.push(0);
    let mut a = crate::addr::addr_to_vec(sa);
    r.append(&mut a);
    proof {
        assert(r@ =~= seq![5u8, 0u8, 0u8] + spec_addr_vec(sa.ip, sa.port));
    }
    r
}

/// The failure frame BIND sends when listening fails.
pub fn bind_fail_frame() -> (r: Vec<u8>)
    ensures
        r@ == seq![5u8, 0u8, 1u8, 1u8, 0u8, 0u8, 0u8, 0u8, 0u8, 0u8],
{
    let mut r: Vec<u8> = Vec::new();
    r.push(5);
    r.push(0);
    r.push(1);
    r.push(1);
    r.push(0);
    r.push(0);
    r.push(0);
    r.push(0);
    r.push(0);
    r.push(0);
    proof {
        assert(r@ =~= seq![5u8, 0u8, 1u8, 1u8, 0u8, 0u8, 0u8, 0u8, 0u8, 0u8]);
    }
    r
}

} // verus!
