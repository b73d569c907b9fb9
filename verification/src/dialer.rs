//! The client side of the per-hop handshake: walk the chain's headers,
//! send each as one text frame, and accept a hop only when its binary
//! reply equals the expected confirmation hash. The runtime performs the
//! sends and receives; every decision stands here.

use vstd::prelude::*;

use crate::codec::spec_enc_header_json;
use crate::models::{Cmds, HeaderFrame, ProxyChain};
use crate::strutil;
use crate::utils;

verus! {

/// The egress header the chain is built around.
pub fn make_tail(cmd: Cmds, target: &str) -> (r: HeaderFrame)
    ensures
        r.cmd == cmd,
        r.param@ == target@,
        128 <= r.padding@.len() < 1024,
{
    HeaderFrame { cmd, param: target.to_owned(), padding: utils::rand_padding() }
}

/// The layer-by-layer handshake over an established WebSocket.
pub struct Handshake {
    pub chain: ProxyChain,
    pub idx: usize,
}

impl Handshake {
    pub open spec fn wf(&self) -> bool {
        &&& self.idx <= self.chain.headers@.len()
        &&& self.chain.hashes@.len() == self.chain.headers@.len()
    }

    /// Start at the outermost layer.
    pub fn start(chain: ProxyChain) -> (r: Handshake)
        requires
            chain.hashes@.len() == chain.headers@.len(),
        ensures
            r.wf(),
            r.idx == 0,
            r.chain == chain,
    {
        Handshake { chain, idx: 0 }
    }

    /// Whether every layer has confirmed.
    pub fn done(&self) -> (r: bool)
        requires
            self.wf(),
        ensures
            r == (self.idx == self.chain.headers@.len()),
    {
        self.idx == self.chain.headers.len()
    }

    /// The text frame to send for the current layer.
    pub fn next_message(&self) -> (r: Option<String>)
        requires
            self.wf(),
            self.idx < self.chain.headers@.len(),
        ensures
            r matches Some(s) && s@ == spec_enc_header_json(self.chain.headers@[self.idx as int]),
    {
        self.chain.headers[self.idx].to_string()
    }

    /// Judge one hop's reply: only the expected confirmation hash,
    /// byte for byte, advances the handshake.
    pub fn on_reply(&mut self, reply: &[u8]) -> (r: bool)
        requires
            old(self).wf(),
            old(self).idx < old(self).chain.headers@.len(),
        ensures
            r == (reply@ == old(self).chain.hashes@[old(self).idx as int]@),
            final(self).chain == old(self).chain,
            r ==> final(self).idx == old(self).idx + 1 && final(self).wf(),
            !r ==> final(self).idx == old(self).idx,
    {
        let n = self.chain.headers.len();
        if strutil::bytes_eq(reply, self.chain.hashes[self.idx].as_slice()) {
            proof {
                assert(self.idx < n);
            }
            self.idx = self.idx + 1;
            true
        } else {
            false
        }
    }
}

} // verus!
