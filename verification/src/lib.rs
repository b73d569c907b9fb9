//! Layered onion-encrypted proxy core: header codec, chain construction,
//! per-hop handshake, SOCKS5/HTTP parsing, and pump decision logic.

pub mod addr;
pub mod chain;
pub mod codec;
pub mod cons;
pub mod crypto;
pub mod dialer;
pub mod http;
pub mod listener;
pub mod models;
pub mod proxy;
pub mod pump;
pub mod relay;
pub mod socks5;
pub mod strutil;
pub mod urlinfo;
pub mod utils;

use vstd::prelude::*;

verus! {

/// A one-bit cooperative shutdown signal shared between the two
/// directions of a UDP pump.
pub struct CloseSignal {
    pub closed: bool,
}

impl CloseSignal {
    pub fn new() -> (r: CloseSignal)
        ensures
            !r.closed,
    {
        CloseSignal { closed: false }
    }

    pub fn is_closed(&self) -> (r: bool)
        ensures
            r == self.closed,
    {
        self.closed
    }

    pub fn close(&mut self)
        ensures
            final(self).closed,
    {
        self.closed = true;
    }
}

} // verus!
