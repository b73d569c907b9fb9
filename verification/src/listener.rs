//! The listener's dispatch decision: the first byte of a fresh local
//! connection picks the protocol handler.

use vstd::prelude::*;

verus! {

/// Which handler serves a fresh local connection.
#[derive(Clone, Copy, Debug, PartialEq, Eq, Structural)]
pub enum Protocol {
    Socks5,
    Http,
    Unknown,
}

/// Sniff the protocol from the first byte: `0x05` opens a SOCKS5
/// negotiation; `C` (CONNECT) or `G` (GET) an HTTP request; anything
/// else is refused.
pub fn sniff_protocol(first: u8) -> (r: Protocol)
    ensures
        first == 5 ==> r == Protocol::Socks5,
        (first == 67 || first == 71) ==> r == Protocol::Http,
        !(first == 5 || first == 67 || first == 71) ==> r == Protocol::Unknown,
{
    if first == 5 {
        Protocol::Socks5
    } else if first == 67 || first == 71 {
        Protocol::Http
    } else {
        Protocol::Unknown
    }
}

} // verus!
