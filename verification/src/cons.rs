//! Timing and buffer constants shared by the client and the relay.

use vstd::prelude::*;

verus! {

/// Timeout, in seconds, for TCP connects, WebSocket upgrades and
/// every TCP/WebSocket receive inside a pump.
pub const CONN_TIMEOUT_SECS: u64 = 180;

/// Timeout, in seconds, for UDP receives inside a pump.
pub const UDP_TIMEOUT_SECS: u64 = 1800;

/// Read buffer size for TCP and UDP receives.
pub const BUFF_LEN: usize = 4096;

} // verus!
