//! The pump engine's decisions. The pumps themselves are two concurrent
//! copiers bounded by per-read timeouts; which messages are forwarded
//! (between WebSockets: all of them, verbatim), which are dropped, and
//! which end a direction is decided here, message by message.

use vstd::prelude::*;
use vstd::utf8::encode_utf8;

verus! {

/// A WebSocket message as plain values.
#[derive(Debug)]
pub enum WsMsg {
    Binary(Vec<u8>),
    Text(String),
    Ping,
    Pong,
    Close,
}

/// What one read of a pumped source produced.
#[derive(Debug)]
pub enum ReadEvent {
    Msg(WsMsg),
    Timeout,
    Failed,
}

/// What a WebSocket-to-WebSocket copier does with one message.
#[derive(Clone, Copy, Debug, PartialEq, Eq, Structural)]
pub enum PumpAction {
    Forward,
    ForwardThenStop,
    Skip,
    Stop,
}

/// One message's fate when forwarded WebSocket to WebSocket: every
/// message goes on verbatim, type preserved — keepalives included — and
/// only a close or an empty payload ends the direction (that frame still
/// goes out first).
pub fn ws_forward_action(m: &WsMsg) -> (r: PumpAction)
    ensures
        match m {
            WsMsg::Close => r == PumpAction::ForwardThenStop,
            WsMsg::Binary(b) => r == (if b@.len() == 0 {
                PumpAction::ForwardThenStop
            } else {
                PumpAction::Forward
            }),
            WsMsg::Text(t) => r == (if t@.len() == 0 {
                PumpAction::ForwardThenStop
            } else {
                PumpAction::Forward
            }),
            WsMsg::Ping => r == PumpAction::Forward,
            WsMsg::Pong => r == PumpAction::Forward,
        },
{
    match m {
        WsMsg::Close => PumpAction::ForwardThenStop,
        WsMsg::Binary(b) => {
            if b.len() == 0 {
                PumpAction::ForwardThenStop
            } else {
                PumpAction::Forward
            }
        },
        WsMsg::Text(t) => {
            if t.as_str().unicode_len() == 0 {
                PumpAction::ForwardThenStop
            } else {
                PumpAction::Forward
            }
        },
        WsMsg::Ping => PumpAction::Forward,
        WsMsg::Pong => PumpAction::Forward,
    }
}

/// What a WebSocket-to-TCP copier writes for one message.
#[derive(Debug)]
pub enum TcpForward {
    WriteThenContinue(Vec<u8>),
    WriteThenStop(Vec<u8>),
    Skip,
    Stop,
}

/// One message's payload toward TCP: binary and text bytes are written
/// (an empty payload ends the direction after the write), keepalives are
/// dropped, a close ends the direction with nothing written.
pub fn tcp_forward_payload(m: WsMsg) -> (r: TcpForward)
    ensures
        match m {
            WsMsg::Binary(b) => if b@.len() > 0 {
                r matches TcpForward::WriteThenContinue(w) && w@ == b@
            } else {
                r matches TcpForward::WriteThenStop(w) && w@ == b@
            },
            WsMsg::Text(t) => if t@.len() > 0 {
                r matches TcpForward::WriteThenContinue(w) && w@ == encode_utf8(t@)
            } else {
                r matches TcpForward::WriteThenStop(w) && w@ == encode_utf8(t@)
            },
            WsMsg::Ping => r is Skip,
            WsMsg::Pong => r is Skip,
            WsMsg::Close => r is Stop,
        },
{
    match m {
        WsMsg::Binary(b) => {
            if b.len() > 0 {
                TcpForward::WriteThenContinue(b)
            } else {
                TcpForward::WriteThenStop(b)
            }
        },
        WsMsg::Text(t) => {
            let n = t.as_str().unicode_len();
            let bytes = t.as_str().as_bytes_vec();
            if n > 0 {
                TcpForward::WriteThenContinue(bytes)
            } else {
                TcpForward::WriteThenStop(bytes)
            }
        },
        WsMsg::Ping => TcpForward::Skip,
        WsMsg::Pong => TcpForward::Skip,
        WsMsg::Close => TcpForward::Stop,
    }
}

/// What a UDP-facing copier does with one WebSocket message.
#[derive(Debug)]
pub enum UdpForward {
    Payload(Vec<u8>),
    Skip,
    Stop,
}

/// One message's payload toward a UDP leg: a nonempty binary payload is
/// taken, keepalives are dropped, and anything else — an empty payload,
/// a text frame, a close — ends the direction.
pub fn udp_forward_payload(m: WsMsg) -> (r: UdpForward)
    ensures
        match m {
            WsMsg::Binary(b) => if b@.len() > 0 {
                r matches UdpForward::Payload(w) && w@ == b@
            } else {
                r is Stop
            },
            WsMsg::Ping => r is Skip,
            WsMsg::Pong => r is Skip,
            WsMsg::Text(_) => r is Stop,
            WsMsg::Close => r is Stop,
        },
{
    match m {
        WsMsg::Binary(b) => {
            if b.len() > 0 {
                UdpForward::Payload(b)
            } else {
                UdpForward::Stop
            }
        },
        WsMsg::Ping => UdpForward::Skip,
        WsMsg::Pong => UdpForward::Skip,
        WsMsg::Text(_) => UdpForward::Stop,
        WsMsg::Close => UdpForward::Stop,
    }
}

/// Whether one read outcome ends its pump direction: a timeout or a
/// failed read always does; a message is judged by the copier.
pub fn read_event_stops(e: &ReadEvent) -> (r: bool)
    ensures
        r == !(e matches ReadEvent::Msg(_)),
{
    match e {
        ReadEvent::Msg(_) => false,
        ReadEvent::Timeout => true,
        ReadEvent::Failed => true,
    }
}

} // verus!
