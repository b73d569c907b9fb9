//! The data model: commands, header frames, their encrypted wire form,
//! configuration records and the client-side proxy chain.

use vstd::prelude::*;
use vstd::string::*;

use crate::utils;

verus! {

/// The per-hop command carried inside an encrypted header.
#[derive(Clone, Copy, Debug, PartialEq, Eq, Structural)]
pub enum Cmds {
    Relay,
    Connect,
    Bind,
    UdpAssoc,
}

/// The wire byte of each command.
pub open spec fn cmd_code(c: Cmds) -> u8 {
    match c {
        Cmds::Relay => 0,
        Cmds::Connect => 1,
        Cmds::Bind => 2,
        Cmds::UdpAssoc => 3,
    }
}

pub fn cmd_to_byte(c: Cmds) -> (r: u8)
    ensures
        r == cmd_code(c),
{
    match c {
        Cmds::Relay => 0,
        Cmds::Connect => 1,
        Cmds::Bind => 2,
        Cmds::UdpAssoc => 3,
    }
}

pub fn cmd_from_byte(b: u8) -> (r: Option<Cmds>)
    ensures
        match r {
            Some(c) => cmd_code(c) == b,
            None => b >= 4,
        },
{
    match b {
        0 => Some(Cmds::Relay),
        1 => Some(Cmds::Connect),
        2 => Some(Cmds::Bind),
        3 => Some(Cmds::UdpAssoc),
        _ => None,
    }
}

/// One layer's plaintext header: the command, its parameter (the next
/// address, or the egress target), and random padding that hides the
/// header's size inside the encryption.
#[derive(Debug)]
pub struct HeaderFrame {
    pub cmd: Cmds,
    pub param: String,
    pub padding: Vec<u8>,
}

/// The encrypted wire form of one layer's header: a fresh 96-bit nonce,
/// the client's ephemeral X25519 public key, and the AES-256-GCM
/// ciphertext of the serialized [`HeaderFrame`].
#[derive(Debug)]
pub struct EncHeader {
    pub nonce: Vec<u8>,
    pub pubkey: Vec<u8>,
    pub ciphertext: Vec<u8>,
}

impl EncHeader {
    /// A well-formed encrypted header carries a 96-bit nonce and a
    /// 32-byte X25519 public key.
    pub open spec fn wf(&self) -> bool {
        &&& self.nonce@.len() == 12
        &&& self.pubkey@.len() == 32
    }
}

/// One relay as the client's configuration lists it.
#[derive(Debug)]
pub struct ServerInfo {
    pub name: String,
    pub addr: String,
    pub pubkey: String,
}

/// Two server records with the same contents.
pub open spec fn info_eq(a: ServerInfo, b: ServerInfo) -> bool {
    &&& a.name@ == b.name@
    &&& a.addr@ == b.addr@
    &&& a.pubkey@ == b.pubkey@
}

impl Clone for ServerInfo {
    fn clone(&self) -> (r: Self)
        ensures
            info_eq(r, *self),
    {
        ServerInfo { name: self.name.clone(), addr: self.addr.clone(), pubkey: self.pubkey.clone() }
    }
}

impl ServerInfo {
    /// The relay header that forwards to this server.
    pub fn to_header_frame(&self) -> (r: HeaderFrame)
        ensures
            r.cmd == Cmds::Relay,
            r.param@ == self.addr@,
            128 <= r.padding@.len() < 1024,
    {
        HeaderFrame { cmd: Cmds::Relay, param: self.addr.clone(), padding: utils::rand_padding() }
    }
}

/// The relay server's configuration.
#[derive(Debug)]
pub struct ServerConfigs {
    pub loglevel: String,
    pub listen: String,
    pub pubkey: String,
    pub secret: String,
}

impl Default for ServerConfigs {
    fn default() -> (r: ServerConfigs)
        ensures
            r.loglevel@ == "info"@,
            r.listen@ == "127.0.0.1:3001"@,
            r.pubkey@.len() == 0,
            r.secret@.len() == 0,
    {
        ServerConfigs {
            loglevel: String::from_str("info"),
            listen: String::from_str("127.0.0.1:3001"),
            pubkey: String::new(),
            secret: String::new(),
        }
    }
}

/// The client's configuration.
#[derive(Debug)]
pub struct ClientConfigs {
    pub loglevel: String,
    pub listen: String,
    pub length: usize,
    pub proxy: String,
    pub inlets: Vec<ServerInfo>,
    pub outlets: Vec<ServerInfo>,
    pub relays: Vec<ServerInfo>,
}

impl Default for ClientConfigs {
    fn default() -> (r: ClientConfigs)
        ensures
            r.loglevel@ == "info"@,
            r.listen@ == "127.0.0.1:1080"@,
            r.length == 3,
            r.proxy@.len() == 0,
            r.inlets@.len() == 0,
            r.outlets@.len() == 0,
            r.relays@.len() == 0,
    {
        ClientConfigs {
            loglevel: String::from_str("info"),
            listen: String::from_str("127.0.0.1:1080"),
            length: 3,
            proxy: String::new(),
            inlets: Vec::new(),
            outlets: Vec::new(),
            relays: Vec::new(),
        }
    }
}

/// The client-side plan for one tunnel: the first hop to dial, the layer
/// headers to send outermost first, the confirmation hash each hop owes,
/// and names for logging.
#[derive(Debug)]
pub struct ProxyChain {
    pub next: String,
    pub headers: Vec<EncHeader>,
    pub hashes: Vec<Vec<u8>>,
    pub names: Vec<String>,
}

} // verus!
