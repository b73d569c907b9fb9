//! The outer-proxy client's logic: reading the operator's proxy URL,
//! building the HTTP CONNECT request, and classifying the tunnel reply.
//! The connecting itself is I/O and lives with the runtime.

use vstd::prelude::*;
use vstd::string::*;
use vstd::utf8::encode_utf8;

use crate::crypto;
use crate::strutil;
use crate::strutil::{dec_of, ends_with, starts_with};
use crate::urlinfo;

verus! {

/// An outer proxy the first TCP leg is routed through.
#[derive(Debug)]
pub enum InnerProxy {
    Http { auth: Option<Vec<u8>>, url: String },
    Socks { auth: Option<(String, String)>, url: String },
}

/// Why a proxy URL was refused.
#[derive(Clone, Copy, Debug, PartialEq, Eq, Structural)]
pub enum ProxyError {
    BadUrl,
    UnknownScheme,
}

/// The `Proxy-Authorization` value for basic auth: `Basic ` then the
/// base64 of `user:password`, as bytes.
pub open spec fn spec_basic_auth(user: Seq<char>, pass: Seq<char>) -> Seq<u8> {
    encode_utf8("Basic "@ + crypto::b64_of(encode_utf8(user + seq![':'] + pass)))
}

impl InnerProxy {
    /// Read the operator's proxy URL: `http`/`https` give an HTTP CONNECT
    /// proxy, `socks5`/`socks` a SOCKS5 proxy, each with the URL's
    /// `host:port` and its credentials where a password stands in it.
    pub fn from_proxy_str(proxy_str: &str) -> (r: Result<InnerProxy, ProxyError>)
        ensures
            r == Err::<InnerProxy, ProxyError>(ProxyError::BadUrl) <==> !urlinfo::url_ok(
                proxy_str@,
            ),
            r matches Ok(p) ==> urlinfo::url_ok(proxy_str@) && match p {
                InnerProxy::Http { auth, url } => {
                    &&& (urlinfo::url_scheme_of(proxy_str@) == "http"@ || urlinfo::url_scheme_of(
                        proxy_str@,
                    ) == "https"@)
                    &&& url@ == urlinfo::url_hostport_of(proxy_str@)
                    &&& match auth {
                        Some(a) => urlinfo::url_pass_of(proxy_str@) matches Some(pw) && a@
                            == spec_basic_auth(urlinfo::url_user_of(proxy_str@), pw),
                        None => urlinfo::url_pass_of(proxy_str@) is None,
                    }
                },
                InnerProxy::Socks { auth, url } => {
                    &&& (urlinfo::url_scheme_of(proxy_str@) == "socks5"@ || urlinfo::url_scheme_of(
                        proxy_str@,
                    ) == "socks"@)
                    &&& url@ == urlinfo::url_hostport_of(proxy_str@)
                    &&& match auth {
                        Some(up) => urlinfo::url_pass_of(proxy_str@) matches Some(pw) && up.0@
                            == urlinfo::url_user_of(proxy_str@) && up.1@ == pw,
                        None => urlinfo::url_pass_of(proxy_str@) is None,
                    }
                },
            },
            r == Err::<InnerProxy, ProxyError>(ProxyError::UnknownScheme) <==> (urlinfo::url_ok(
                proxy_str@,
            ) && urlinfo::url_scheme_of(proxy_str@) != "http"@ && urlinfo::url_scheme_of(
                proxy_str@,
            ) != "https"@ && urlinfo::url_scheme_of(proxy_str@) != "socks5"@
                && urlinfo::url_scheme_of(proxy_str@) != "socks"@),
    {
        let parts = match urlinfo::parse_url_proxy(proxy_str) {
            Some(t) => t,
            None => {
                return Err(ProxyError::BadUrl);
            },
        };
        let (scheme, hostport, user, pass) = parts;
        if strutil::str_eq(scheme.as_str(), "http") || strutil::str_eq(scheme.as_str(), "https") {
            let auth: Option<Vec<u8>> = match pass {
                Some(pw) => {
                    let mut cred = String::from_str(user.as_str());
                    cred.append(":");
                    cred.append(pw.as_str());
                    proof {
                        reveal_strlit(":");
                        assert(":"@ =~= seq![':']);
                        assert(cred@ == user@ + seq![':'] + pw@);
                    }
                    let b64 = crypto::b64_encode(cred.as_str().as_bytes());
                    let mut line = String::from_str("Basic ");
                    line.append(b64.as_str());
                    proof {
                        assert(line@ == "Basic "@ + crypto::b64_of(encode_utf8(
                            user@ + seq![':'] + pw@,
                        )));
                    }
                    Some(vstd::slice::slice_to_vec(line.as_str().as_bytes()))
                },
                None => None,
            };
            Ok(InnerProxy::Http { auth, url: hostport })
        } else if strutil::str_eq(scheme.as_str(), "socks5") || strutil::str_eq(
            scheme.as_str(),
            "socks",
        ) {
            let auth: Option<(String, String)> = match pass {
                Some(pw) => Some((user, pw)),
                None => None,
            };
            Ok(InnerProxy::Socks { auth, url: hostport })
        } else {
            Err(ProxyError::UnknownScheme)
        }
    }

    /// The `host:port` a WebSocket target URL names for the proxy leg:
    /// its host with its explicit port, defaulting to 443.
    pub fn target_parts(target: &str) -> (r: Option<(String, u16)>)
        ensures
            r is Some <==> (urlinfo::url_ok(target@) && urlinfo::url_host_of(target@) is Some),
            r matches Some(t) ==> Some(t.0@) == urlinfo::url_host_of(target@) && t.1 == (
            match urlinfo::url_port_of(target@) {
                Some(p) => p,
                None => 443u16,
            }),
    {
        match urlinfo::parse_url_addr(target) {
            Some((host, port, _scheme)) => {
                let p = match port {
                    Some(p) => p,
                    None => 443,
                };
                Some((host, p))
            },
            None => None,
        }
    }
}

/// The CONNECT request sent through an HTTP proxy for `host:port`, with
/// the `Proxy-Authorization` line where credentials are set.
pub open spec fn spec_connect_request(host: Seq<char>, port: u16, auth: Option<Seq<u8>>) -> Seq<
    u8,
> {
    let hp = host + seq![':'] + dec_of(port as nat);
    encode_utf8("CONNECT "@ + hp + " HTTP/1.1\r\nHost: "@ + hp + "\r\n"@) + (match auth {
        Some(a) => encode_utf8("Proxy-Authorization: "@) + a + encode_utf8("\r\n"@),
        None => Seq::<u8>::empty(),
    }) + encode_utf8("\r\n"@)
}

/// Build the CONNECT request bytes for the HTTP tunnel.
pub fn build_connect_request(host: &str, port: u16, auth: &Option<Vec<u8>>) -> (r: Vec<u8>)
    ensures
        r@ == spec_connect_request(
            host@,
            port,
            match auth {
                Some(a) => Some(a@),
                None => None,
            },
        ),
{
    let mut head = String::from_str("CONNECT ");
    head.append(host);
    head.append(":");
    let pd = strutil::dec_chars(port as usize);
    let pds = strutil::chars_to_string(&pd);
    head.append(pds.as_str());
    head.append(" HTTP/1.1\r\nHost: ");
    head.append(host);
    head.append(":");
    head.append(pds.as_str());
    head.append("\r\n");
    proof {
        reveal_strlit(":");
        assert(":"@ =~= seq![':']);
        assert(head@ =~= "CONNECT "@ + (host@ + seq![':'] + dec_of(port as nat))
            + " HTTP/1.1\r\nHost: "@ + (host@ + seq![':'] + dec_of(port as nat)) + "\r\n"@);
    }
    let mut r: Vec<u8> = Vec::new();
    strutil::push_bytes(&mut r, head.as_str().as_bytes());
    match auth {
        Some(a) => {
            let mut line = String::from_str("Proxy-Authorization: ");
            strutil::push_bytes(&mut r, line.as_str().as_bytes());
            strutil::push_bytes(&mut r, a.as_slice());
            strutil::push_bytes(&mut r, "\r\n".as_bytes());
        },
        None => {},
    }
    strutil::push_bytes(&mut r, "\r\n".as_bytes());
    proof {
        assert(r@ =~= spec_connect_request(
            host@,
            port,
            match auth {
                Some(a) => Some(a@),
                None => None,
            },
        ));
    }
    r
}

/// How far the proxy's reply bytes have got.
#[derive(Clone, Copy, Debug, PartialEq, Eq, Structural)]
pub enum TunnelReply {
    Established,
    NeedMore,
    AuthRequired,
    Refused,
}

/// What the bytes received so far from the proxy mean: a `200` status
/// completes once the blank line arrives, `407` wants credentials, and
/// anything else refuses the tunnel.
pub open spec fn spec_classify_reply(s: Seq<u8>) -> TunnelReply {
    if starts_with(s, encode_utf8("HTTP/1.1 200"@)) || starts_with(
        s,
        encode_utf8("HTTP/1.0 200"@),
    ) {
        if ends_with(s, encode_utf8("\r\n\r\n"@)) {
            TunnelReply::Established
        } else {
            TunnelReply::NeedMore
        }
    } else if starts_with(s, encode_utf8("HTTP/1.1 407"@)) {
        TunnelReply::AuthRequired
    } else {
        TunnelReply::Refused
    }
}

/// Classify the proxy's reply bytes received so far.
pub fn classify_tunnel_reply(recvd: &[u8]) -> (r: TunnelReply)
    ensures
        r == spec_classify_reply(recvd@),
{
    if strutil::bytes_start_with(recvd, "HTTP/1.1 200".as_bytes()) || strutil::bytes_start_with(
        recvd,
        "HTTP/1.0 200".as_bytes(),
    ) {
        if strutil::bytes_end_with(recvd, "\r\n\r\n".as_bytes()) {
            TunnelReply::Established
        } else {
            TunnelReply::NeedMore
        }
    } else if strutil::bytes_start_with(recvd, "HTTP/1.1 407".as_bytes()) {
        TunnelReply::AuthRequired
    } else {
        TunnelReply::Refused
    }
}

} // verus!
