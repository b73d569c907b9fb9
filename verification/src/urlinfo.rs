//! URL facts the client needs, behind trusted wrappers over the `url`
//! crate: the host/port/scheme of a link, and the pieces an outer-proxy
//! URL carries.

use vstd::prelude::*;

use crate::strutil;
use crate::strutil::dec_of;

verus! {

/// Whether `Url::parse` accepts a text.
pub uninterp spec fn url_ok(s: Seq<char>) -> bool;

/// The displayed host of a parsed URL, `None` where parsing fails or the
/// URL has no host.
pub uninterp spec fn url_host_of(s: Seq<char>) -> Option<Seq<char>>;

/// The explicit port of a parsed URL (`None` also for a scheme's default
/// port, which the `url` crate normalizes away).
pub uninterp spec fn url_port_of(s: Seq<char>) -> Option<u16>;

/// The scheme of a parsed URL.
pub uninterp spec fn url_scheme_of(s: Seq<char>) -> Seq<char>;

/// The `host:port` slice (`BeforeHost..AfterPort`) of a parsed URL.
pub uninterp spec fn url_hostport_of(s: Seq<char>) -> Seq<char>;

/// The username of a parsed URL (empty where none).
pub uninterp spec fn url_user_of(s: Seq<char>) -> Seq<char>;

/// The password of a parsed URL, where one is present.
pub uninterp spec fn url_pass_of(s: Seq<char>) -> Option<Seq<char>>;

/// Relies on url's `Url::parse` and its `host`, `port` and `scheme`
/// accessors: what a URL text parses to is a function of the text alone.
/// `None` where parsing fails or the URL carries no host.
#[verifier::external_body]
pub(crate) fn parse_url_addr(link: &str) -> (r: Option<(String, Option<u16>, String)>)
    ensures
        r is Some <==> (url_ok(link@) && url_host_of(link@) is Some),
        r matches Some(t) ==> Some(t.0@) == url_host_of(link@) && t.1 == url_port_of(link@) && t.2@
            == url_scheme_of(link@),
{
    match url::Url::parse(link) {
        Ok(u) => match u.host() {
            Some(h) => {
                let host = format!("{}", h);
                Some((host, u.port(), u.scheme().to_string()))
            },
            None => None,
        },
        Err(_) => None,
    }
}

/// Relies on url's `Url::parse` and its `scheme`, `username` and
/// `password` accessors, and on indexing the parsed URL with
/// `Position::BeforeHost..Position::AfterPort`.
#[verifier::external_body]
pub(crate) fn parse_url_proxy(link: &str) -> (r: Option<
    (String, String, String, Option<String>),
>)
    ensures
        r is Some <==> url_ok(link@),
        r matches Some(t) ==> {
            &&& t.0@ == url_scheme_of(link@)
            &&& t.1@ == url_hostport_of(link@)
            &&& t.2@ == url_user_of(link@)
            &&& match t.3 {
                Some(p) => url_pass_of(link@) == Some(p@),
                None => url_pass_of(link@) is None,
            }
        },
{
    match url::Url::parse(link) {
        Ok(u) => {
            let addr = u[url::Position::BeforeHost..url::Position::AfterPort].to_string();
            let pass = match u.password() {
                Some(p) => Some(p.to_string()),
                None => None,
            };
            Some((u.scheme().to_string(), addr, u.username().to_string(), pass))
        },
        Err(_) => None,
    }
}

/// The `host:port` a link denotes: its explicit port where one stands in
/// the link, else 443 for the schemes that TLS serves (`https`, `wss`),
/// else 80.
pub open spec fn spec_get_addr(link: Seq<char>) -> Option<Seq<char>> {
    if url_ok(link) && url_host_of(link) is Some {
        let host = url_host_of(link).unwrap();
        match url_port_of(link) {
            Some(p) => Some(host + seq![':'] + dec_of(p as nat)),
            None => {
                if url_scheme_of(link) == "https"@ || url_scheme_of(link) == "wss"@ {
                    Some(host + seq![':'] + dec_of(443nat))
                } else {
                    Some(host + seq![':'] + dec_of(80nat))
                }
            },
        }
    } else {
        None
    }
}

/// The `host:port` of a link, `None` where it has no host.
pub fn get_addr(link: &str) -> (r: Option<String>)
    ensures
        match r {
            Some(s) => spec_get_addr(link@) == Some(s@),
            None => spec_get_addr(link@) is None,
        },
{
    match parse_url_addr(link) {
        Some((host, port, scheme)) => {
            let mut v = strutil::string_to_chars(host.as_str());
            v.push(':');
            let p: u16 = match port {
                Some(p) => p,
                None => {
                    if strutil::str_eq(scheme.as_str(), "https") || strutil::str_eq(
                        scheme.as_str(),
                        "wss",
                    ) {
                        443
                    } else {
                        80
                    }
                },
            };
            let mut d = strutil::dec_chars(p as usize);
            v.append(&mut d);
            proof {
                assert(v@ =~= spec_get_addr(link@).unwrap());
            }
            Some(strutil::chars_to_string(&v))
        },
        None => None,
    }
}

} // verus!
