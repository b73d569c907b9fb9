//! The chain builder: pick one outlet, `length` relays and one inlet at
//! random, then wrap the egress header in one encryption layer per node,
//! innermost (outlet) first, under a fresh ephemeral X25519 keypair.
//! Without at least one outlet and one inlet there is no chain.

use vstd::prelude::*;
use vstd::string::*;
use vstd::utf8::encode_utf8;

use crate::codec;
use crate::codec::{parse_header_json, spec_header_json};
use crate::crypto;
use crate::models::{
    cmd_code, info_eq, ClientConfigs, Cmds, EncHeader, HeaderFrame, ProxyChain, ServerInfo,
};
use crate::utils;

verus! {

/// A config entry whose public key is well-formed base64 for 32 bytes.
pub open spec fn valid_key(s: ServerInfo) -> bool {
    crypto::b64_decode_of(s.pubkey@) matches Some(b) && b.len() == 32
}

pub open spec fn all_valid(pool: Seq<ServerInfo>) -> bool {
    forall|i: int| 0 <= i < pool.len() ==> valid_key(#[trigger] pool[i])
}

/// A config entry whose address fits a relay header's parameter bound.
pub open spec fn addr_fits(s: ServerInfo) -> bool {
    encode_utf8(s.addr@).len() <= codec::HEADER_PARAM_MAX
}

pub open spec fn all_addrs_fit(pool: Seq<ServerInfo>) -> bool {
    forall|i: int| 0 <= i < pool.len() ==> addr_fits(#[trigger] pool[i])
}

/// Whether a record came from a pool, by contents.
pub open spec fn from_pool(x: ServerInfo, pool: Seq<ServerInfo>) -> bool {
    exists|i: int| 0 <= i < pool.len() && info_eq(x, #[trigger] pool[i])
}

pub open spec fn from_some_pool(x: ServerInfo, cfg: ClientConfigs) -> bool {
    ||| from_pool(x, cfg.outlets@)
    ||| from_pool(x, cfg.relays@)
    ||| from_pool(x, cfg.inlets@)
}

/// How many nodes the selection yields: one outlet and one inlet, and
/// `length` relays where that pool is nonempty.
pub open spec fn expected_nodes(cfg: ClientConfigs) -> int {
    (if cfg.outlets@.len() > 0 {
        1int
    } else {
        0int
    }) + (if cfg.relays@.len() > 0 {
        cfg.length as int
    } else {
        0int
    }) + (if cfg.inlets@.len() > 0 {
        1int
    } else {
        0int
    })
}

/// The inputs on which a chain is owed: an outlet and an inlet to pick,
/// every pool key well-formed, and every header parameter (the egress
/// target and each node address) and the tail's padding within the
/// codec's size bounds.
pub open spec fn chain_ready(cfg: ClientConfigs, tail: HeaderFrame) -> bool {
    &&& cfg.outlets@.len() > 0
    &&& cfg.inlets@.len() > 0
    &&& all_valid(cfg.outlets@)
    &&& all_valid(cfg.relays@)
    &&& all_valid(cfg.inlets@)
    &&& all_addrs_fit(cfg.outlets@)
    &&& all_addrs_fit(cfg.relays@)
    &&& all_addrs_fit(cfg.inlets@)
    &&& encode_utf8(tail.param@).len() <= codec::HEADER_PARAM_MAX
    &&& tail.padding@.len() <= codec::HEADER_PADDING_MAX
}

/// One wire layer sealed for one hop: the hop's static key decodes, the
/// ciphertext is the frame's JSON encrypted under the SHA-256 of the
/// base64 Diffie-Hellman key of the ephemeral secret and that static
/// key, and the hash is the confirmation the hop owes back.
pub open spec fn layer_sealed(
    h: EncHeader,
    hash: Vec<u8>,
    eph: Seq<u8>,
    node: ServerInfo,
    f: HeaderFrame,
) -> bool {
    crypto::b64_decode_of(node.pubkey@) matches Some(pk) && {
        let key = crypto::b64_of(crypto::dh_of(eph, pk));
        &&& pk.len() == 32
        &&& h.ciphertext@ == crypto::aes_seal_of(
            crypto::sha256_of(key),
            h.nonce@,
            spec_header_json(f),
        )
        &&& hash@ == crypto::sha256_of(key + spec_header_json(f))
        &&& parse_header_json(spec_header_json(f)) == Some(
            (cmd_code(f.cmd), f.param@, f.padding@),
        )
    }
}

/// The chain is one hop walk under one ephemeral secret: `lns` lists the
/// hop behind each wire position (outermost first) and `lfs` the frame
/// its layer encrypts. Every layer is sealed for its own hop, every
/// header carries the one ephemeral public key, each frame but the
/// innermost relays to the next hop inward, the innermost frame is the
/// egress tail, and the chain dials the outermost hop's address.
pub open spec fn chain_linked(
    cfg: ClientConfigs,
    tail: HeaderFrame,
    ch: ProxyChain,
    eph: Seq<u8>,
    lns: Seq<ServerInfo>,
    lfs: Seq<HeaderFrame>,
) -> bool {
    let k = ch.headers@.len() as int;
    &&& eph.len() == 32
    &&& lns.len() == k
    &&& lfs.len() == k
    &&& forall|i: int| 0 <= i < k ==> from_some_pool(#[trigger] lns[i], cfg)
    &&& forall|i: int|
        0 <= i < k ==> layer_sealed(#[trigger] ch.headers@[i], ch.hashes@[i], eph, lns[i], lfs[i])
    &&& forall|i: int|
        0 <= i < k ==> (#[trigger] ch.headers@[i]).pubkey@ == crypto::x25519_pub_of(eph)
    &&& forall|i: int|
        0 <= i < k - 1 ==> (#[trigger] lfs[i]).cmd == Cmds::Relay && lfs[i].param@ == lns[i
            + 1].addr@
    &&& k > 0 ==> lfs[k - 1] == tail
    &&& k > 0 ==> ch.next@ == lns[0].addr@
}

/// A record with the same contents came from the same pool.
proof fn lemma_pool_transfer(a: ServerInfo, b: ServerInfo, cfg: ClientConfigs)
    requires
        info_eq(a, b),
        from_some_pool(b, cfg),
    ensures
        from_some_pool(a, cfg),
{
    if from_pool(b, cfg.outlets@) {
        let i = choose|i: int| 0 <= i < cfg.outlets@.len() && info_eq(b, #[trigger] cfg.outlets@[i]);
        assert(info_eq(a, cfg.outlets@[i]));
    } else if from_pool(b, cfg.relays@) {
        let i = choose|i: int| 0 <= i < cfg.relays@.len() && info_eq(b, #[trigger] cfg.relays@[i]);
        assert(info_eq(a, cfg.relays@[i]));
    } else {
        let i = choose|i: int| 0 <= i < cfg.inlets@.len() && info_eq(b, #[trigger] cfg.inlets@[i]);
        assert(info_eq(a, cfg.inlets@[i]));
    }
}

/// A pool record's key and address obey the pool-wide bounds.
proof fn lemma_pool_bounds(x: ServerInfo, cfg: ClientConfigs)
    requires
        from_some_pool(x, cfg),
        all_valid(cfg.outlets@),
        all_valid(cfg.relays@),
        all_valid(cfg.inlets@),
        all_addrs_fit(cfg.outlets@),
        all_addrs_fit(cfg.relays@),
        all_addrs_fit(cfg.inlets@),
    ensures
        valid_key(x),
        addr_fits(x),
{
    if from_pool(x, cfg.outlets@) {
        let i = choose|i: int| 0 <= i < cfg.outlets@.len() && info_eq(x, #[trigger] cfg.outlets@[i]);
        assert(valid_key(cfg.outlets@[i]) && addr_fits(cfg.outlets@[i]));
    } else if from_pool(x, cfg.relays@) {
        let i = choose|i: int| 0 <= i < cfg.relays@.len() && info_eq(x, #[trigger] cfg.relays@[i]);
        assert(valid_key(cfg.relays@[i]) && addr_fits(cfg.relays@[i]));
    } else {
        let i = choose|i: int| 0 <= i < cfg.inlets@.len() && info_eq(x, #[trigger] cfg.inlets@[i]);
        assert(valid_key(cfg.inlets@[i]) && addr_fits(cfg.inlets@[i]));
    }
}

/// Draw the node list: one random outlet, `length` random relays (with
/// replacement), one random inlet; an empty relay pool contributes
/// nothing.
fn pick_nodes(cfg: &ClientConfigs) -> (r: Vec<ServerInfo>)
    ensures
        r@.len() == expected_nodes(*cfg),
        cfg.outlets@.len() > 0 ==> from_pool(r@[0], cfg.outlets@),
        cfg.inlets@.len() > 0 ==> from_pool(r@[r@.len() - 1], cfg.inlets@),
        forall|j: int|
            {
                let ob = if cfg.outlets@.len() > 0 {
                    1int
                } else {
                    0int
                };
                let rc = if cfg.relays@.len() > 0 {
                    cfg.length as int
                } else {
                    0int
                };
                ob <= j < ob + rc ==> from_pool(#[trigger] r@[j], cfg.relays@)
            },
        forall|i: int| 0 <= i < r@.len() ==> from_some_pool(#[trigger] r@[i], *cfg),
{
    let ghost ob: int = if cfg.outlets@.len() > 0 {
        1int
    } else {
        0int
    };
    let mut nodes: Vec<ServerInfo> = Vec::new();
    if cfg.outlets.len() > 0 {
        let oi = crypto::rand_range(0, cfg.outlets.len());
        nodes.push(cfg.outlets[oi].clone());
    }
    if cfg.relays.len() > 0 {
        let mut t: usize = 0;
        while t < cfg.length
            invariant
                t <= cfg.length,
                cfg.relays@.len() > 0,
                ob == (if cfg.outlets@.len() > 0 {
                    1int
                } else {
                    0int
                }),
                nodes@.len() == ob + t,
                cfg.outlets@.len() > 0 ==> from_pool(nodes@[0], cfg.outlets@),
                forall|j: int| ob <= j < nodes@.len() ==> from_pool(#[trigger] nodes@[j], cfg.relays@),
                forall|i: int| 0 <= i < nodes@.len() ==> from_some_pool(#[trigger] nodes@[i], *cfg),
            decreases cfg.length - t,
        {
            let ri = crypto::rand_range(0, cfg.relays.len());
            let ghost pre = nodes@;
            let picked = cfg.relays[ri].clone();
            proof {
                assert(info_eq(picked, cfg.relays@[ri as int]));
            }
            nodes.push(picked);
            proof {
                assert(nodes@ == pre.push(picked));
                assert(nodes@[nodes@.len() - 1] == picked);
                assert(from_pool(picked, cfg.relays@));
                assert forall|j: int| 0 <= j < pre.len() implies nodes@[j] == pre[j] by {}
            }
            t = t + 1;
        }
    }
    if cfg.inlets.len() > 0 {
        let ii = crypto::rand_range(0, cfg.inlets.len());
        nodes.push(cfg.inlets[ii].clone());
    }
    nodes
}

/// One more layer in front keeps the walk linked: prepending a sealed
/// layer for `node`, encrypting frame `f`, preserves every per-layer
/// clause, with the new frame relaying to the hop that led before.
proof fn lemma_extend(
    cfg: ClientConfigs,
    eph: Seq<u8>,
    tailf: HeaderFrame,
    h0: Seq<EncHeader>,
    s0: Seq<Vec<u8>>,
    ln0: Seq<ServerInfo>,
    lf0: Seq<HeaderFrame>,
    eh: EncHeader,
    hash: Vec<u8>,
    node: ServerInfo,
    f: HeaderFrame,
    h1: Seq<EncHeader>,
    s1: Seq<Vec<u8>>,
    ln1: Seq<ServerInfo>,
    lf1: Seq<HeaderFrame>,
)
    requires
        s0.len() == h0.len(),
        ln0.len() == h0.len(),
        lf0.len() == h0.len(),
        h1 == h0.insert(0, eh),
        s1 == s0.insert(0, hash),
        ln1 == ln0.insert(0, node),
        lf1 == lf0.insert(0, f),
        forall|i: int| 0 <= i < h0.len() ==> from_some_pool(#[trigger] ln0[i], cfg),
        forall|i: int|
            0 <= i < h0.len() ==> layer_sealed(#[trigger] h0[i], s0[i], eph, ln0[i], lf0[i]),
        forall|i: int| 0 <= i < h0.len() ==> (#[trigger] h0[i]).wf(),
        forall|i: int| 0 <= i < h0.len() ==> (#[trigger] h0[i]).pubkey@ == crypto::x25519_pub_of(eph),
        forall|i: int|
            0 <= i < lf0.len() - 1 ==> (#[trigger] lf0[i]).cmd == Cmds::Relay && lf0[i].param@
                == ln0[i + 1].addr@,
        h0.len() > 0 ==> lf0[lf0.len() - 1] == tailf,
        h0.len() == 0 ==> f == tailf,
        h0.len() > 0 ==> (f.cmd == Cmds::Relay && f.param@ == ln0[0].addr@),
        from_some_pool(node, cfg),
        layer_sealed(eh, hash, eph, node, f),
        eh.wf(),
        eh.pubkey@ == crypto::x25519_pub_of(eph),
    ensures
        s1.len() == h1.len(),
        ln1.len() == h1.len(),
        lf1.len() == h1.len(),
        h1.len() == h0.len() + 1,
        forall|i: int| 0 <= i < h1.len() ==> from_some_pool(#[trigger] ln1[i], cfg),
        forall|i: int|
            0 <= i < h1.len() ==> layer_sealed(#[trigger] h1[i], s1[i], eph, ln1[i], lf1[i]),
        forall|i: int| 0 <= i < h1.len() ==> (#[trigger] h1[i]).wf(),
        forall|i: int| 0 <= i < h1.len() ==> (#[trigger] h1[i]).pubkey@ == crypto::x25519_pub_of(eph),
        forall|i: int|
            0 <= i < lf1.len() - 1 ==> (#[trigger] lf1[i]).cmd == Cmds::Relay && lf1[i].param@
                == ln1[i + 1].addr@,
        lf1[lf1.len() - 1] == tailf,
        ln1[0] == node,
{
    h0.insert_ensures(0, eh);
    s0.insert_ensures(0, hash);
    ln0.insert_ensures(0, node);
    lf0.insert_ensures(0, f);
    assert forall|i: int| 0 <= i < h1.len() implies from_some_pool(#[trigger] ln1[i], cfg) by {
        if i > 0 {
            assert(ln1[i] == ln0[i - 1]);
        }
    }
    assert forall|i: int|
        0 <= i < h1.len() implies layer_sealed(#[trigger] h1[i], s1[i], eph, ln1[i], lf1[i]) by {
        if i > 0 {
            assert(h1[i] == h0[i - 1] && s1[i] == s0[i - 1] && ln1[i] == ln0[i - 1] && lf1[i]
                == lf0[i - 1]);
        }
    }
    assert forall|i: int|
        0 <= i < h1.len() implies (#[trigger] h1[i]).wf() && h1[i].pubkey@
        == crypto::x25519_pub_of(eph) by {
        if i > 0 {
            assert(h1[i] == h0[i - 1]);
        }
    }
    assert forall|i: int|
        0 <= i < lf1.len() - 1 implies (#[trigger] lf1[i]).cmd == Cmds::Relay && lf1[i].param@
        == ln1[i + 1].addr@ by {
        if i == 0 {
            assert(lf1[0] == f && ln1[1] == ln0[0]);
        } else {
            assert(lf1[i] == lf0[i - 1] && ln1[i + 1] == ln0[i]);
        }
    }
    if h0.len() > 0 {
        assert(lf1[lf1.len() - 1] == lf0[lf0.len() - 1]);
    } else {
        assert(lf1[0] == f);
    }
}

/// Build the layered chain for one tunnel.
///
/// Without an outlet and an inlet there is no chain. On success the
/// layers form one linked hop walk under one fresh ephemeral key
/// ([`chain_linked`]), outermost (inlet) first, and the name list ends
/// with the egress target (with a leading marker when an outer proxy is
/// configured). With well-keyed pools the chain is exactly one layer per
/// selected node, and on [`chain_ready`] inputs a chain is owed.
#[verifier::rlimit(100)]
pub fn make_chain(cfg: &ClientConfigs, tail: HeaderFrame) -> (r: Option<ProxyChain>)
    ensures
        (cfg.outlets@.len() == 0 || cfg.inlets@.len() == 0) ==> r is None,
        r matches Some(ch) ==> {
            let pfx: int = if cfg.proxy@.len() > 0 {
                1int
            } else {
                0int
            };
            &&& ch.hashes@.len() == ch.headers@.len()
            &&& ch.names@.len() == ch.headers@.len() + 1 + pfx
            &&& ch.headers@.len() >= 1
            &&& forall|i: int| 0 <= i < ch.headers@.len() ==> (#[trigger] ch.headers@[i]).wf()
            &&& ch.names@[ch.names@.len() - 1]@ == tail.param@
            &&& exists|eph: Seq<u8>, lns: Seq<ServerInfo>, lfs: Seq<HeaderFrame>|
                chain_linked(*cfg, tail, ch, eph, lns, lfs)
        },
        (all_valid(cfg.outlets@) && all_valid(cfg.relays@) && all_valid(cfg.inlets@)) ==> (r
            matches Some(ch) ==> {
            let k = expected_nodes(*cfg);
            let pfx: int = if cfg.proxy@.len() > 0 {
                1int
            } else {
                0int
            };
            &&& ch.headers@.len() == k
            &&& ch.names@[pfx + k]@ == tail.param@
            &&& (cfg.inlets@.len() > 0 ==> exists|ii: int|
                0 <= ii < cfg.inlets@.len() && ch.names@[pfx]@ == (
                #[trigger] cfg.inlets@[ii]).name@ && ch.next@ == cfg.inlets@[ii].addr@)
            &&& (cfg.outlets@.len() > 0 ==> exists|oi: int|
                0 <= oi < cfg.outlets@.len() && ch.names@[pfx + k - 1]@ == (
                #[trigger] cfg.outlets@[oi]).name@)
        }),
        chain_ready(*cfg, tail) ==> r is Some,
{
    if cfg.outlets.len() == 0 || cfg.inlets.len() == 0 {
        return None;
    }
    let secret = crypto::generate_secret();
    let pubkey = crypto::x25519_derive_public(&secret);
    let ghost eph: Seq<u8> = secret@;

    let nodes = pick_nodes(cfg);
    let n = nodes.len();
    if n < 1 {
        return None;
    }
    let ghost av: bool = all_valid(cfg.outlets@) && all_valid(cfg.relays@) && all_valid(
        cfg.inlets@,
    );
    let ghost rdy: bool = chain_ready(*cfg, tail);
    proof {
        if av {
            assert forall|i: int| 0 <= i < nodes@.len() implies valid_key(#[trigger] nodes@[i]) by {
                assert(from_some_pool(nodes@[i], *cfg));
            }
        }
    }

    let mut headers: Vec<EncHeader> = Vec::new();
    let mut hashes: Vec<Vec<u8>> = Vec::new();
    let mut names: Vec<String> = Vec::new();
    let mut prev: Option<ServerInfo> = None;
    let mut name: String = tail.param.clone();
    let ghost mut lns: Seq<ServerInfo> = Seq::empty();
    let ghost mut lfs: Seq<HeaderFrame> = Seq::empty();
    let mut idx: usize = 0;
    while idx < n
        invariant
            idx <= n,
            n == nodes@.len(),
            pubkey@.len() == 32,
            secret@.len() == 32,
            eph == secret@,
            pubkey@ == crypto::x25519_pub_of(eph),
            av == (all_valid(cfg.outlets@) && all_valid(cfg.relays@) && all_valid(cfg.inlets@)),
            rdy == chain_ready(*cfg, tail),
            forall|i: int| 0 <= i < nodes@.len() ==> from_some_pool(#[trigger] nodes@[i], *cfg),
            av ==> forall|i: int| 0 <= i < nodes@.len() ==> valid_key(#[trigger] nodes@[i]),
            hashes@.len() == headers@.len(),
            names@.len() == headers@.len(),
            lns.len() == headers@.len(),
            lfs.len() == headers@.len(),
            headers@.len() <= idx,
            prev is Some <==> headers@.len() > 0,
            prev is None ==> name@ == tail.param@,
            headers@.len() > 0 ==> names@[names@.len() - 1]@ == tail.param@,
            headers@.len() > 0 ==> (prev matches Some(p) && p == lns[0]),
            headers@.len() > 0 ==> lfs[lfs.len() - 1] == tail,
            forall|i: int| 0 <= i < lns.len() ==> from_some_pool(#[trigger] lns[i], *cfg),
            forall|i: int|
                0 <= i < headers@.len() ==> layer_sealed(
                    #[trigger] headers@[i],
                    hashes@[i],
                    eph,
                    lns[i],
                    lfs[i],
                ),
            forall|i: int| 0 <= i < headers@.len() ==> (#[trigger] headers@[i]).wf(),
            forall|i: int|
                0 <= i < headers@.len() ==> (#[trigger] headers@[i]).pubkey@
                    == crypto::x25519_pub_of(eph),
            forall|i: int|
                0 <= i < lfs.len() - 1 ==> (#[trigger] lfs[i]).cmd == Cmds::Relay && lfs[i].param@
                    == lns[i + 1].addr@,
            av ==> headers@.len() == idx,
            av && idx > 0 ==> (prev matches Some(p) && info_eq(p, nodes@[idx - 1])),
            av && idx > 0 ==> names@[idx - 1]@ == tail.param@,
            av ==> forall|t: int| 0 <= t < idx - 1 ==> names@[t]@ == nodes@[idx - 2 - t].name@,
        decreases n - idx,
    {
        let node = &nodes[idx];
        match utils::b64_to_pubkey(node.pubkey.as_str()) {
            Some(their_pub) => {
                let key = utils::shared_key(&secret, &their_pub);
                let cloned = node.clone();
                let ghost cg: ServerInfo = cloned;
                proof {
                    lemma_pool_transfer(cloned, nodes@[idx as int], *cfg);
                }
                let ghost mut fsnap: HeaderFrame = tail;
                let enc_res = match &prev {
                    Some(p) => {
                        name = p.name.clone();
                        let f = p.to_header_frame();
                        proof {
                            fsnap = f;
                            if rdy {
                                lemma_pool_bounds(lns[0], *cfg);
                            }
                        }
                        f.encrypt(key.as_str(), &pubkey)
                    },
                    None => tail.encrypt(key.as_str(), &pubkey),
                };
                prev = Some(cloned);
                match enc_res {
                    Some((eh, hash)) => {
                        proof {
                            assert(crypto::b64_decode_of(cg.pubkey@) == Some(their_pub@));
                            assert(layer_sealed(eh, hash, eph, cg, fsnap));
                        }
                        let ghost h0 = headers@;
                        let ghost s0 = hashes@;
                        let ghost m0 = names@;
                        let ghost nm = name@;
                        let ghost ln0 = lns;
                        let ghost lf0 = lfs;
                        let ghost ehg = eh;
                        let ghost hashg = hash;
                        headers.insert(0, eh);
                        hashes.insert(0, hash);
                        let nc = name.clone();
                        let ghost ncg = nc;
                        names.insert(0, nc);
                        proof {
                            lns = ln0.insert(0, cg);
                            lfs = lf0.insert(0, fsnap);
                            lemma_extend(
                                *cfg,
                                eph,
                                tail,
                                h0,
                                s0,
                                ln0,
                                lf0,
                                ehg,
                                hashg,
                                cg,
                                fsnap,
                                headers@,
                                hashes@,
                                lns,
                                lfs,
                            );
                            m0.insert_ensures(0, ncg);
                            assert(names@[0]@ == nm);
                            assert(forall|i: int| 0 <= i < m0.len() ==> names@[i + 1] == m0[i]);
                        }
                    },
                    None => {
                        proof {
                            if rdy {
                                assert(encode_utf8(fsnap.param@).len() <= codec::HEADER_PARAM_MAX);
                                assert(fsnap.padding@.len() <= codec::HEADER_PADDING_MAX);
                                assert(false);
                            }
                        }
                        return None;
                    },
                }
            },
            None => {
                proof {
                    if av {
                        assert(from_some_pool(nodes@[idx as int], *cfg));
                        assert(valid_key(nodes@[idx as int]));
                        assert(false);
                    }
                }
            },
        }
        idx = idx + 1;
    }
    match prev {
        Some(p) => {
            names.insert(0, p.name.clone());
            if cfg.proxy.as_str().is_empty() {
                let pc = ProxyChain { next: p.addr.clone(), headers, hashes, names };
                proof {
                    assert(chain_linked(*cfg, tail, pc, eph, lns, lfs));
                }
                Some(pc)
            } else {
                names.insert(0, String::from_str("proxy"));
                let pc = ProxyChain { next: p.addr.clone(), headers, hashes, names };
                proof {
                    assert(chain_linked(*cfg, tail, pc, eph, lns, lfs));
                }
                Some(pc)
            }
        },
        None => {
            proof {
                if rdy {
                    assert(false);
                }
            }
            None
        },
    }
}

} // verus!
