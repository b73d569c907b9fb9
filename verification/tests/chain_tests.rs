use onionws::chain;
use onionws::dialer;
use onionws::models::{ClientConfigs, Cmds, HeaderFrame, ServerInfo};
use onionws::utils;

fn server(name: &str, addr: &str) -> ServerInfo {
    let (pubkey, _) = utils::generate_x25519_keypair();
    ServerInfo { name: name.to_string(), addr: addr.to_string(), pubkey }
}

#[test]
fn make_chain_test() {
    let mut cfg = ClientConfigs::default();

    let target = "bing.com:443";
    let tail = HeaderFrame {
        cmd: Cmds::Connect,
        param: target.to_string(),
        padding: utils::rand_padding(),
    };

    let (serv_pub, _) = utils::generate_x25519_keypair();
    cfg.relays = vec![ServerInfo {
        name: "hello".to_string(),
        addr: "ws://127.0.0.1:1234".to_string(),
        pubkey: serv_pub.to_string(),
    }];

    // relays alone make no chain: without an outlet and an inlet the
    // builder aborts
    assert!(chain::make_chain(&cfg, tail).is_none());
}

#[test]
fn chain_shape_one_relay() {
    let mut cfg = ClientConfigs::default();
    cfg.length = 1;
    cfg.inlets = vec![server("in", "ws://127.0.0.1:3001")];
    cfg.outlets = vec![server("out", "ws://127.0.0.1:3002")];
    cfg.relays = vec![server("mid", "ws://127.0.0.1:3003")];

    let tail = HeaderFrame {
        cmd: Cmds::Connect,
        param: "127.0.0.1:9000".to_string(),
        padding: utils::rand_padding(),
    };
    let chain = chain::make_chain(&cfg, tail).unwrap();

    assert_eq!(chain.headers.len(), 3);
    assert_eq!(chain.hashes.len(), 3);
    assert_eq!(chain.names.len(), 4);
    assert_eq!(chain.names[0], "in");
    assert_eq!(chain.names[1], "mid");
    assert_eq!(chain.names[2], "out");
    assert_eq!(chain.names[3], "127.0.0.1:9000");
    assert_eq!(chain.next, "ws://127.0.0.1:3001");
    for h in chain.headers.iter() {
        assert_eq!(h.pubkey, chain.headers[0].pubkey);
        assert_eq!(h.nonce.len(), 12);
        assert_eq!(h.pubkey.len(), 32);
    }
}

#[test]
fn chain_empty_pools_yield_nothing() {
    let mut cfg = ClientConfigs::default();
    cfg.length = 0;
    let tail = HeaderFrame {
        cmd: Cmds::UdpAssoc,
        param: String::new(),
        padding: utils::rand_padding(),
    };
    assert!(chain::make_chain(&cfg, tail).is_none());
}

#[test]
fn chain_proxy_marker_leads_names() {
    let mut cfg = ClientConfigs::default();
    cfg.length = 0;
    cfg.proxy = "http://127.0.0.1:8080".to_string();
    cfg.inlets = vec![server("in", "ws://127.0.0.1:3001")];
    cfg.outlets = vec![server("out", "ws://127.0.0.1:3002")];

    let tail = HeaderFrame {
        cmd: Cmds::Bind,
        param: "0.0.0.0:0".to_string(),
        padding: utils::rand_padding(),
    };
    let chain = chain::make_chain(&cfg, tail).unwrap();
    assert_eq!(chain.headers.len(), 2);
    assert_eq!(chain.names.len(), 4);
    assert_eq!(chain.names[0], "proxy");
    assert_eq!(chain.names[1], "in");
    assert_eq!(chain.names[2], "out");
    assert_eq!(chain.names[3], "0.0.0.0:0");
}

#[test]
fn chain_layers_decrypt_in_order() {
    let (in_pub, in_pri) = utils::generate_x25519_keypair();
    let (mid_pub, mid_pri) = utils::generate_x25519_keypair();
    let (out_pub, out_pri) = utils::generate_x25519_keypair();

    let mut cfg = ClientConfigs::default();
    cfg.length = 1;
    cfg.inlets = vec![ServerInfo {
        name: "in".to_string(),
        addr: "ws://127.0.0.1:3001".to_string(),
        pubkey: in_pub,
    }];
    cfg.relays = vec![ServerInfo {
        name: "mid".to_string(),
        addr: "ws://127.0.0.1:3002".to_string(),
        pubkey: mid_pub,
    }];
    cfg.outlets = vec![ServerInfo {
        name: "out".to_string(),
        addr: "ws://127.0.0.1:3003".to_string(),
        pubkey: out_pub,
    }];

    let tail = dialer::make_tail(Cmds::Connect, "127.0.0.1:9000");
    let c = chain::make_chain(&cfg, tail).unwrap();
    assert_eq!(c.headers.len(), 3);
    assert_eq!(c.next, "ws://127.0.0.1:3001");

    // each hop decrypts its own layer and finds the pointer inward
    let s_in = utils::b64_to_secret(&in_pri).unwrap();
    let (f0, h0) =
        onionws::relay::decrypt_client_header(&s_in, &c.headers[0].to_string().unwrap()).unwrap();
    assert_eq!(f0.cmd, Cmds::Relay);
    assert_eq!(f0.param, "ws://127.0.0.1:3002");
    assert_eq!(h0, c.hashes[0]);

    let s_mid = utils::b64_to_secret(&mid_pri).unwrap();
    let (f1, h1) =
        onionws::relay::decrypt_client_header(&s_mid, &c.headers[1].to_string().unwrap()).unwrap();
    assert_eq!(f1.cmd, Cmds::Relay);
    assert_eq!(f1.param, "ws://127.0.0.1:3003");
    assert_eq!(h1, c.hashes[1]);

    let s_out = utils::b64_to_secret(&out_pri).unwrap();
    let (f2, h2) =
        onionws::relay::decrypt_client_header(&s_out, &c.headers[2].to_string().unwrap()).unwrap();
    assert_eq!(f2.cmd, Cmds::Connect);
    assert_eq!(f2.param, "127.0.0.1:9000");
    assert_eq!(h2, c.hashes[2]);

    // the wrong hop's secret opens nothing
    assert!(onionws::relay::decrypt_client_header(&s_in, &c.headers[1].to_string().unwrap())
        .is_none());
}

#[test]
fn chain_always_builds_on_ready_pools() {
    let mut cfg = ClientConfigs::default();
    cfg.length = 2;
    cfg.inlets = vec![server("in", "ws://127.0.0.1:3001")];
    cfg.outlets = vec![server("out", "ws://127.0.0.1:3002")];
    cfg.relays = vec![server("r1", "ws://127.0.0.1:3003"), server("r2", "ws://127.0.0.1:3004")];
    for _ in 0..8 {
        let tail = dialer::make_tail(Cmds::Connect, "127.0.0.1:9000");
        let c = chain::make_chain(&cfg, tail).unwrap();
        assert_eq!(c.headers.len(), 4);
    }
}

#[test]
fn handshake_walks_the_chain() {
    let mut cfg = ClientConfigs::default();
    cfg.length = 0;
    cfg.inlets = vec![server("in", "ws://127.0.0.1:3001")];
    cfg.outlets = vec![server("out", "ws://127.0.0.1:3002")];
    let tail = dialer::make_tail(Cmds::Connect, "127.0.0.1:9000");
    assert_eq!(tail.cmd, Cmds::Connect);
    assert_eq!(tail.param, "127.0.0.1:9000");

    let chain = chain::make_chain(&cfg, tail).unwrap();
    let expected0 = chain.hashes[0].clone();
    let expected1 = chain.hashes[1].clone();
    let msg0 = chain.headers[0].to_string().unwrap();

    let mut hs = dialer::Handshake::start(chain);
    assert!(!hs.done());
    assert_eq!(hs.next_message().unwrap(), msg0);

    assert!(!hs.on_reply(&[1u8, 2, 3]));
    assert!(!hs.done());
    assert!(hs.on_reply(&expected0));
    assert!(!hs.done());
    assert!(hs.on_reply(&expected1));
    assert!(hs.done());
}
