use onionws::codec;
use sha2::{Digest, Sha256};
use onionws::models::{Cmds, EncHeader, HeaderFrame, ServerInfo};
use onionws::utils;

#[test]
fn header_tests() {
    let (pk1, pri1) = utils::generate_x25519_keypair();

    let serv = ServerInfo {
        name: "test".to_string(),
        addr: "ws://127.0.0.1:3001".to_string(),
        pubkey: pk1.to_string(),
    };

    let hf = serv.to_header_frame();

    let (pk2, _) = utils::generate_x25519_keypair();
    let secret1 = utils::b64_to_secret(&pri1).unwrap();
    let pubkey1 = utils::b64_to_pubkey(&pk1).unwrap();

    let pubkey2 = utils::b64_to_pubkey(&pk2).unwrap();
    let key = utils::shared_key(&secret1, &pubkey2);

    let (ehf, hash) = hf.encrypt(&key, &pubkey1).unwrap();
    let (hf2, hash2) = ehf.decrypt(&key).unwrap();

    let (ehf2, hash3) = hf2.encrypt(&key, &pubkey1).unwrap();

    assert!(hash.eq(&hash2));
    assert!(hash.eq(&hash3));
    let se = ehf.to_string().unwrap();
    let se2 = ehf2.to_string().unwrap();
    assert!(!se.eq(&se2));
    assert_eq!(hf.cmd, hf2.cmd);
    assert_eq!(hf.param, hf2.param);
    assert_eq!(hf.padding, hf2.padding);
}

#[test]
fn enc_test() {
    let key = "123456中he文llo".to_string();
    let text = "hello中文1234".to_string();

    let (nonce, ciphertext) = utils::aes_encrypt(&text, &key).unwrap();
    let r = utils::aes_decrypt(&nonce, &ciphertext, &key).unwrap();

    assert_eq!(text, r);
}

#[test]
fn aes_ciphertext_is_text_plus_tag() {
    let (nonce, ct) = utils::aes_encrypt("hello", "k").unwrap();
    assert_eq!(nonce.len(), 12);
    assert_eq!(ct.len(), 5 + 16);
}

#[test]
fn aes_tamper_yields_nothing() {
    let key = "a key".to_string();
    let text = "payload".to_string();
    let (nonce, mut ciphertext) = utils::aes_encrypt(&text, &key).unwrap();
    ciphertext[0] ^= 0x01;
    assert!(utils::aes_decrypt(&nonce, &ciphertext, &key).is_none());
}

#[test]
fn aes_decrypt_refuses_short_nonce() {
    let key = "k".to_string();
    let nonce = vec![0u8; 11];
    let ciphertext = vec![1u8, 2, 3];
    assert!(utils::aes_decrypt(&nonce, &ciphertext, &key).is_none());
}

#[test]
fn header_json_exact_form() {
    let hf = HeaderFrame { cmd: Cmds::Connect, param: "a".to_string(), padding: vec![1, 2] };
    let json = codec::header_to_json(&hf);
    assert_eq!(json, "{\"cmd\":1,\"param\":\"YQ==\",\"padding\":\"AQI=\"}");
    let back = codec::parse_header_from_json(&json).unwrap();
    assert_eq!(back.cmd, Cmds::Connect);
    assert_eq!(back.param, "a");
    assert_eq!(back.padding, vec![1, 2]);
}

#[test]
fn header_json_rejects_noise() {
    assert!(codec::parse_header_from_json("{}").is_none());
    assert!(codec::parse_header_from_json("{\"cmd\":7,\"param\":\"\",\"padding\":\"\"}").is_none());
    assert!(codec::parse_header_from_json("{\"cmd\":1,\"param\":\"!!\",\"padding\":\"\"}").is_none());
    assert!(codec::parse_header_from_json("").is_none());
}

#[test]
fn enc_header_json_round_trip() {
    let eh = EncHeader { nonce: vec![7u8; 12], pubkey: vec![9u8; 32], ciphertext: vec![1, 2, 3, 4] };
    let s = eh.to_string().unwrap();
    let back = onionws::codec::parse_enc_header(&s).unwrap();
    assert_eq!(back.nonce, vec![7u8; 12]);
    assert_eq!(back.pubkey, vec![9u8; 32]);
    assert_eq!(back.ciphertext, vec![1, 2, 3, 4]);
}

#[test]
fn enc_header_json_wants_full_pubkey() {
    let eh = EncHeader { nonce: vec![7u8; 12], pubkey: vec![9u8; 31], ciphertext: vec![1] };
    let s = eh.to_string().unwrap();
    assert!(onionws::codec::parse_enc_header(&s).is_none());
}

#[test]
fn hash_agreement_with_direct_digest() {
    let (pk, pri) = utils::generate_x25519_keypair();
    let secret = utils::b64_to_secret(&pri).unwrap();
    let pubkey = utils::b64_to_pubkey(&pk).unwrap();
    let key = utils::shared_key(&secret, &pubkey);

    let hf = HeaderFrame { cmd: Cmds::Connect, param: "bing.com:443".to_string(), padding: vec![5u8; 130] };
    let json = codec::header_to_json(&hf);
    let (eh, hash) = hf.encrypt(&key, &pubkey).unwrap();

    let mut hasher = Sha256::new();
    hasher.update(format!("{key}{json}").as_bytes());
    let expected = hasher.finalize().to_vec();
    assert_eq!(hash, expected);

    let (_, hash2) = eh.decrypt(&key).unwrap();
    assert_eq!(hash2, expected);
}

#[test]
fn sha256_known_vector() {
    let h = onionws::crypto::sha256("abc");
    let expected: Vec<u8> = vec![
        0xba, 0x78, 0x16, 0xbf, 0x8f, 0x01, 0xcf, 0xea, 0x41, 0x41, 0x40, 0xde, 0x5d, 0xae, 0x22,
        0x23, 0xb0, 0x03, 0x61, 0xa3, 0x96, 0x17, 0x7a, 0x9c, 0xb4, 0x10, 0xff, 0x61, 0xf2, 0x00,
        0x15, 0xad,
    ];
    assert_eq!(h, expected);
}
