use onionws::crypto;
use onionws::utils;

#[test]
fn x25519_keypair_tests() {
    let (pubstr, pristr) = utils::generate_x25519_keypair();
    assert!(utils::is_keypair(&pristr, &pubstr));
    assert!(!utils::is_keypair(&pristr, "hellow, world!"));

    if let Some(prikey) = utils::b64_to_secret(&pristr) {
        if let Some(pubkey) = utils::b64_to_pubkey(&pubstr) {
            assert_eq!(prikey.len(), 32);
            assert_eq!(pubkey.len(), 32);
            assert_eq!(pubstr, base64::encode(&pubkey));
            assert_eq!(pristr, base64::encode(&prikey));
        } else {
            assert!(false);
        }
    } else {
        assert!(false);
    }
}

#[test]
fn dh_symmetry() {
    let (pub_c, pri_c) = utils::generate_x25519_keypair();
    let (pub_s, pri_s) = utils::generate_x25519_keypair();
    let sec_c = utils::b64_to_secret(&pri_c).unwrap();
    let sec_s = utils::b64_to_secret(&pri_s).unwrap();
    let pk_c = utils::b64_to_pubkey(&pub_c).unwrap();
    let pk_s = utils::b64_to_pubkey(&pub_s).unwrap();

    let k1 = utils::shared_key(&sec_c, &pk_s);
    let k2 = utils::shared_key(&sec_s, &pk_c);
    assert_eq!(k1, k2);
}

#[test]
fn dh_agrees_with_dalek() {
    let (pubstr, pristr) = utils::generate_x25519_keypair();
    let sec = utils::b64_to_secret(&pristr).unwrap();
    let (peer_pub, _) = utils::generate_x25519_keypair();
    let peer = utils::b64_to_pubkey(&peer_pub).unwrap();

    let k = utils::shared_key(&sec, &peer);

    let mut sb = [0u8; 32];
    sb.copy_from_slice(&sec);
    let mut pb = [0u8; 32];
    pb.copy_from_slice(&peer);
    let dsec = x25519_dalek::StaticSecret::from(sb);
    let dpub = x25519_dalek::PublicKey::from(pb);
    let expected = base64::encode(dsec.diffie_hellman(&dpub).as_bytes());
    assert_eq!(k, expected);

    assert_ne!(pubstr, pristr);
}

#[test]
fn bad_base64_keys_are_refused() {
    assert!(utils::b64_to_secret("!!!not base64!!!").is_none());
    assert!(utils::b64_to_pubkey("c2hvcnQ=").is_none());
    assert!(crypto::generate_secret().len() == 32);
}
