use vchat::crypto::keys::{hkdf_derive, Ed25519KeyPair, KeyError, X25519KeyPair};
use vchat::crypto::ratchet::{
    chain_message_key, chain_next, kdf, root_dh, x3dh_initiator, x3dh_responder, DoubleRatchet, RatchetError,
};
use vchat::crypto::ratchet;
use vchat::crypto::session::{associated_data, our_ratchet_public, Session, SessionError};
use vchat::crypto::{decrypt_message, derive_shared_key, encrypt_message, encrypt_message_with_nonce, CryptoError};

#[test]
fn test_ed25519_keypair_generate_and_sign() {
    let kp = Ed25519KeyPair::generate().unwrap();
    let msg = b"test message";
    let sig = kp.sign(msg);
    assert!(kp.verify(msg, &sig));
    assert!(!kp.verify(b"wrong message", &sig));
}

#[test]
fn test_x25519_dh() {
    let alice = X25519KeyPair::generate();
    let bob = X25519KeyPair::generate();
    let shared_a = alice.diffie_hellman(&bob.public_bytes());
    let shared_b = bob.diffie_hellman(&alice.public_bytes());
    assert_eq!(shared_a, shared_b);
}

#[test]
fn test_hkdf_derive() {
    let key = hkdf_derive(b"input", b"salt", b"info", 32).unwrap();
    assert_eq!(key.len(), 32);
}

#[test]
fn test_ed25519_roundtrip() {
    let kp = Ed25519KeyPair::generate().unwrap();
    let secret = kp.signing_key_bytes();
    let kp2 = Ed25519KeyPair::from_bytes(&secret).unwrap();
    assert_eq!(kp.public_key_bytes(), kp2.public_key_bytes());
}

#[test]
fn hkdf_derive_refuses_too_long_output() {
    assert_eq!(hkdf_derive(b"input", b"salt", b"info", 8161), Err(KeyError::OutputTooLong));
    assert_eq!(hkdf_derive(b"input", b"salt", b"info", 8160).unwrap().len(), 8160);
}

#[test]
fn hkdf_rfc5869_case_one() {
    let ikm = [0x0bu8; 22];
    let salt: Vec<u8> = (0x00u8..=0x0c).collect();
    let info: Vec<u8> = (0xf0u8..=0xf9).collect();
    let okm = hkdf_derive(&ikm, &salt, &info, 42).unwrap();
    let expected = [
        0x3c, 0xb2, 0x5f, 0x25, 0xfa, 0xac, 0xd5, 0x7a, 0x90, 0x43, 0x4f, 0x64, 0xd0, 0x36, 0x2f, 0x2a, 0x2d, 0x2d,
        0x0a, 0x90, 0xcf, 0x1a, 0x5a, 0x4c, 0x5d, 0xb0, 0x2d, 0x56, 0xec, 0xc4, 0xc5, 0xbf, 0x34, 0x00, 0x72, 0x08,
        0xd5, 0xb8, 0x87, 0x18, 0x58, 0x65,
    ];
    assert_eq!(okm, expected.to_vec());
}

#[test]
fn ed25519_hex_forms() {
    let kp = Ed25519KeyPair::from_bytes(&[1u8; 32]).unwrap();
    let hex = kp.secret_key_hex();
    assert_eq!(hex, "01".repeat(32));
    let pubhex = kp.public_key_hex();
    assert_eq!(pubhex.len(), 64);
    assert!(pubhex.chars().all(|c| c.is_ascii_hexdigit() && !c.is_ascii_uppercase()));
}

#[test]
fn x25519_from_bytes_is_deterministic() {
    let a = X25519KeyPair::from_bytes(&[5u8; 32]);
    let b = X25519KeyPair::from_bytes(&[5u8; 32]);
    assert_eq!(a.public_bytes(), b.public_bytes());
    assert_eq!(a.secret_bytes(), [5u8; 32]);
    assert_eq!(our_ratchet_public(&a), a.public_bytes());
    assert_ne!(a.public_bytes(), [5u8; 32]);
}

#[test]
fn ratchet_round_trip() {
    let shared = [42u8; 32];
    let ad = b"alice--bob";
    let a_dh = X25519KeyPair::generate();
    let b_dh = X25519KeyPair::generate();
    let b_pub = b_dh.public_bytes();
    let mut a = DoubleRatchet::new(&shared, ad, a_dh.copy(), b_pub, true);
    let mut b = DoubleRatchet::new(&shared, ad, b_dh, a_dh.public_bytes(), false);

    let m = a.encrypt(b"hello");
    assert_eq!(b.decrypt(&m).unwrap(), b"hello");

    let m2 = a.encrypt(b"second");
    assert_eq!(b.decrypt(&m2).unwrap(), b"second");

    let m3 = b.encrypt(b"reply");
    assert_eq!(a.decrypt(&m3).unwrap(), b"reply");

    let mut m4 = a.encrypt(b"secret");
    m4.ciphertext[0] ^= 0xff;
    assert!(b.decrypt(&m4).is_err());
}

#[test]
fn ratchet_headers_count_messages() {
    let a_dh = X25519KeyPair::from_bytes(&[1u8; 32]);
    let b_dh = X25519KeyPair::from_bytes(&[2u8; 32]);
    let mut a = DoubleRatchet::new(&[0u8; 32], b"ad", a_dh.copy(), b_dh.public_bytes(), true);
    assert!(a.is_initiator());
    let m0 = a.encrypt(b"x");
    let m1 = a.encrypt(b"y");
    assert_eq!(m0.header.n, 0);
    assert_eq!(m1.header.n, 1);
    assert_eq!(m0.header.dh_pub, a_dh.public_bytes());
    assert_eq!(m0.ciphertext.len(), 1 + 16);
    assert_ne!(m0.nonce, m1.nonce);
}

#[test]
fn ratchet_wrong_peer_cannot_read() {
    let a_dh = X25519KeyPair::generate();
    let b_dh = X25519KeyPair::generate();
    let c_dh = X25519KeyPair::generate();
    let mut a = DoubleRatchet::new(&[7u8; 32], b"ad", a_dh.copy(), b_dh.public_bytes(), true);
    let mut c = DoubleRatchet::new(&[8u8; 32], b"ad", c_dh, a_dh.public_bytes(), false);
    let m = a.encrypt(b"private");
    assert_eq!(c.decrypt(&m), Err(RatchetError::DecryptFailed));
}

#[test]
fn ratchet_snapshot_restore_continues() {
    let a_dh = X25519KeyPair::generate();
    let b_dh = X25519KeyPair::generate();
    let mut a = DoubleRatchet::new(&[1u8; 32], b"ad", a_dh.copy(), b_dh.public_bytes(), true);
    let mut b = DoubleRatchet::new(&[1u8; 32], b"ad", b_dh, a_dh.public_bytes(), false);
    let m = a.encrypt(b"one");
    assert_eq!(b.decrypt(&m).unwrap(), b"one");
    let state = b.snapshot();
    assert!(!state.is_initiator);
    let mut b2 = DoubleRatchet::restore(&state);
    let m2 = a.encrypt(b"two");
    assert_eq!(b2.decrypt(&m2).unwrap(), b"two");
}

#[test]
fn ratchet_kdf_steps_differ() {
    let ck = [9u8; 32];
    assert_ne!(chain_next(&ck), chain_message_key(&ck));
    assert_eq!(chain_next(&ck), chain_next(&ck));
    let (rk, ck2) = root_dh(&[1u8; 32], &[2u8; 32]);
    assert_ne!(rk, ck2);
    let out = kdf(b"ikm", b"info", 64);
    assert_eq!(out.len(), 64);
    let parts: Vec<&[u8]> = vec![b"ab", b"", b"cde"];
    assert_eq!(ratchet::concat(&parts), b"abcde".to_vec());
}

#[test]
fn x3dh_both_sides_agree() {
    let ik_a = X25519KeyPair::generate();
    let ek_a = X25519KeyPair::generate();
    let ik_b = X25519KeyPair::generate();
    let spk_b = X25519KeyPair::generate();
    let ka = x3dh_initiator(&ik_a, &ek_a, &ik_b.public_bytes(), &spk_b.public_bytes());
    let kb = x3dh_responder(&ik_b, &spk_b, &ik_a.public_bytes(), &ek_a.public_bytes());
    assert_eq!(ka, kb);
}

#[test]
fn session_state_round_trip() {
    let shared = [9u8; 32];
    let ad = associated_data("alice.onion", "bob.onion");
    let a_dh = X25519KeyPair::generate();
    let b_dh = X25519KeyPair::generate();
    let b_pub = b_dh.public_bytes();
    let mut a = Session::new(&shared, &ad, a_dh.copy(), &b_pub, true);
    let mut b = Session::new(&shared, &ad, b_dh, &a_dh.public_bytes(), false);

    let ct = a.encrypt(b"ping").unwrap();
    assert_eq!(b.decrypt(&ct).unwrap(), b"ping");

    let a_state = a.snapshot().unwrap();
    let restored = a_state.clone();
    let mut a2 = Session::restore(&restored).unwrap();

    let ct2 = b.encrypt(b"pong").unwrap();
    assert_eq!(a2.decrypt(&ct2).unwrap(), b"pong");
}

#[test]
fn session_wire_layout_and_errors() {
    let a_dh = X25519KeyPair::from_bytes(&[3u8; 32]);
    let b_dh = X25519KeyPair::from_bytes(&[4u8; 32]);
    let mut a = Session::new(&[0u8; 32], b"ad", a_dh.copy(), &b_dh.public_bytes(), true);
    assert_eq!(a.is_initiator(), Ok(true));
    let wire = a.encrypt(b"hello").unwrap();
    assert_eq!(wire.len(), 56 + 5 + 16);
    assert_eq!(&wire[0..32], &a_dh.public_bytes());
    assert_eq!(&wire[36..40], &[0, 0, 0, 0]);
    assert_eq!(&wire[52..56], &[21, 0, 0, 0]);
    let mut b = Session::new(&[0u8; 32], b"ad", b_dh, &a_dh.public_bytes(), false);
    assert_eq!(b.decrypt(&wire[..10]), Err(SessionError::TooShort));
    let mut bad = wire.clone();
    let last = bad.len() - 1;
    bad[last] ^= 1;
    assert_eq!(b.decrypt(&bad), Err(SessionError::DecryptFailed));
}

#[test]
fn associated_data_is_symmetric() {
    let ab = associated_data("alice.onion", "bob.onion");
    let ba = associated_data("bob.onion", "alice.onion");
    assert_eq!(ab, ba);
    assert_eq!(ab, b"alice.onion\0bob.onion".to_vec());
}

#[test]
fn shared_key_agreement_and_envelope_round_trip() {
    let a = X25519KeyPair::generate();
    let b = X25519KeyPair::generate();
    let ka = derive_shared_key(&a.secret_bytes(), &b.public_bytes());
    let kb = derive_shared_key(&b.secret_bytes(), &a.public_bytes());
    assert_eq!(ka, kb);
    let sealed = encrypt_message(&ka, b"hello there");
    assert_eq!(sealed.len(), 11 + 32);
    assert_eq!(decrypt_message(&kb, &sealed).unwrap(), b"hello there");
    let fixed = encrypt_message_with_nonce(&ka, &[0u8; 12], b"abc");
    assert_eq!(&fixed[..12], &[0u8; 12]);
    assert_eq!(&fixed[12..16], &[3, 0, 0, 0]);
}

#[test]
fn envelope_errors() {
    let key = [1u8; 32];
    assert_eq!(decrypt_message(&key, &[0u8; 10]), Err(CryptoError::CiphertextTooShort(10)));
    let mut sealed = encrypt_message(&key, b"data");
    sealed[20] ^= 1;
    assert_eq!(decrypt_message(&key, &sealed), Err(CryptoError::DecryptionFailed));
}
