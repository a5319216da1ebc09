use vchat::crypto::keys::Ed25519KeyPair;
use vchat::crypto::pqc::{dilithium, hybrid_kem, hybrid_sig, kyber, sphincs};

#[test]
fn kyber_sizes_and_agreement() {
    let (pk, sk) = kyber::keypair().unwrap();
    assert_eq!(pk.as_bytes().len(), kyber::KYBER_PUBLIC_KEY_BYTES);
    assert_eq!(sk.as_bytes().len(), kyber::KYBER_SECRET_KEY_BYTES);
    assert!(pk.as_bytes()[32..].iter().all(|b| *b == 0));
    let (ct, ss) = kyber::encapsulate(&pk).unwrap();
    assert_eq!(ct.as_bytes().len(), kyber::KYBER_CIPHERTEXT_BYTES);
    let ss2 = kyber::decapsulate(&sk, &ct).unwrap();
    assert_eq!(ss.as_bytes(), ss2.as_bytes());
    let (_, other_sk) = kyber::keypair().unwrap();
    assert_ne!(kyber::decapsulate(&other_sk, &ct).unwrap().as_bytes(), ss.as_bytes());
}

#[test]
fn kyber_from_bytes_checks_lengths() {
    assert!(kyber::PublicKey::from_bytes(&[0u8; 1184]).is_ok());
    assert_eq!(kyber::PublicKey::from_bytes(&[0u8; 10]).err(), Some("Invalid public key length"));
    assert!(kyber::Ciphertext::from_bytes(&[0u8; 1087]).is_err());
    assert!(kyber::SharedSecret::from_bytes(&[1u8; 32]).is_ok());
}

#[test]
fn hybrid_kem_agreement() {
    let (pk, sk) = hybrid_kem::keypair().unwrap();
    let (ct, ss) = hybrid_kem::encapsulate(&pk).unwrap();
    let ss2 = hybrid_kem::decapsulate(&sk, &ct).unwrap();
    assert_eq!(ss, ss2);
    let (ct2, ss3) = hybrid_kem::encapsulate(&pk).unwrap();
    assert_ne!(ss, ss3);
    assert_eq!(hybrid_kem::decapsulate(&sk, &ct2).unwrap(), ss3);
}

#[test]
fn dilithium_sign_verify() {
    let (pk, sk) = dilithium::keypair().unwrap();
    let sig = dilithium::sign(&sk, b"post-quantum").unwrap();
    assert_eq!(sig.as_bytes().len(), 64);
    assert_eq!(dilithium::verify(&pk, b"post-quantum", &sig), Ok(true));
    assert_eq!(dilithium::verify(&pk, b"post-quantum!", &sig), Ok(false));
    let short = dilithium::Signature(vec![0u8; 10]);
    assert_eq!(dilithium::verify(&pk, b"post-quantum", &short), Err("Invalid Ed25519 signature length"));
    // y = 2 is not the y-coordinate of any curve point.
    let mut bad_key = [0u8; 1952];
    bad_key[0] = 2;
    let bad = dilithium::PublicKey(bad_key);
    assert_eq!(dilithium::verify(&bad, b"post-quantum", &sig), Err("Invalid Ed25519 public key"));
}

#[test]
fn sphincs_sign_verify() {
    let kp = Ed25519KeyPair::generate().unwrap();
    let mut pk = [0u8; 48];
    pk[..32].copy_from_slice(&kp.public_key_bytes());
    let mut sk = [0u8; 96];
    sk[..32].copy_from_slice(&kp.signing_key_bytes());
    let pk = sphincs::PublicKey(pk);
    let sk = sphincs::SecretKey(sk);
    let sig = sphincs::sign(&sk, b"hash-based").unwrap();
    assert_eq!(sig.len(), 64);
    assert_eq!(sig, kp.sign(b"hash-based").to_vec());
    assert_eq!(sphincs::verify(&pk, b"hash-based", &sig), Ok(true));
    assert_eq!(sphincs::verify(&pk, b"other", &sig), Ok(false));
    assert_eq!(sphincs::verify(&pk, b"hash-based", &sig[..63]), Err("Invalid Ed25519 signature length"));
}

#[test]
fn hybrid_signatures() {
    let (pk, sk) = hybrid_sig::keypair().unwrap();
    let sig = hybrid_sig::sign(&sk, b"both").unwrap();
    assert_eq!(hybrid_sig::verify(&pk, b"both", &sig), Ok(true));
    assert_eq!(hybrid_sig::verify(&pk, b"neither", &sig), Ok(false));
    let mut tampered = hybrid_sig::sign(&sk, b"both").unwrap();
    tampered.ed25519[0] ^= 1;
    assert_eq!(hybrid_sig::verify(&pk, b"both", &tampered), Ok(false));
}
