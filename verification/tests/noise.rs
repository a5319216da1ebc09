use vchat::crypto::noise::{ephemeral_keypair, generate_static_keypair, NoiseError, NoiseSession};

#[test]
fn test_noise_handshake() {
    let (initiator_secret, _initiator_public) = generate_static_keypair().unwrap();
    let (responder_secret, _responder_public) = generate_static_keypair().unwrap();

    let mut initiator = NoiseSession::new_initiator(&initiator_secret).unwrap();
    let mut responder = NoiseSession::new_responder(&responder_secret).unwrap();

    // Message 1: -> e
    let m1 = initiator.write_message(&[]).unwrap();
    assert!(!initiator.is_handshake_complete());
    let _ = responder.read_message(&m1).unwrap();

    // Message 2: <- e, ee, s, es
    let m2 = responder.write_message(&[]).unwrap();
    assert!(!responder.is_handshake_complete());
    let _ = initiator.read_message(&m2).unwrap();

    // Message 3: -> s, se
    let m3 = initiator.write_message(&[]).unwrap();
    assert!(initiator.is_handshake_complete());
    let _ = responder.read_message(&m3).unwrap();
    assert!(responder.is_handshake_complete());

    // Encrypted transport
    let encrypted = initiator.write_message(b"hello").unwrap();
    let decrypted = responder.read_message(&encrypted).unwrap();
    assert_eq!(decrypted, b"hello");

    let encrypted = responder.write_message(b"world").unwrap();
    let decrypted = initiator.read_message(&encrypted).unwrap();
    assert_eq!(decrypted, b"world");
}

#[test]
fn noise_roles_and_failures() {
    let (s1, p1) = generate_static_keypair().unwrap();
    let (s2, p2) = ephemeral_keypair().unwrap();
    assert_ne!(p1, p2);
    let mut a = NoiseSession::new_initiator(&s1).unwrap();
    let mut b = NoiseSession::new_responder(&s2).unwrap();
    assert!(a.is_initiator());
    assert!(!b.is_initiator());
    // The responder may not write first.
    assert_eq!(b.write_message(&[]).unwrap_err(), NoiseError::Refused);
    let m1 = a.write_message(&[]).unwrap();
    b.read_message(&m1).unwrap();
    let m2 = b.write_message(&[]).unwrap();
    a.read_message(&m2).unwrap();
    assert_eq!(a.get_remote_static_key(), Some(p2.to_vec()));
    let m3 = a.write_message(&[]).unwrap();
    b.read_message(&m3).unwrap();
    assert_eq!(a.get_remote_static_key(), None);
    let mut sealed = a.write_message(b"x").unwrap();
    sealed[0] ^= 1;
    assert_eq!(b.read_message(&sealed).unwrap_err(), NoiseError::Refused);
}

fn paired() -> (NoiseSession, NoiseSession) {
    let (s1, _) = generate_static_keypair().unwrap();
    let (s2, _) = generate_static_keypair().unwrap();
    let mut a = NoiseSession::new_initiator(&s1).unwrap();
    let mut b = NoiseSession::new_responder(&s2).unwrap();
    // The initiator may not read first.
    assert_eq!(a.read_message(&[0u8; 32]).unwrap_err(), NoiseError::Refused);
    let m1 = a.write_message(b"one").unwrap();
    assert_eq!(b.read_message(&m1).unwrap(), b"one");
    let m2 = b.write_message(&[]).unwrap();
    a.read_message(&m2).unwrap();
    let m3 = a.write_message(&[]).unwrap();
    b.read_message(&m3).unwrap();
    (a, b)
}

#[test]
fn noise_transport_keeps_order_and_size() {
    let (mut a, mut b) = paired();
    let first = a.write_message(b"first").unwrap();
    assert_eq!(first.len(), 5 + 16);
    let second = a.write_message(b"second").unwrap();
    // Messages are read in the order they were written.
    assert_eq!(b.read_message(&second).unwrap_err(), NoiseError::Refused);
    assert_eq!(b.read_message(&first).unwrap(), b"first");
    assert_eq!(b.read_message(&second).unwrap(), b"second");
    // A replayed message is refused.
    assert_eq!(b.read_message(&second).unwrap_err(), NoiseError::Refused);
    assert_eq!(b.read_message(&[1u8; 8]).unwrap_err(), NoiseError::Refused);
    let big = vec![7u8; 65520];
    assert_eq!(a.write_message(&big).unwrap_err(), NoiseError::Refused);
    let fits = vec![7u8; 65519];
    let m = a.write_message(&fits).unwrap();
    assert_eq!(m.len(), 65535);
    assert_eq!(b.read_message(&m).unwrap(), fits);
}
