use vchat::identity::{Contact, DeviceCertificate, Identity, IdentityError, IdentityManager};

fn cert(id: &str) -> DeviceCertificate {
    DeviceCertificate {
        device_id: id.to_string(),
        device_name: "phone".to_string(),
        public_key: vec![1, 2, 3],
        account_pubkey: vec![],
        signature: vec![],
        created_at: 5,
        expires_at: None,
    }
}

fn contact(key: &str, name: &str) -> Contact {
    Contact {
        identity_string: key.to_string(),
        display_name: name.to_string(),
        device_cert: cert(key),
        added_at: 1,
        verified: false,
        blocked: false,
    }
}

#[test]
fn generated_identity_signs_and_verifies() {
    let id = Identity::generate("laptop".to_string()).unwrap();
    assert_eq!(id.device_name, "laptop");
    assert_eq!(id.device_cert.device_id, id.device_id);
    assert_eq!(id.device_cert.public_key, id.verifying_key.to_vec());
    assert!(id.device_cert.signature.is_empty());
    assert!(id.account_cert.is_none());
    let sig = id.sign(b"hello");
    assert_eq!(sig.len(), 64);
    assert_eq!(id.verify(b"hello", &sig), Ok(()));
    assert_eq!(id.verify(b"hullo", &sig), Err(IdentityError::BadSignature));
    assert_eq!(id.verify(b"hello", &sig[..10]), Err(IdentityError::SignatureLength));
    let s = id.identity_string();
    assert_eq!(s.len(), 43);
    assert!(s.chars().all(|c| c.is_ascii_alphanumeric() || c == '-' || c == '_'));
}

#[test]
fn identity_string_is_url_safe_base64() {
    let mut id = Identity::generate("x".to_string()).unwrap();
    id.verifying_key = [0u8; 32];
    assert_eq!(id.identity_string(), "AAAAAAAAAAAAAAAAAAAAAAAAAAAAAAAAAAAAAAAAAAA");
    id.verifying_key = [0xfb; 32];
    assert_eq!(id.identity_string(), "-_v7-_v7-_v7-_v7-_v7-_v7-_v7-_v7-_v7-_v7-_s");
}

#[test]
fn manager_keeps_contacts_by_identity_string() {
    let mut m = IdentityManager::new();
    assert!(m.get_identity().is_none());
    assert!(m.get_identity_string().is_none());
    let id = Identity::generate("d".to_string()).unwrap();
    let expected = id.identity_string();
    m.set_identity(id);
    assert_eq!(m.get_identity_string(), Some(expected));
    m.add_contact(contact("k1", "Ann"));
    m.add_contact(contact("k2", "Bo"));
    m.add_contact(contact("k1", "Annie"));
    let all = m.get_contacts();
    assert_eq!(all.len(), 2);
    assert_eq!(m.get_contact("k1").unwrap().display_name, "Annie");
    m.remove_contact("k1");
    assert!(m.get_contact("k1").is_none());
    assert_eq!(m.get_contacts().len(), 1);
    m.remove_contact("missing");
    assert_eq!(m.get_contact("k2").unwrap().display_name, "Bo");
}
