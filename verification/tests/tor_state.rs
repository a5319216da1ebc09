use vchat::tor::TorState;

#[test]
fn fresh_client_is_not_ready() {
    let s = TorState::default();
    assert!(!s.is_tor_ready());
    assert_eq!(s.get_local_port(), None);
    assert_eq!(s.get_onion_address().unwrap_err(), "Tor not initialized");
    assert_eq!(s.get_tor_circuit_info(5).unwrap_err(), "Tor not initialized");
    let mut s = TorState::new();
    assert_eq!(s.refresh_circuit(1).unwrap_err(), "Arti Tor client not ready. Cannot refresh circuit.");
    assert!(s.circuit_id.is_none());
}

#[test]
fn ready_client_reports_its_circuit() {
    let mut s = TorState::new();
    s.mark_ready("abc.onion".to_string(), 9050, 100);
    assert!(s.is_tor_ready());
    assert_eq!(s.get_onion_address().unwrap(), "abc.onion");
    assert_eq!(s.get_local_port(), Some(9050));
    let info = s.get_tor_circuit_info(130).unwrap();
    assert!(info.circuit_id.starts_with("circuit-"));
    assert_eq!(info.circuit_id.len(), 8 + 36);
    assert_eq!(info.hop_count, 3);
    assert_eq!(info.uptime_secs, 30);
    assert_eq!(info.exit_node, "(embedded arti)");
    assert_eq!(s.get_tor_circuit_info(50).unwrap().uptime_secs, 0);
    let old = info.circuit_id.clone();
    s.refresh_circuit(200).unwrap();
    let info2 = s.get_tor_circuit_info(210).unwrap();
    assert_ne!(info2.circuit_id, old);
    assert_eq!(info2.uptime_secs, 10);
}

#[test]
fn circuit_without_readiness_is_refused() {
    let mut s = TorState::new();
    s.mark_ready("abc.onion".to_string(), 1, 0);
    s.is_ready = false;
    assert_eq!(s.get_tor_circuit_info(1).unwrap_err(), "Arti Tor client not ready");
}

#[test]
fn onion_of_a_secret_key() {
    let kp = vchat::crypto::keys::Ed25519KeyPair::generate().unwrap();
    let (onion, pk) = vchat::tor::derive_onion_from_keypair(&kp.signing_key_bytes());
    assert_eq!(pk, kp.public_key_bytes());
    assert_eq!(onion, vchat::tor::pubkey_to_v3_onion(&pk));
    assert_eq!(onion.len(), 56 + 6);
    assert!(vchat::tor::verify_onion_matches_pubkey(&onion, &pk));
}

#[test]
fn onion_addresses_put_the_key_first() {
    let mut pk = [0u8; 32];
    for (i, b) in pk.iter_mut().enumerate() {
        *b = i as u8;
    }
    assert_eq!(vchat::tor::pubkey_to_v3_onion(&pk), "aaaqeayeaudaocajbifqydiob4ibceqtcqkrmfyydenbwha5dyp3kead.onion");
    let tor_pk: [u8; 32] = [
        121, 188, 198, 37, 24, 75, 5, 25, 73, 117, 194, 139, 102, 182, 107, 4, 105, 247, 246, 85, 111, 177, 172, 49,
        137, 167, 155, 64, 221, 163, 47, 31,
    ];
    let onion = "pg6mmjiyjmcrsslvykfwnntlaru7p5svn6y2ymmju6nubxndf4pscryd.onion";
    assert_eq!(vchat::tor::pubkey_to_v3_onion(&tor_pk), onion);
    assert!(vchat::tor::verify_onion_matches_pubkey(onion, &tor_pk));
}
