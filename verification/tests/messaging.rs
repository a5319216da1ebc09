use vchat::commands::{Contact, Identity, MessageType};
use vchat::crypto::keys::{Ed25519KeyPair, X25519KeyPair};
use vchat::crypto::{derive_shared_key, encrypt_message};
use vchat::messaging::inbound::{
    build_ack_response, build_heartbeat_response, contact_x25519_key, decrypt_hex_content, frame_length,
    group_update_action, build_delivery_receipt, received_text_content, incoming_text_record, reply_sequence, route, GroupUpdateAction, InboundError, Route,
};
use vchat::messaging::outbound::{
    add_contact, check_contact_key, decrypt_text, find_contact, group_recipients, plan_group_creation,
    prepare_text_message, receive_text_message, resolve_contact_pubkey, MessagingError,
};
use vchat::messaging::protocol::{now_secs, signed_secs, verify_wire_message};
use vchat::messaging::protocol::{WireMessage, WireMessageType};
use vchat::messaging::{message_type_str, parse_message_type};
use vchat::tor::pubkey_to_v3_onion;

fn contact(name: &str, onion: &str, key: &str) -> Contact {
    Contact {
        id: name.to_string(),
        display_name: name.to_string(),
        public_key: key.to_string(),
        onion_address: onion.to_string(),
        added_at: 0,
        verified: false,
        blocked: false,
    }
}

fn wire(seq: u64) -> WireMessage {
    WireMessage {
        version: 1,
        msg_type: WireMessageType::Text,
        payload: vec![],
        signature: vec![],
        sender_pubkey: vec![],
        timestamp: 77,
        sequence: seq,
        nonce: vec![],
        message_id: "m-1".to_string(),
    }
}

#[test]
fn contact_key_matches_its_address() {
    let x = X25519KeyPair::generate();
    let ed = Ed25519KeyPair::generate().unwrap();
    let key_hex = format!("{}{}", hex::encode(x.public_bytes()), ed.public_key_hex());
    let onion = pubkey_to_v3_onion(&ed.public_key_bytes());
    assert!(onion.ends_with(".onion"));
    assert_eq!(check_contact_key(&key_hex, &onion), Ok(true));
    assert_eq!(check_contact_key(&key_hex, "other.onion"), Ok(false));
    assert_eq!(check_contact_key("zz", &onion), Err(MessagingError::InvalidKeyHex));
    assert_eq!(check_contact_key("abcd", &onion), Err(MessagingError::WrongKeyLength(2)));
    let (c, matched) = add_contact("Bob", &key_hex, &onion).unwrap();
    assert!(matched);
    assert_eq!(c.display_name, "Bob");
    assert_eq!(c.onion_address, onion);
    assert!(!c.verified && !c.blocked);
    assert_eq!(add_contact("Bob", "abcd", &onion).unwrap_err(), MessagingError::WrongKeyLength(2));
    assert_eq!(contact_x25519_key(&key_hex), Ok(x.public_bytes()));
    assert_eq!(resolve_contact_pubkey(&c), Ok(x.public_bytes()));
}

#[test]
fn contact_lookup() {
    let cs = vec![contact("a", "a.onion", "00"), contact("b", "b.onion", "11"), contact("b2", "b.onion", "22")];
    assert_eq!(find_contact(&cs, "b.onion").unwrap().display_name, "b");
    assert_eq!(find_contact(&cs, "c.onion").unwrap_err(), MessagingError::ContactNotFound);
    assert_eq!(resolve_contact_pubkey(&cs[0]), Err(MessagingError::KeyTooShort));
    assert_eq!(resolve_contact_pubkey(&contact("x", "x", "q")), Err(MessagingError::InvalidKeyHex));
    assert_eq!(contact_x25519_key("00"), Err(MessagingError::KeyTooShort));
    assert_eq!(contact_x25519_key(&"g".repeat(64)), Err(MessagingError::InvalidKeyHex));
}

#[test]
fn texts_decrypt_under_the_shared_key() {
    let a = X25519KeyPair::generate();
    let b = X25519KeyPair::generate();
    let k1 = derive_shared_key(&a.secret_bytes(), &b.public_bytes());
    let k2 = derive_shared_key(&b.secret_bytes(), &a.public_bytes());
    assert_eq!(k1, k2);
    let sealed = encrypt_message(&k1, "hello".as_bytes());
    assert_eq!(decrypt_text(&k2, &sealed), Ok("hello".to_string()));
    assert_eq!(decrypt_hex_content(&k2, &hex::encode(&sealed)), Ok("hello".to_string()));
    assert_eq!(decrypt_hex_content(&k2, "xyz"), Err(MessagingError::InvalidKeyHex));
    let mut bad = sealed.clone();
    let last = bad.len() - 1;
    bad[last] ^= 1;
    assert_eq!(decrypt_text(&k2, &bad), Err(MessagingError::Undecryptable));
    let not_utf8 = encrypt_message(&k1, &[0xff, 0xfe]);
    assert_eq!(decrypt_text(&k2, &not_utf8), Err(MessagingError::Undecryptable));
}

#[test]
fn group_recipients_skip_me() {
    let members = vec!["a".to_string(), "me".to_string(), "b".to_string(), "me".to_string()];
    assert_eq!(group_recipients(&members, "me"), vec!["a", "b"]);
    assert_eq!(group_recipients(&vec![], "me"), Vec::<String>::new());
}

#[test]
fn group_creation_plan() {
    let me = Identity { public_key: "mk".to_string(), onion_address: "me.onion".to_string(), display_name: "Me".to_string() };
    let cs = vec![contact("Ann", "a.onion", "ak"), contact("Bo", "b.onion", "bk")];
    let req = vec!["b.onion".to_string(), "zz.onion".to_string(), "a.onion".to_string()];
    let plan = plan_group_creation(&me, &cs, &req, "g1", "Friends", None, 50);
    let roles: Vec<(&str, &str)> = plan.members.iter().map(|m| (m.onion_address.as_str(), m.role.as_str())).collect();
    assert_eq!(roles, vec![("me.onion", "admin"), ("b.onion", "member"), ("a.onion", "member")]);
    assert!(plan.members.iter().all(|m| m.group_id == "g1" && m.joined_at == 50));
    assert_eq!(plan.invites.len(), 2);
    assert_eq!(plan.invites[0].onion, "b.onion");
    assert_eq!(plan.invites[0].members.len(), 2);
    assert_eq!(plan.invites[1].onion, "a.onion");
    assert_eq!(plan.invites[1].members.len(), 3);
    assert_eq!(plan.group.member_count, 3);
    assert_eq!(plan.group.description, "");
    assert_eq!(plan.group.created_by, "me.onion");
    let plan2 = plan_group_creation(&me, &cs, &vec![], "g2", "Solo", Some("just me"), 1);
    assert_eq!(plan2.group.member_count, 1);
    assert_eq!(plan2.group.description, "just me");
    assert!(plan2.invites.is_empty());
}

#[test]
fn inbound_framing_and_routing() {
    assert_eq!(frame_length(&[16, 0, 0, 0]), Ok(16));
    assert_eq!(frame_length(&[0, 0, 0, 1]), Err(InboundError::TooLarge(16_777_216)));
    assert_eq!(route(WireMessageType::Text), Route::Text);
    assert_eq!(route(WireMessageType::CallInvite), Route::CallInvite);
    assert_eq!(route(WireMessageType::Ack), Route::Default);
    assert_eq!(reply_sequence(&wire(4)), Some(5));
    assert_eq!(reply_sequence(&wire(u64::MAX)), None);
    let m = incoming_text_record(&wire(9), "s".to_string(), "r".to_string(), "hi".to_string(), None);
    assert_eq!(m.id, "m-1");
    assert_eq!(m.timestamp, 77);
    assert_eq!(m.sequence_num, 9);
    assert!(m.encrypted && !m.delivered && !m.read);
    assert_eq!(m.message_type, MessageType::Text);
}

#[test]
fn stored_type_names_parse_back() {
    for t in [MessageType::Text, MessageType::File, MessageType::Image, MessageType::VoiceNote, MessageType::Location] {
        assert_eq!(parse_message_type(message_type_str(&t)), t);
    }
    assert_eq!(parse_message_type("unknown"), MessageType::Text);
}

#[test]
fn sent_text_is_received_by_the_contact() {
    let alice_x = X25519KeyPair::generate();
    let alice_ed = Ed25519KeyPair::generate().unwrap();
    let bob_x = X25519KeyPair::generate();
    let me = Identity { public_key: "pk".to_string(), onion_address: "alice.onion".to_string(), display_name: "Alice".to_string() };
    let bob_hex = hex::encode(bob_x.public_bytes());
    let contacts = vec![contact("Bob", "bob.onion", &bob_hex)];
    let out = prepare_text_message(
        &me,
        &alice_ed.signing_key_bytes(),
        &alice_ed.public_key_bytes(),
        &alice_x.secret_bytes(),
        &contacts,
        "bob.onion",
        "hi bob",
        MessageType::Text,
        b"{}".to_vec(),
        "m-7".to_string(),
        3,
    )
    .unwrap();
    assert_eq!(out.encrypted.len(), "hi bob".len() + 32);
    assert_eq!(out.wire.sequence, 3);
    assert_eq!(out.wire.message_id, "m-7");
    assert_eq!(verify_wire_message(&out.wire, &alice_ed.public_key_bytes()), Ok(true));
    assert_eq!(out.message.sender, "alice.onion");
    assert_eq!(out.message.recipient, "bob.onion");
    assert_eq!(out.message.timestamp, out.wire.timestamp);
    assert!(!out.message.delivered);
    let bob = Identity { public_key: "pk2".to_string(), onion_address: "bob.onion".to_string(), display_name: "Bob".to_string() };
    let key = derive_shared_key(&bob_x.secret_bytes(), &alice_x.public_bytes());
    let got = receive_text_message(&bob, "alice.onion", &out.encrypted, &key, "r-1".to_string(), 9, 1234).unwrap();
    assert_eq!(got.content, "hi bob");
    assert!(got.delivered && !got.read);
    assert_eq!(got.recipient, "bob.onion");
    assert_eq!(got.sequence_num, 9);
    let wrong = [0u8; 32];
    assert_eq!(
        receive_text_message(&bob, "alice.onion", &out.encrypted, &wrong, "r-2".to_string(), 9, 1).unwrap_err(),
        MessagingError::Undecryptable
    );
    let e = prepare_text_message(
        &me, &alice_ed.signing_key_bytes(), &alice_ed.public_key_bytes(), &alice_x.secret_bytes(),
        &contacts, "carol.onion", "x", MessageType::Text, vec![], "m".to_string(), 1,
    );
    assert!(matches!(e, Err(MessagingError::ContactNotFound)));
}

#[test]
fn acknowledgements_follow_the_message() {
    let kp = Ed25519KeyPair::generate().unwrap();
    let ack = build_ack_response(&wire(41), &kp.signing_key_bytes(), &kp.public_key_bytes(), "a-1".to_string()).unwrap();
    assert_eq!(ack.msg_type, WireMessageType::Ack);
    assert_eq!(ack.sequence, 42);
    assert_eq!(ack.payload, br#"{"original_seq":41,"status":"ok"}"#.to_vec());
    assert_eq!(ack.message_id, "a-1");
    assert_eq!(verify_wire_message(&ack, &kp.public_key_bytes()), Ok(true));
    assert!(build_ack_response(&wire(u64::MAX), &kp.signing_key_bytes(), &kp.public_key_bytes(), "a".to_string()).is_none());
}

#[test]
fn clock_readings_become_signed_seconds() {
    assert_eq!(signed_secs(Ok(1_700_000_000)), 1_700_000_000);
    assert_eq!(signed_secs(Err(30)), -30);
    assert_eq!(signed_secs(Ok(u64::MAX)), i64::MAX);
    assert_eq!(signed_secs(Err(u64::MAX)), -i64::MAX);
    assert!(now_secs() > 1_600_000_000);
}

#[test]
fn heartbeats_are_answered_with_uptime() {
    let kp = Ed25519KeyPair::generate().unwrap();
    let hb = build_heartbeat_response(&wire(9), 3600, &kp.signing_key_bytes(), &kp.public_key_bytes(), "h-1".to_string()).unwrap();
    assert_eq!(hb.msg_type, WireMessageType::Heartbeat);
    assert_eq!(hb.sequence, 10);
    assert_eq!(hb.payload, br#"{"relay_hint":null,"uptime_secs":3600,"active_sessions":1}"#.to_vec());
    assert_eq!(verify_wire_message(&hb, &kp.public_key_bytes()), Ok(true));
    assert!(build_heartbeat_response(&wire(u64::MAX), 0, &kp.signing_key_bytes(), &kp.public_key_bytes(), "h".to_string()).is_none());
}

#[test]
fn group_updates_change_members() {
    match group_update_action("member_added", Some("m.onion".to_string()), None, Some("Mia".to_string())) {
        GroupUpdateAction::AddMember { onion_address, public_key, display_name } => {
            assert_eq!(onion_address, "m.onion");
            assert_eq!(public_key, "");
            assert_eq!(display_name, "Mia");
        }
        _ => panic!("expected an added member"),
    }
    match group_update_action("member_removed", Some("m.onion".to_string()), None, None) {
        GroupUpdateAction::RemoveMember { onion_address } => assert_eq!(onion_address, "m.onion"),
        _ => panic!("expected a removed member"),
    }
    assert!(matches!(group_update_action("member_added", None, None, None), GroupUpdateAction::Nothing));
    assert!(matches!(group_update_action("name_change", Some("x".to_string()), None, None), GroupUpdateAction::Nothing));
}

#[test]
fn received_texts_fall_back_to_raw_content() {
    let key = [3u8; 32];
    let sealed = encrypt_message(&key, "secret words".as_bytes());
    let hex: String = sealed.iter().map(|b| format!("{:02x}", b)).collect();
    assert_eq!(received_text_content(Some(key), &hex), "secret words");
    assert_eq!(received_text_content(Some([4u8; 32]), &hex), hex);
    assert_eq!(received_text_content(None, &hex), hex);
    assert_eq!(received_text_content(Some(key), "plain text"), "plain text");
}

#[test]
fn delivery_receipts_follow_the_message() {
    let kp = Ed25519KeyPair::generate().unwrap();
    let r = build_delivery_receipt(&wire(5), br#"{"message_ids":["m-1"]}"#.to_vec(), &kp.signing_key_bytes(), &kp.public_key_bytes(), "r-1".to_string()).unwrap();
    assert_eq!(r.msg_type, WireMessageType::DeliveryReceipt);
    assert_eq!(r.sequence, 6);
    assert_eq!(r.payload, br#"{"message_ids":["m-1"]}"#.to_vec());
    assert_eq!(verify_wire_message(&r, &kp.public_key_bytes()), Ok(true));
    assert!(build_delivery_receipt(&wire(u64::MAX), vec![], &kp.signing_key_bytes(), &kp.public_key_bytes(), "r".to_string()).is_none());
}
