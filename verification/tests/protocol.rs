use vchat::crypto::keys::Ed25519KeyPair;
use vchat::messaging::protocol::{
    check_decoded_version, create_wire_message, create_wire_message_at, derive_sender_onion, frame_wire_bytes,
    unframe_wire_bytes, verify_wire_message, ProtocolError, WireMessage, WireMessageType, MAX_FRAME_SIZE,
    MAX_MESSAGE_SIZE,
};
use vchat::messaging::{message_type_str, parse_message_type};
use vchat::commands::MessageType;
use vchat::tor::pubkey_to_v3_onion;

fn make_test_message() -> (Ed25519KeyPair, WireMessage) {
    let kp = Ed25519KeyPair::generate().unwrap();
    let payload = br#"{"content":"hello world","reply_to":null}"#.to_vec();
    let msg = create_wire_message(
        &kp.signing_key_bytes(),
        &kp.public_key_bytes(),
        WireMessageType::Text,
        payload,
        "test-msg-001".to_string(),
        0,
    )
    .unwrap();
    (kp, msg)
}

#[test]
fn test_create_and_verify() {
    let (kp, msg) = make_test_message();
    assert!(verify_wire_message(&msg, &kp.public_key_bytes()).unwrap());
}

#[test]
fn test_verify_wrong_key() {
    let (_, msg) = make_test_message();
    let other_key = Ed25519KeyPair::generate().unwrap();
    assert!(!verify_wire_message(&msg, &other_key.public_key_bytes()).unwrap());
}

#[test]
fn created_message_fields() {
    let (kp, msg) = make_test_message();
    assert_eq!(msg.version, 1);
    assert_eq!(msg.msg_type, WireMessageType::Text);
    assert_eq!(msg.sender_pubkey, kp.public_key_bytes().to_vec());
    assert_eq!(msg.signature.len(), 64);
    assert_eq!(msg.nonce.len(), 32);
    assert_eq!(msg.message_id, "test-msg-001");
}

#[test]
fn tampering_breaks_signature() {
    let (kp, msg) = make_test_message();
    let mut m = msg.clone();
    m.payload[0] ^= 1;
    assert_eq!(verify_wire_message(&m, &kp.public_key_bytes()), Ok(false));
    let mut m = msg.clone();
    m.sequence += 1;
    assert_eq!(verify_wire_message(&m, &kp.public_key_bytes()), Ok(false));
    let mut m = msg.clone();
    m.msg_type = WireMessageType::Ack;
    assert_eq!(verify_wire_message(&m, &kp.public_key_bytes()), Ok(false));
}

#[test]
fn verify_refusals_in_order() {
    let (kp, msg) = make_test_message();
    let mut m = msg.clone();
    m.version = 2;
    m.signature = vec![0u8; 3];
    assert_eq!(verify_wire_message(&m, &kp.public_key_bytes()), Err(ProtocolError::UnsupportedVersion(2)));
    let mut m = msg.clone();
    m.payload = vec![0u8; MAX_MESSAGE_SIZE + 1];
    assert_eq!(verify_wire_message(&m, &kp.public_key_bytes()), Err(ProtocolError::PayloadTooLarge(MAX_MESSAGE_SIZE + 1)));
    let mut m = msg.clone();
    m.signature = vec![0u8; 63];
    assert_eq!(verify_wire_message(&m, &kp.public_key_bytes()), Err(ProtocolError::InvalidSignatureLength(63)));
}

#[test]
fn signing_is_deterministic_for_fixed_inputs() {
    let kp = Ed25519KeyPair::from_bytes(&[8u8; 32]).unwrap();
    let a = create_wire_message_at(&kp.signing_key_bytes(), &kp.public_key_bytes(), WireMessageType::Reaction,
        b"p".to_vec(), "id".to_string(), 5, 1_700_000_000, vec![1u8; 32]);
    let b = create_wire_message_at(&kp.signing_key_bytes(), &kp.public_key_bytes(), WireMessageType::Reaction,
        b"p".to_vec(), "id".to_string(), 5, 1_700_000_000, vec![1u8; 32]);
    assert_eq!(a.signature, b.signature);
    assert_eq!(a.timestamp, 1_700_000_000);
    assert!(verify_wire_message(&a, &kp.public_key_bytes()).unwrap());
}

#[test]
fn frame_round_trip_and_errors() {
    let body = b"serialized message".to_vec();
    let framed = frame_wire_bytes(&body).unwrap();
    assert_eq!(&framed[..4], &[18, 0, 0, 0]);
    assert_eq!(unframe_wire_bytes(&framed).unwrap(), body);
    assert_eq!(unframe_wire_bytes(&[1, 0]), Err(ProtocolError::FrameTooShort));
    assert_eq!(unframe_wire_bytes(&framed[..10]), Err(ProtocolError::InsufficientData { expected: 18, got: 6 }));
    let big = vec![0u8; MAX_FRAME_SIZE];
    assert_eq!(frame_wire_bytes(&big), Err(ProtocolError::FrameTooLarge(MAX_FRAME_SIZE + 4)));
    let mut huge = vec![0u8; 4 + MAX_FRAME_SIZE + 1];
    huge[..4].copy_from_slice(&((MAX_FRAME_SIZE + 1) as u32).to_le_bytes());
    assert_eq!(unframe_wire_bytes(&huge), Err(ProtocolError::FrameTooLarge(MAX_FRAME_SIZE + 1)));
}

#[test]
fn decoded_version_checked() {
    let (_, mut msg) = make_test_message();
    assert_eq!(check_decoded_version(&msg), Ok(()));
    msg.version = 9;
    assert_eq!(check_decoded_version(&msg), Err(ProtocolError::UnsupportedVersion(9)));
}

#[test]
fn sender_onion_from_key() {
    let (kp, msg) = make_test_message();
    assert_eq!(derive_sender_onion(&msg).unwrap(), pubkey_to_v3_onion(&kp.public_key_bytes()));
    let mut m = msg.clone();
    m.sender_pubkey = vec![1, 2, 3];
    assert_eq!(derive_sender_onion(&m), Err(ProtocolError::InvalidSenderKeyLength(3)));
}

#[test]
fn wire_type_codes() {
    assert_eq!(WireMessageType::Text.code(), 0);
    assert_eq!(WireMessageType::GroupUpdate.code(), 19);
    assert_eq!(WireMessageType::Ack.code(), 20);
}

#[test]
fn message_type_names_round_trip() {
    for t in [MessageType::Text, MessageType::File, MessageType::Image] {
        assert_eq!(parse_message_type(message_type_str(&t)), t);
    }
    assert_eq!(parse_message_type("no-such-type"), MessageType::Text);
}
