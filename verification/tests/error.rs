use vchat::error::VchatError;

#[test]
fn error_messages_name_their_area() {
    assert_eq!(VchatError::Crypto("bad key".to_string()).message(), "CRYPTO: bad key");
    assert_eq!(VchatError::Tor("down".to_string()).message(), "TOR: down");
    assert_eq!(VchatError::Network("x".to_string()).message(), "NETWORK: x");
    assert_eq!(VchatError::Storage("x".to_string()).message(), "STORAGE: x");
    assert_eq!(VchatError::Protocol("".to_string()).message(), "PROTOCOL: ");
    assert_eq!(VchatError::Qr("x".to_string()).message(), "QR: x");
    assert_eq!(VchatError::WebRtc("x".to_string()).message(), "WEBRTC: x");
    assert_eq!(VchatError::Auth("no".to_string()).message(), "AUTH: no");
}
