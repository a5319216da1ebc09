use vchat::crypto::qr::{contact_from_fields, fields_from_json_members, fields_from_query, parse_qr_data, QrError, QrFields};

fn hex128() -> String {
    "ab".repeat(64)
}

#[test]
fn qr_uri_contact() {
    let data = format!("  vchat://add?name=Alice&key={}&onion=abc.onion  ", hex128());
    let c = parse_qr_data(&data).unwrap();
    assert_eq!(c.display_name, "Alice");
    assert_eq!(c.public_key, hex128());
    assert_eq!(c.onion_address, "abc.onion");
    assert!(!c.verified && !c.blocked);
    assert_eq!(c.id.len(), 36);
}

#[test]
fn qr_json_contact_with_alternate_names() {
    let data = format!(r#"{{"public_key":"{}","onion_address":"x.onion","display_name":"Bob"}}"#, hex128());
    let c = parse_qr_data(&data).unwrap();
    assert_eq!(c.display_name, "Bob");
    assert_eq!(c.onion_address, "x.onion");
    let data = format!(r#"{{"key":"{}","onion":"y.onion"}}"#, hex128());
    assert_eq!(parse_qr_data(&data).unwrap().display_name, "Unknown");
}

#[test]
fn qr_errors() {
    assert_eq!(parse_qr_data("not json").unwrap_err(), QrError::InvalidJson);
    assert_eq!(parse_qr_data("vchat://add?name=A&onion=o").unwrap_err(), QrError::MissingKeyInUri);
    assert_eq!(parse_qr_data(&format!("vchat://add?key={}", hex128())).unwrap_err(), QrError::MissingOnionInUri);
    assert_eq!(parse_qr_data(r#"{"onion":"o"}"#).unwrap_err(), QrError::MissingPublicKey);
    assert_eq!(parse_qr_data(r#"{"key":"zz","onion":"o"}"#).unwrap_err(), QrError::InvalidKeyHex);
    assert_eq!(parse_qr_data(r#"{"key":"abcd","onion":"o"}"#).unwrap_err(), QrError::WrongKeyLength(2));
    assert_eq!(parse_qr_data(&format!(r#"{{"key":"{}"}}"#, hex128())).unwrap_err(), QrError::MissingOnion);
}

#[test]
fn query_last_value_wins() {
    let pairs = vec![
        ("key".to_string(), "k1".to_string()),
        ("onion".to_string(), "o".to_string()),
        ("key".to_string(), "k2".to_string()),
    ];
    let f = fields_from_query(&pairs).unwrap();
    assert_eq!(f.key.as_deref(), Some("k2"));
    assert_eq!(f.name, "Unknown");
}

#[test]
fn json_member_preference() {
    let f = fields_from_json_members(vec![
        None,
        Some("pk".to_string()),
        Some("on".to_string()),
        Some("oa".to_string()),
        None,
        Some("dn".to_string()),
    ]);
    assert_eq!(f.key.as_deref(), Some("pk"));
    assert_eq!(f.onion.as_deref(), Some("on"));
    assert_eq!(f.name, "dn");
}

#[test]
fn contact_from_fields_checks() {
    let f = || QrFields { key: Some("k".to_string()), onion: Some("o".to_string()), name: "n".to_string() };
    assert_eq!(contact_from_fields(f(), Some(vec![0u8; 63]), "id".to_string(), 5).unwrap_err(), QrError::WrongKeyLength(63));
    let c = contact_from_fields(f(), Some(vec![0u8; 64]), "id".to_string(), 5).unwrap();
    assert_eq!(c.id, "id");
    assert_eq!(c.added_at, 5);
}

#[test]
fn qr_code_carries_the_contact_json() {
    let id = vchat::commands::Identity {
        public_key: "ab12".to_string(),
        onion_address: "x.onion".to_string(),
        display_name: "Al \"the\" Pal\n".to_string(),
    };
    let url = vchat::crypto::qr::generate_qr_code(&id).unwrap();
    let prefix = "data:image/svg+xml;base64,";
    assert!(url.starts_with(prefix));
    let svg_bytes = base64::Engine::decode(&base64::engine::general_purpose::STANDARD, &url[prefix.len()..]).unwrap();
    let svg = String::from_utf8(svg_bytes).unwrap();
    let payload = r#"{"key":"ab12","name":"Al \"the\" Pal\n","onion":"x.onion","type":"vchat-contact","v":"1"}"#;
    let expected = qrcode::QrCode::new(payload.as_bytes())
        .unwrap()
        .render::<qrcode::render::svg::Color>()
        .min_dimensions(200, 200)
        .build();
    assert_eq!(svg, expected);
    assert!(svg.starts_with("<?xml"));
}

#[test]
fn qr_code_refuses_oversized_data() {
    let id = vchat::commands::Identity {
        public_key: "k".repeat(4000),
        onion_address: "x.onion".to_string(),
        display_name: "n".to_string(),
    };
    assert_eq!(
        vchat::crypto::qr::generate_qr_code(&id).unwrap_err(),
        vchat::crypto::qr::QrError::QrGenerationFailed
    );
}
