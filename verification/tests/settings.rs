use vchat::commands::AppSettings;
use vchat::settings::{
    apply_settings_patch, format_u64, parse_u64, setting_keys, settings_from_stored, settings_to_stored, SettingsPatch,
    StoredSettings,
};

fn none_stored() -> StoredSettings {
    StoredSettings {
        disappearing_messages_default: None,
        default_ttl_secs: None,
        read_receipts: None,
        typing_indicators: None,
        notifications_enabled: None,
        theme: None,
    }
}

#[test]
fn decimal_parsing() {
    assert_eq!(parse_u64("0"), Some(0));
    assert_eq!(parse_u64("3600"), Some(3600));
    assert_eq!(parse_u64("+42"), Some(42));
    assert_eq!(parse_u64("007"), Some(7));
    assert_eq!(parse_u64("18446744073709551615"), Some(u64::MAX));
    assert_eq!(parse_u64("18446744073709551616"), None);
    assert_eq!(parse_u64(""), None);
    assert_eq!(parse_u64("+"), None);
    assert_eq!(parse_u64("-1"), None);
    assert_eq!(parse_u64("12a"), None);
    assert_eq!(parse_u64(" 1"), None);
}

#[test]
fn decimal_formatting() {
    assert_eq!(format_u64(0), "0");
    assert_eq!(format_u64(3600), "3600");
    assert_eq!(format_u64(u64::MAX), "18446744073709551615");
    for n in [0u64, 9, 10, 99, 100, 86400, u64::MAX - 1] {
        assert_eq!(parse_u64(&format_u64(n)), Some(n));
        assert_eq!(format_u64(n), n.to_string());
    }
}

#[test]
fn missing_settings_take_defaults() {
    let s = settings_from_stored(&none_stored());
    assert!(!s.disappearing_messages_default);
    assert_eq!(s.default_ttl_secs, 3600);
    assert!(s.read_receipts);
    assert!(s.typing_indicators);
    assert!(s.notifications_enabled);
    assert_eq!(s.theme, "dark");
}

#[test]
fn stored_texts_are_read() {
    let stored = StoredSettings {
        disappearing_messages_default: Some("true".to_string()),
        default_ttl_secs: Some("not a number".to_string()),
        read_receipts: Some("yes".to_string()),
        typing_indicators: Some("false".to_string()),
        notifications_enabled: Some("true".to_string()),
        theme: Some("light".to_string()),
    };
    let s = settings_from_stored(&stored);
    assert!(s.disappearing_messages_default);
    assert_eq!(s.default_ttl_secs, 3600);
    assert!(!s.read_receipts);
    assert!(!s.typing_indicators);
    assert!(s.notifications_enabled);
    assert_eq!(s.theme, "light");
}

#[test]
fn settings_round_trip_through_storage() {
    let s = AppSettings {
        disappearing_messages_default: true,
        default_ttl_secs: 604800,
        read_receipts: false,
        typing_indicators: true,
        notifications_enabled: false,
        theme: "solarized".to_string(),
    };
    let texts = settings_to_stored(&s);
    assert_eq!(texts, vec!["true", "604800", "false", "true", "false", "solarized"]);
    let keys = setting_keys();
    assert_eq!(keys, vec!["disappearing_messages_default", "default_ttl_secs", "read_receipts", "typing_indicators", "notifications_enabled", "theme"]);
    let stored = StoredSettings {
        disappearing_messages_default: Some(texts[0].clone()),
        default_ttl_secs: Some(texts[1].clone()),
        read_receipts: Some(texts[2].clone()),
        typing_indicators: Some(texts[3].clone()),
        notifications_enabled: Some(texts[4].clone()),
        theme: Some(texts[5].clone()),
    };
    let back = settings_from_stored(&stored);
    assert_eq!(back.disappearing_messages_default, s.disappearing_messages_default);
    assert_eq!(back.default_ttl_secs, s.default_ttl_secs);
    assert_eq!(back.read_receipts, s.read_receipts);
    assert_eq!(back.typing_indicators, s.typing_indicators);
    assert_eq!(back.notifications_enabled, s.notifications_enabled);
    assert_eq!(back.theme, s.theme);
}

#[test]
fn patch_replaces_present_fields() {
    let current = settings_from_stored(&none_stored());
    let patch = SettingsPatch {
        disappearing_messages_default: Some(true),
        default_ttl_secs: None,
        read_receipts: None,
        typing_indicators: Some(false),
        notifications_enabled: None,
        theme: Some("light".to_string()),
    };
    let r = apply_settings_patch(current, patch);
    assert!(r.disappearing_messages_default);
    assert_eq!(r.default_ttl_secs, 3600);
    assert!(r.read_receipts);
    assert!(!r.typing_indicators);
    assert!(r.notifications_enabled);
    assert_eq!(r.theme, "light");
}
