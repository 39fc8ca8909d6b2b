use cx_terminal::codec::{encode_license, parse_license};
use cx_terminal::license::{License, LicenseError, SubscriptionTier};

fn full_license() -> License {
    License {
        id: "lic-42".to_string(),
        email: "user@example.com".to_string(),
        name: Some("Ada \"The Countess\" Lovelace".to_string()),
        tier: SubscriptionTier::Enterprise,
        key: "key\\with\\backslashes".to_string(),
        issued_at: 1_700_000_000,
        expires_at: 1_702_592_000,
        hardware_fingerprint: Some("m1-linux-x86_64-unix-none".to_string()),
        last_validated: Some(1_700_086_400),
        stripe_customer_id: Some("cus_123".to_string()),
        stripe_subscription_id: Some("sub_456".to_string()),
        organization_id: Some("org_789".to_string()),
        organization_name: Some("Example Corp".to_string()),
        metadata: vec![
            ("seats".to_string(), "25".to_string()),
            ("note".to_string(), "line1\nline2\ttabbed".to_string()),
        ],
    }
}

fn minimal_license() -> License {
    License {
        id: "lic-1".to_string(),
        email: "a@b.c".to_string(),
        name: None,
        tier: SubscriptionTier::Free,
        key: "k".to_string(),
        issued_at: 0,
        expires_at: -86400,
        hardware_fingerprint: None,
        last_validated: None,
        stripe_customer_id: None,
        stripe_subscription_id: None,
        organization_id: None,
        organization_name: None,
        metadata: Vec::new(),
    }
}

fn assert_licenses_equal(a: &License, b: &License) {
    assert_eq!(a.id, b.id);
    assert_eq!(a.email, b.email);
    assert_eq!(a.name, b.name);
    assert_eq!(a.tier, b.tier);
    assert_eq!(a.key, b.key);
    assert_eq!(a.issued_at, b.issued_at);
    assert_eq!(a.expires_at, b.expires_at);
    assert_eq!(a.hardware_fingerprint, b.hardware_fingerprint);
    assert_eq!(a.last_validated, b.last_validated);
    assert_eq!(a.stripe_customer_id, b.stripe_customer_id);
    assert_eq!(a.stripe_subscription_id, b.stripe_subscription_id);
    assert_eq!(a.organization_id, b.organization_id);
    assert_eq!(a.organization_name, b.organization_name);
    assert_eq!(a.metadata, b.metadata);
}

#[test]
fn test_roundtrip_full_record() {
    let original = full_license();
    let text = encode_license(&original);
    let loaded = parse_license(&text).expect("canonical text must parse");
    assert_licenses_equal(&original, &loaded);
}

#[test]
fn test_roundtrip_minimal_record() {
    let original = minimal_license();
    let text = encode_license(&original);
    let loaded = parse_license(&text).expect("canonical text must parse");
    assert_licenses_equal(&original, &loaded);
    // An empty metadata map round-trips to an empty one, not an absent one.
    assert!(loaded.metadata.is_empty());
}

#[test]
fn test_encoded_text_exact() {
    let l = License {
        id: "i".to_string(),
        email: "e".to_string(),
        name: None,
        tier: SubscriptionTier::Pro,
        key: "k".to_string(),
        issued_at: 100,
        expires_at: -7,
        hardware_fingerprint: None,
        last_validated: Some(0),
        stripe_customer_id: None,
        stripe_subscription_id: None,
        organization_id: None,
        organization_name: None,
        metadata: vec![("a".to_string(), "b".to_string())],
    };
    let expected = "{\n  \"id\": \"i\",\n  \"email\": \"e\",\n  \"name\": null,\n  \"tier\": \"pro\",\n  \"key\": \"k\",\n  \"issued_at\": 100,\n  \"expires_at\": -7,\n  \"hardware_fingerprint\": null,\n  \"last_validated\": 0,\n  \"stripe_customer_id\": null,\n  \"stripe_subscription_id\": null,\n  \"organization_id\": null,\n  \"organization_name\": null,\n  \"metadata\": {\n    \"a\": \"b\"\n  }\n}";
    assert_eq!(encode_license(&l), expected);
}

#[test]
fn test_empty_metadata_encodes_as_empty_object() {
    let text = encode_license(&minimal_license());
    assert!(text.contains("\"metadata\": {}"));
}

#[test]
fn test_missing_metadata_field_defaults_to_empty() {
    let text = encode_license(&minimal_license());
    let without = text.replace(",\n  \"metadata\": {}", "");
    let loaded = parse_license(&without).expect("record without metadata must parse");
    assert!(loaded.metadata.is_empty());
}

#[test]
fn test_invalid_format_rejected() {
    for bad in [
        "",
        "not json at all",
        "{}",
        "{\n  \"id\": \"x\"",
        "[1, 2, 3]",
    ] {
        match parse_license(bad) {
            Err(LicenseError::InvalidFormat(_)) => {}
            other => panic!("expected InvalidFormat, got {:?}", other),
        }
    }
}

#[test]
fn test_trailing_garbage_rejected() {
    let mut text = encode_license(&minimal_license());
    text.push_str("garbage");
    assert!(matches!(
        parse_license(&text),
        Err(LicenseError::InvalidFormat(_))
    ));
}

#[test]
fn test_all_tiers_roundtrip() {
    for tier in [
        SubscriptionTier::Free,
        SubscriptionTier::Pro,
        SubscriptionTier::Enterprise,
    ] {
        let mut l = minimal_license();
        l.tier = tier;
        let loaded = parse_license(&encode_license(&l)).unwrap();
        assert_eq!(loaded.tier, tier);
    }
}

#[test]
fn test_extreme_timestamps_roundtrip() {
    let mut l = minimal_license();
    l.issued_at = i64::MIN;
    l.expires_at = i64::MAX;
    l.last_validated = Some(-1);
    let loaded = parse_license(&encode_license(&l)).unwrap();
    assert_eq!(loaded.issued_at, i64::MIN);
    assert_eq!(loaded.expires_at, i64::MAX);
    assert_eq!(loaded.last_validated, Some(-1));
}
