use cx_terminal::codec::encode_license;
use cx_terminal::license::{License, LicenseError, SubscriptionTier};
use cx_terminal::protocol::{
    activate_request_body, activate_response, classify_validate_status, deactivate_outcome,
    record_request_body, validate_online_response,
};

fn sample_license() -> License {
    License {
        id: "lic-9".to_string(),
        email: "user@example.com".to_string(),
        name: None,
        tier: SubscriptionTier::Pro,
        key: "key-9".to_string(),
        issued_at: 1_700_000_000,
        expires_at: 1_702_592_000,
        hardware_fingerprint: None,
        last_validated: None,
        stripe_customer_id: None,
        stripe_subscription_id: None,
        organization_id: None,
        organization_name: None,
        metadata: Vec::new(),
    }
}

#[test]
fn test_activate_request_body() {
    let body = activate_request_body("KEY-1", "m1-linux-x86_64-unix-none");
    assert_eq!(
        body,
        "{\"hardware_fingerprint\":\"m1-linux-x86_64-unix-none\",\"license_key\":\"KEY-1\"}"
    );
}

#[test]
fn test_record_request_body() {
    let body = record_request_body(&sample_license(), "fp");
    assert_eq!(
        body,
        "{\"hardware_fingerprint\":\"fp\",\"license_id\":\"lic-9\",\"license_key\":\"key-9\"}"
    );
}

#[test]
fn test_validate_status_mapping() {
    assert!(classify_validate_status(200).is_ok());
    assert!(classify_validate_status(204).is_ok());
    for unauthorized in [401u16, 403u16] {
        match classify_validate_status(unauthorized) {
            Err(LicenseError::InvalidKey(m)) => assert_eq!(m, "License key rejected"),
            other => panic!("expected InvalidKey, got {:?}", other),
        }
    }
    assert!(matches!(
        classify_validate_status(410),
        Err(LicenseError::Revoked)
    ));
    match classify_validate_status(500) {
        Err(LicenseError::NetworkError(m)) => assert_eq!(m, "Server returned 500"),
        other => panic!("expected NetworkError, got {:?}", other),
    }
}

#[test]
fn test_validate_online_success_resets_grace_clock() {
    let mut l = sample_license();
    let now = 1_700_500_000;
    let r = validate_online_response(&mut l, 200, now);
    assert!(r.is_ok());
    assert_eq!(l.last_validated, Some(now));
}

#[test]
fn test_validate_online_revoked_leaves_record_untouched() {
    // A 410 answer surfaces as Revoked and must not touch the record, so
    // nothing gets persisted on failure.
    let mut l = sample_license();
    let r = validate_online_response(&mut l, 410, 1_700_500_000);
    assert!(matches!(r, Err(LicenseError::Revoked)));
    assert_eq!(l.last_validated, None);
}

#[test]
fn test_activate_response_rejects_failure_status() {
    match activate_response(410, "ignored body") {
        Err(LicenseError::InvalidKey(m)) => assert_eq!(m, "Failed to activate license"),
        other => panic!("expected InvalidKey, got {:?}", other),
    }
}

#[test]
fn test_activate_response_parses_record() {
    let issued = sample_license();
    let body = encode_license(&issued);
    let got = activate_response(200, &body).expect("activation body must parse");
    assert_eq!(got.id, issued.id);
    assert_eq!(got.key, issued.key);
    assert_eq!(got.tier, issued.tier);
}

#[test]
fn test_activate_response_bad_body() {
    assert!(matches!(
        activate_response(200, "surprise!"),
        Err(LicenseError::InvalidFormat(_))
    ));
}

#[test]
fn test_deactivate_ignores_network_outcome() {
    // Best-effort notification: an unreachable server is not propagated as
    // a failure of the overall operation.
    assert!(deactivate_outcome(&Ok(200)).is_ok());
    assert!(deactivate_outcome(&Ok(500)).is_ok());
    assert!(deactivate_outcome(&Err("connection refused".to_string())).is_ok());
}
