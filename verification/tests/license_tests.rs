use chrono::Utc;

use cx_terminal::license::{HardwareFingerprint, License, LicenseError, MachineProbes, SubscriptionTier};
use cx_terminal::validator::LicenseValidator;

const DAY: i64 = 86400;

fn sample_probes() -> MachineProbes {
    MachineProbes {
        machine_id: Some("4c4c4544-0042-3010-8056-b8c04f323233".to_string()),
        hostname: "dev-box".to_string(),
        os: "linux".to_string(),
        arch: "x86_64".to_string(),
        family: "unix".to_string(),
        mac: Some("aa:bb:cc:dd:ee:ff".to_string()),
        cpu: Some("Example CPU 3.0GHz".to_string()),
    }
}

fn plain_fingerprint(machine_id: &str) -> HardwareFingerprint {
    HardwareFingerprint {
        machine_id: machine_id.to_string(),
        mac_hash: None,
        os_id: "linux-x86_64-unix".to_string(),
        cpu_id: None,
    }
}

#[test]
fn test_license_creation() {
    let license = License::new(
        "test-123".to_string(),
        "user@example.com".to_string(),
        SubscriptionTier::Pro,
        "test-key".to_string(),
        Utc::now().timestamp() + 30 * DAY,
    );

    assert_eq!(license.tier, SubscriptionTier::Pro);
    assert!(!license.is_expired());
    assert!(license.days_until_expiry() > 0);
}

#[test]
fn test_expired_license() {
    let license = License::new(
        "test-123".to_string(),
        "user@example.com".to_string(),
        SubscriptionTier::Pro,
        "test-key".to_string(),
        Utc::now().timestamp() - DAY,
    );

    assert!(license.is_expired());
}

#[test]
fn test_hardware_fingerprint() {
    let fp = HardwareFingerprint::generate(&sample_probes());
    assert!(!fp.machine_id.is_empty());
    assert!(!fp.os_id.is_empty());
}

#[test]
fn test_fingerprint_matching() {
    let fp1 = HardwareFingerprint::generate(&sample_probes());
    let fp2 = HardwareFingerprint::generate(&sample_probes());

    // Same machine should match
    assert!(fp1.matches(&fp2));
}

#[test]
fn test_fingerprint_matching_tolerates_missing_mac() {
    let mut partial = sample_probes();
    partial.mac = None;
    let fp1 = HardwareFingerprint::generate(&sample_probes());
    let fp2 = HardwareFingerprint::generate(&partial);
    assert!(fp1.matches(&fp2));
    assert!(fp2.matches(&fp1));
}

#[test]
fn test_fingerprint_mismatch_on_machine_id() {
    let mut other = sample_probes();
    other.machine_id = Some("another-machine-id".to_string());
    let fp1 = HardwareFingerprint::generate(&sample_probes());
    let fp2 = HardwareFingerprint::generate(&other);
    assert!(!fp1.matches(&fp2));
}

#[test]
fn test_fingerprint_hostname_fallback() {
    let mut probes = sample_probes();
    probes.machine_id = None;
    probes.hostname = "dev-box.example".to_string();
    let fp = HardwareFingerprint::generate(&probes);
    // Alphanumeric characters of the hostname, in order.
    assert_eq!(fp.machine_id, "devboxexample");
}

#[test]
fn test_fingerprint_fields_are_digests() {
    let probes = sample_probes();
    let fp = HardwareFingerprint::generate(&probes);
    // The persisted fields are one-way digests: raw identifiers never
    // appear, and the digests are lowercase hexadecimal.
    assert_ne!(Some(fp.machine_id.clone()), probes.machine_id);
    assert_ne!(fp.mac_hash, probes.mac);
    assert_ne!(fp.cpu_id, probes.cpu);
    for field in [
        Some(fp.machine_id.clone()),
        fp.mac_hash.clone(),
        fp.cpu_id.clone(),
    ] {
        let digest = field.unwrap();
        assert!(!digest.is_empty());
        assert!(digest.chars().all(|c| c.is_ascii_hexdigit()));
    }
}

#[test]
fn test_canonical_string_form() {
    let fp = plain_fingerprint("m1");
    assert_eq!(fp.canonical_string(), "m1-linux-x86_64-unix-none");
}

#[test]
fn test_unbound_license_passes_any_hardware() {
    let license = License::new(
        "id-1".to_string(),
        "a@b.c".to_string(),
        SubscriptionTier::Free,
        "k".to_string(),
        1_700_000_000 + 30 * DAY,
    );
    assert!(license.is_valid_for_hardware(&plain_fingerprint("m1")));
    assert!(license.is_valid_for_hardware(&plain_fingerprint("m2")));
}

#[test]
fn test_bind_to_hardware_sets_canonical_string() {
    let mut license = License::new(
        "id-1".to_string(),
        "a@b.c".to_string(),
        SubscriptionTier::Pro,
        "k".to_string(),
        1_700_000_000 + 30 * DAY,
    );
    let fp = plain_fingerprint("m1");
    license.bind_to_hardware(&fp);
    assert_eq!(
        license.hardware_fingerprint.as_deref(),
        Some("m1-linux-x86_64-unix-none")
    );
    assert!(license.is_valid_for_hardware(&fp));
    assert!(!license.is_valid_for_hardware(&plain_fingerprint("m2")));
}

#[test]
fn test_days_until_expiry_exact() {
    let now = 1_700_000_000;
    let license = License::new(
        "id-1".to_string(),
        "a@b.c".to_string(),
        SubscriptionTier::Pro,
        "k".to_string(),
        now + 3 * DAY + 10,
    );
    assert_eq!(license.days_until_expiry_at(now), 3);
    assert_eq!(license.days_until_expiry_at(now + 4 * DAY), 0);
    assert_eq!(license.days_until_expiry_at(now + 5 * DAY), -1);
}

fn fresh_license(now: i64) -> License {
    // Issued now, expiring in 30 days, no hardware binding, never
    // online-validated.
    let mut l = License::new(
        "lic-1".to_string(),
        "user@example.com".to_string(),
        SubscriptionTier::Pro,
        "key-1".to_string(),
        now + 30 * DAY,
    );
    l.issued_at = now;
    l
}

fn validator_for(fp: HardwareFingerprint) -> LicenseValidator {
    LicenseValidator::new("license.json".to_string(), fp)
}

#[test]
fn test_validate_fresh_license_succeeds() {
    let now = 1_700_000_000;
    let v = validator_for(plain_fingerprint("m1"));
    let l = fresh_license(now);
    assert!(v.validate_at(&l, now).is_ok());
    assert!(v.is_valid_at(&l, now));
}

#[test]
fn test_validate_expired_license_fails() {
    let now = 1_700_000_000;
    let v = validator_for(plain_fingerprint("m1"));
    let mut l = fresh_license(now);
    l.expires_at = now - DAY;
    assert!(matches!(v.validate_at(&l, now), Err(LicenseError::Expired)));
}

#[test]
fn test_validate_hardware_mismatch() {
    let now = 1_700_000_000;
    // Record bound to fingerprint F1, current machine identity F2, not
    // expired.
    let f1 = plain_fingerprint("m1");
    let f2 = plain_fingerprint("m2");
    let mut l = fresh_license(now);
    l.bind_to_hardware(&f1);
    let v = validator_for(f2);
    assert!(matches!(
        v.validate_at(&l, now),
        Err(LicenseError::HardwareMismatch)
    ));
}

#[test]
fn test_validate_expiry_wins_over_hardware() {
    let now = 1_700_000_000;
    let f1 = plain_fingerprint("m1");
    let mut l = fresh_license(now);
    l.bind_to_hardware(&f1);
    l.expires_at = now - DAY;
    let v = validator_for(plain_fingerprint("m2"));
    assert!(matches!(v.validate_at(&l, now), Err(LicenseError::Expired)));
}

#[test]
fn test_validate_grace_period_expired() {
    let now = 1_700_000_000;
    let v = validator_for(plain_fingerprint("m1"));
    let mut l = fresh_license(now);
    l.last_validated = Some(now - 10 * DAY);
    assert!(matches!(
        v.validate_at(&l, now),
        Err(LicenseError::GracePeriodExpired)
    ));
    assert_eq!(v.grace_period_remaining_at(&l, now), Some(0));
}

#[test]
fn test_grace_period_queries() {
    let now = 1_700_000_000;
    let v = validator_for(plain_fingerprint("m1"));
    let mut l = fresh_license(now);

    // Never validated online: no grace window, no remaining count.
    assert!(!v.is_in_grace_period_at(&l, now));
    assert_eq!(v.grace_period_remaining_at(&l, now), None);
    assert!(v.validate_at(&l, now).is_ok());

    // Two days since the last check: inside the window, five days left.
    l.last_validated = Some(now - 2 * DAY);
    assert!(v.is_in_grace_period_at(&l, now));
    assert_eq!(v.grace_period_remaining_at(&l, now), Some(5));

    // A last check in the future: clamped to the full period.
    l.last_validated = Some(now + DAY);
    assert!(!v.is_in_grace_period_at(&l, now));
    assert_eq!(v.grace_period_remaining_at(&l, now), Some(7));

    // Remaining days never increase as the last check ages.
    let mut previous = u32::MAX;
    for days_ago in 0..12 {
        l.last_validated = Some(now - days_ago * DAY);
        let left = v.grace_period_remaining_at(&l, now).unwrap();
        assert!(left <= previous);
        assert!(left <= 7);
        previous = left;
    }
}

#[test]
fn test_validator_configuration() {
    let v = validator_for(plain_fingerprint("m1"));
    assert_eq!(v.license_path(), "license.json");
    assert_eq!(v.server_url(), "https://license.cxlinux.ai/api/v1");
    assert_eq!(v.hardware_fingerprint().machine_id, "m1");
}

#[test]
fn test_error_messages() {
    assert_eq!(LicenseError::NotFound.message(), "License file not found");
    assert_eq!(
        LicenseError::InvalidFormat("bad".to_string()).message(),
        "Invalid license format: bad"
    );
    assert_eq!(LicenseError::Expired.message(), "License has expired");
    assert_eq!(
        LicenseError::HardwareMismatch.message(),
        "License is bound to different hardware"
    );
    assert_eq!(
        LicenseError::InvalidKey("k".to_string()).message(),
        "Invalid license key: k"
    );
    assert_eq!(
        LicenseError::ServerUnreachable.message(),
        "License server is unreachable"
    );
    assert_eq!(LicenseError::Revoked.message(), "License has been revoked");
    assert_eq!(
        LicenseError::IoError("io".to_string()).message(),
        "IO error: io"
    );
    assert_eq!(
        LicenseError::NetworkError("net".to_string()).message(),
        "Network error: net"
    );
    assert_eq!(
        LicenseError::GracePeriodExpired.message(),
        "Offline grace period has expired"
    );
}
